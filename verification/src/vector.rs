//! Vectores de coordenadas en milímetros, guardadas por su patrón de bits
//! IEEE-754 de doble precisión.
//!
//! El núcleo verificado no hace aritmética de coma flotante: los vectores se
//! mueven, se copian, se comparan y cambian de signo, y para eso basta con los
//! bits. La igualdad es la de `f64` (`0.0 == -0.0`, `NaN` distinto de todo), no
//! la de los bits.

use vstd::prelude::*;

verus! {

/// Máscara del bit de signo de un `f64`.
pub const SIGNO: u64 = 0x8000_0000_0000_0000u64;
/// Máscara del exponente de un `f64`.
pub const EXPONENTE: u64 = 0x7FF0_0000_0000_0000u64;
/// Máscara de la mantisa de un `f64`.
pub const MANTISA: u64 = 0x000F_FFFF_FFFF_FFFFu64;
/// Bits de `1.0`.
pub const UNO: u64 = 0x3FF0_0000_0000_0000u64;

/// ¿Es `NaN` el `f64` de estos bits?
pub open spec fn es_nan(b: u64) -> bool {
    (b & EXPONENTE) == EXPONENTE && (b & MANTISA) != 0
}

/// Igualdad de `f64` sobre sus bits: ningún `NaN` es igual a nada, y los dos
/// ceros son iguales entre sí.
pub open spec fn f64_igual(a: u64, b: u64) -> bool {
    !es_nan(a) && !es_nan(b) && (a == b || ((a | b) & !SIGNO) == 0)
}

/// Negación de `f64`: invierte el bit de signo y nada más.
pub open spec fn f64_neg(b: u64) -> u64 {
    b ^ SIGNO
}

/// Cambiar dos veces de signo deja los bits como estaban.
pub proof fn lema_neg_involutiva(b: u64)
    ensures
        f64_neg(f64_neg(b)) == b,
{
    assert((b ^ 0x8000_0000_0000_0000u64) ^ 0x8000_0000_0000_0000u64 == b) by (bit_vector);
}

/// `a == b` para dos `f64` dados por sus bits.
pub fn igual_f64(a: u64, b: u64) -> (r: bool)
    ensures
        r == f64_igual(a, b),
{
    let nan_a = (a & EXPONENTE) == EXPONENTE && (a & MANTISA) != 0;
    let nan_b = (b & EXPONENTE) == EXPONENTE && (b & MANTISA) != 0;
    !nan_a && !nan_b && (a == b || ((a | b) & !SIGNO) == 0)
}

/// `-x` para un `f64` dado por sus bits.
pub fn neg_f64(b: u64) -> (r: u64)
    ensures
        r == f64_neg(b),
{
    b ^ SIGNO
}

/// Vector de tres `f64`, cada uno por sus bits.
#[derive(Clone, Copy, Debug, Default)]
pub struct DVec3 {
    pub x: u64,
    pub y: u64,
    pub z: u64,
}

/// Vector de dos `f64`, cada uno por sus bits.
#[derive(Clone, Copy, Debug, Default)]
pub struct DVec2 {
    pub x: u64,
    pub y: u64,
}

impl DVec3 {
    pub open spec fn igual(self, o: DVec3) -> bool {
        f64_igual(self.x, o.x) && f64_igual(self.y, o.y) && f64_igual(self.z, o.z)
    }

    /// Construye el vector a partir de los bits de sus componentes.
    pub fn from_bits(x: u64, y: u64, z: u64) -> (r: DVec3)
        ensures
            r.x == x && r.y == y && r.z == z,
    {
        DVec3 { x, y, z }
    }

    /// `(0, 0, 0)`.
    pub fn zero() -> (r: DVec3)
        ensures
            r.x == 0 && r.y == 0 && r.z == 0,
    {
        DVec3 { x: 0, y: 0, z: 0 }
    }

    /// `(1, 0, 0)`.
    pub fn unit_x() -> (r: DVec3)
        ensures
            r.x == UNO && r.y == 0 && r.z == 0,
    {
        DVec3 { x: UNO, y: 0, z: 0 }
    }

    /// `(0, 1, 0)`.
    pub fn unit_y() -> (r: DVec3)
        ensures
            r.x == 0 && r.y == UNO && r.z == 0,
    {
        DVec3 { x: 0, y: UNO, z: 0 }
    }

    /// `(0, 0, 1)`.
    pub fn unit_z() -> (r: DVec3)
        ensures
            r.x == 0 && r.y == 0 && r.z == UNO,
    {
        DVec3 { x: 0, y: 0, z: UNO }
    }

    /// `-v`, componente a componente.
    pub fn neg(self) -> (r: DVec3)
        ensures
            r.x == f64_neg(self.x) && r.y == f64_neg(self.y) && r.z == f64_neg(self.z),
    {
        DVec3 { x: neg_f64(self.x), y: neg_f64(self.y), z: neg_f64(self.z) }
    }
}

impl DVec2 {
    pub open spec fn igual(self, o: DVec2) -> bool {
        f64_igual(self.x, o.x) && f64_igual(self.y, o.y)
    }

    /// Construye el vector a partir de los bits de sus componentes.
    pub fn from_bits(x: u64, y: u64) -> (r: DVec2)
        ensures
            r.x == x && r.y == y,
    {
        DVec2 { x, y }
    }
}

/// Caja alineada con los ejes, por los bits de sus esquinas.
#[derive(Clone, Copy, Debug, Default)]
pub struct Aabb {
    pub min: DVec3,
    pub max: DVec3,
}

impl PartialEq for DVec3 {
    fn eq(&self, other: &DVec3) -> (r: bool) {
        igual_f64(self.x, other.x) && igual_f64(self.y, other.y) && igual_f64(self.z, other.z)
    }
}

impl vstd::std_specs::cmp::PartialEqSpecImpl for DVec3 {
    open spec fn obeys_eq_spec() -> bool {
        true
    }

    open spec fn eq_spec(&self, other: &DVec3) -> bool {
        self.igual(*other)
    }
}

impl PartialEq for DVec2 {
    fn eq(&self, other: &DVec2) -> (r: bool) {
        igual_f64(self.x, other.x) && igual_f64(self.y, other.y)
    }
}

impl vstd::std_specs::cmp::PartialEqSpecImpl for DVec2 {
    open spec fn obeys_eq_spec() -> bool {
        true
    }

    open spec fn eq_spec(&self, other: &DVec2) -> bool {
        self.igual(*other)
    }
}

} // verus!
