//! La frontera de interoperabilidad: la malla neutra de intercambio y la
//! conversión de ejes.
//!
//! El documento es Z arriba; glTF es Y arriba. La conversión ocurre aquí y en
//! ningún otro sitio, y es una rotación, no una reflexión: una conversión que
//! espeje deja las caras del revés en todos los programas de destino.

use vstd::prelude::*;

use crate::kernel::{buscar_fuera, primer_indice_fuera, Tessellation};
use crate::mesh::copia_vec;
use crate::obj::Malformacion;
use crate::vector::{f64_neg, DVec2, DVec3};

verus! {

/// Qué incumple una malla de intercambio.
#[derive(Clone, Copy, PartialEq, Eq, Structural, Debug)]
pub enum DefectoDeSopa {
    /// El número de índices no es múltiplo de tres.
    IndicesSueltos { indices: usize },
    /// No hay vértices.
    SinVertices,
    /// Un índice apunta fuera de las posiciones.
    IndiceFuera { indice: u32, vertices: u32 },
    /// Hay normales, pero no una por posición.
    NormalesDescuadradas,
    /// Hay UVs, pero no una por posición.
    UvsDescuadradas,
}

/// Errores de importación y exportación que decide la biblioteca.
#[derive(Clone, Debug)]
pub enum InteropError {
    /// El archivo está mal formado en la línea `line` (desde 1).
    Malformed { line: usize, detail: Malformacion },
    InvalidMesh(DefectoDeSopa),
    Unsupported(&'static str),
    Json(String),
}

/// Malla neutra de intercambio: posiciones, normales, UV e índices, siempre en
/// Z arriba y en milímetros.
#[derive(Clone, Debug, Default)]
pub struct TriangleSoup {
    pub name: String,
    pub positions: Vec<DVec3>,
    pub normals: Vec<DVec3>,
    pub uvs: Vec<DVec2>,
    /// Triples de índices a `positions`.
    pub indices: Vec<u32>,
}

/// El primer defecto de una malla de intercambio con estas posiciones,
/// normales, UV e índices, en el orden en que se comprueba.
pub open spec fn defecto_de(pos: Seq<DVec3>, nor: Seq<DVec3>, uv: Seq<DVec2>, idx: Seq<u32>) -> Option<
    DefectoDeSopa,
> {
    let n = pos.len() as u32;
    let k = primer_indice_fuera(idx, n, 0);
    if idx.len() % 3 != 0 {
        Some(DefectoDeSopa::IndicesSueltos { indices: idx.len() as usize })
    } else if pos.len() == 0 {
        Some(DefectoDeSopa::SinVertices)
    } else if k < idx.len() {
        Some(DefectoDeSopa::IndiceFuera { indice: idx[k], vertices: n })
    } else if nor.len() != 0 && nor.len() != pos.len() {
        Some(DefectoDeSopa::NormalesDescuadradas)
    } else if uv.len() != 0 && uv.len() != pos.len() {
        Some(DefectoDeSopa::UvsDescuadradas)
    } else {
        None
    }
}

impl TriangleSoup {
    pub fn triangle_count(&self) -> (r: usize)
        ensures
            r == self.indices@.len() / 3,
    {
        self.indices.len() / 3
    }

    /// El primer defecto, en el orden en que se comprueba.
    pub open spec fn defecto(&self) -> Option<DefectoDeSopa> {
        defecto_de(self.positions@, self.normals@, self.uvs@, self.indices@)
    }

    /// Invariantes estructurales. Evita exportar algo que el programa de
    /// destino rechace con un error incomprensible.
    pub fn validate(&self) -> (r: Result<(), InteropError>)
        ensures
            r is Ok <==> self.defecto() is None,
            self.defecto() matches Some(d) ==> r matches Err(InteropError::InvalidMesh(e)) && e == d,
    {
        if self.indices.len() % 3 != 0 {
            return Err(
                InteropError::InvalidMesh(
                    DefectoDeSopa::IndicesSueltos { indices: self.indices.len() },
                ),
            );
        }
        if self.positions.len() == 0 {
            return Err(InteropError::InvalidMesh(DefectoDeSopa::SinVertices));
        }
        let n = #[verifier::truncate] (self.positions.len() as u32);
        match buscar_fuera(&self.indices, n) {
            Some(mal) => {
                return Err(
                    InteropError::InvalidMesh(DefectoDeSopa::IndiceFuera { indice: mal, vertices: n }),
                );
            },
            None => {},
        }
        if self.normals.len() != 0 && self.normals.len() != self.positions.len() {
            return Err(InteropError::InvalidMesh(DefectoDeSopa::NormalesDescuadradas));
        }
        if self.uvs.len() != 0 && self.uvs.len() != self.positions.len() {
            return Err(InteropError::InvalidMesh(DefectoDeSopa::UvsDescuadradas));
        }
        Ok(())
    }

    /// Desde el teselado del kernel. Pierde la procedencia a propósito: un
    /// formato externo no tiene dónde guardarla.
    pub fn from_tessellation(t: &Tessellation, name: &str) -> (r: TriangleSoup)
        ensures
            r.name@ == name@,
            r.positions@ == t.positions@,
            r.normals@ == t.normals@,
            r.uvs@.len() == 0,
            r.indices@ == t.indices@,
    {
        TriangleSoup {
            name: String::from_str(name),
            positions: copia_vec(&t.positions),
            normals: copia_vec(&t.normals),
            uvs: Vec::new(),
            indices: copia_vec(&t.indices),
        }
    }
}

/// Z arriba (FORGE) → Y arriba (glTF): rotación de −90° alrededor de X,
/// `(x, y, z) → (x, z, −y)`.
pub fn z_up_to_y_up(v: DVec3) -> (r: DVec3)
    ensures
        r.x == v.x && r.y == v.z && r.z == f64_neg(v.y),
{
    DVec3 { x: v.x, y: v.z, z: crate::vector::neg_f64(v.y) }
}

/// Y arriba (glTF) → Z arriba (FORGE): `(x, y, z) → (x, −z, y)`. Inversa exacta
/// de [`z_up_to_y_up`].
pub fn y_up_to_z_up(v: DVec3) -> (r: DVec3)
    ensures
        r.x == v.x && r.y == f64_neg(v.z) && r.z == v.y,
{
    DVec3 { x: v.x, y: crate::vector::neg_f64(v.z), z: v.y }
}

/// Las dos conversiones de ejes se deshacen la una a la otra, bit a bit: no
/// hay redondeo que perder.
pub proof fn ley_ejes_ida_y_vuelta(v: DVec3)
    ensures
        ({
            let w = DVec3 { x: v.x, y: v.z, z: f64_neg(v.y) };
            DVec3 { x: w.x, y: f64_neg(w.z), z: w.y } == v
        }),
        ({
            let w = DVec3 { x: v.x, y: f64_neg(v.z), z: v.y };
            DVec3 { x: w.x, y: w.z, z: f64_neg(w.y) } == v
        }),
{
    crate::vector::lema_neg_involutiva(v.y);
    crate::vector::lema_neg_involutiva(v.z);
}

/// Un vector de componentes reales, como enteros.
pub open spec fn producto_mixto(a: (int, int, int), b: (int, int, int), c: (int, int, int)) -> int {
    (a.1 * b.2 - a.2 * b.1) * c.0 + (a.2 * b.0 - a.0 * b.2) * c.1 + (a.0 * b.1 - a.1 * b.0) * c.2
}

/// La conversión Z→Y como aplicación lineal sobre los valores.
pub open spec fn z_a_y(v: (int, int, int)) -> (int, int, int) {
    (v.0, v.2, -v.1)
}

/// La conversión es una rotación, no una reflexión: conserva el producto
/// mixto, que una reflexión cambiaría de signo. Las caras no salen del revés.
pub proof fn ley_conversion_es_rotacion(a: (int, int, int), b: (int, int, int), c: (int, int, int))
    ensures
        producto_mixto(z_a_y(a), z_a_y(b), z_a_y(c)) == producto_mixto(a, b, c),
{
    assert(producto_mixto(z_a_y(a), z_a_y(b), z_a_y(c)) == producto_mixto(a, b, c))
        by (nonlinear_arith);
}

/// Opciones del exportador OBJ.
#[derive(Clone, Copy, Debug)]
pub struct ObjOptions {
    /// Convertir a Y arriba al escribir (y desde Y arriba al leer).
    pub y_up: bool,
    pub write_normals: bool,
    pub write_uvs: bool,
}

impl ObjOptions {
    /// Normales y UVs, en Z arriba.
    pub fn completo() -> (r: ObjOptions)
        ensures
            !r.y_up && r.write_normals && r.write_uvs,
    {
        ObjOptions { y_up: false, write_normals: true, write_uvs: true }
    }
}

impl Default for ObjOptions {
    fn default() -> (r: ObjOptions)
        ensures
            !r.y_up && !r.write_normals && !r.write_uvs,
    {
        ObjOptions { y_up: false, write_normals: false, write_uvs: false }
    }
}

} // verus!
