//! Hash estable y explícito: FNV-1a de 64 bits.
//!
//! No se usa el hasher de la biblioteca estándar: su estabilidad entre
//! versiones no está garantizada, y de estos valores dependen identidades que
//! tienen que sobrevivir entre sesiones y entre máquinas.

use vstd::prelude::*;
use vstd::string::StringSliceAdditionalSpecFns;

verus! {

/// Base de desplazamiento de FNV-1a (64 bits).
pub const FNV_BASE: u64 = 0xcbf2_9ce4_8422_2325;

/// Primo de FNV-1a (64 bits).
pub const FNV_PRIMO: u64 = 0x100_0000_01b3;

/// Un paso de FNV-1a: mezcla un byte.
pub open spec fn paso(h: u64, b: u8) -> u64 {
    vstd::wrapping::u64_specs::wrapping_mul(h ^ (b as u64), FNV_PRIMO)
}

/// FNV-1a de `bytes` a partir del estado `h`.
pub open spec fn fnv_desde(h: u64, bytes: Seq<u8>) -> u64
    decreases bytes.len(),
{
    if bytes.len() == 0 {
        h
    } else {
        paso(fnv_desde(h, bytes.drop_last()), bytes.last())
    }
}

/// Los ocho bytes de `x` en orden little-endian.
pub open spec fn bytes_le(x: u64) -> Seq<u8> {
    Seq::new(8, |i: int| (x >> ((8 * i) as u64)) as u8)
}

/// Los bytes little-endian de cada palabra, uno detrás de otro.
pub open spec fn bytes_de_palabras(p: Seq<u64>) -> Seq<u8>
    decreases p.len(),
{
    if p.len() == 0 {
        Seq::empty()
    } else {
        bytes_de_palabras(p.drop_last()) + bytes_le(p.last())
    }
}

/// Mezclar una concatenación es mezclar una parte y luego la otra.
pub proof fn lema_fnv_concat(h: u64, a: Seq<u8>, b: Seq<u8>)
    ensures
        fnv_desde(h, a + b) == fnv_desde(fnv_desde(h, a), b),
    decreases b.len(),
{
    if b.len() == 0 {
        assert(a + b =~= a);
    } else {
        assert((a + b).drop_last() =~= a + b.drop_last());
        assert((a + b).last() == b.last());
        lema_fnv_concat(h, a, b.drop_last());
    }
}

/// Mezcla `bytes` en el estado `h`.
pub fn mezclar(h: u64, bytes: &[u8]) -> (r: u64)
    ensures
        r == fnv_desde(h, bytes@),
{
    let mut acc = h;
    let mut i: usize = 0;
    assert(bytes@.take(0) =~= Seq::<u8>::empty());
    while i < bytes.len()
        invariant
            i <= bytes@.len(),
            acc == fnv_desde(h, bytes@.take(i as int)),
        decreases bytes@.len() - i,
    {
        assert(bytes@.take(i + 1).drop_last() =~= bytes@.take(i as int));
        acc = (acc ^ (bytes[i] as u64)).wrapping_mul(FNV_PRIMO);
        i = i + 1;
    }
    assert(bytes@.take(bytes@.len() as int) =~= bytes@);
    acc
}

/// Los ocho bytes little-endian de `x`.
pub fn a_bytes_le(x: u64) -> (r: [u8; 8])
    ensures
        r@ == bytes_le(x),
{
    let r = [
        x as u8,
        (x >> 8u64) as u8,
        (x >> 16u64) as u8,
        (x >> 24u64) as u8,
        (x >> 32u64) as u8,
        (x >> 40u64) as u8,
        (x >> 48u64) as u8,
        (x >> 56u64) as u8,
    ];
    assert(x >> 0u64 == x) by (bit_vector);
    assert(r@ =~= bytes_le(x));
    r
}

/// FNV-1a de los bytes little-endian de cada palabra, en orden.
pub fn fnv(partes: &[u64]) -> (r: u64)
    ensures
        r == fnv_desde(FNV_BASE, bytes_de_palabras(partes@)),
{
    let mut h = FNV_BASE;
    let mut i: usize = 0;
    assert(partes@.take(0) =~= Seq::<u64>::empty());
    while i < partes.len()
        invariant
            i <= partes@.len(),
            h == fnv_desde(FNV_BASE, bytes_de_palabras(partes@.take(i as int))),
        decreases partes@.len() - i,
    {
        let b = a_bytes_le(partes[i]);
        proof {
            assert(partes@.take(i + 1).drop_last() =~= partes@.take(i as int));
            lema_fnv_concat(FNV_BASE, bytes_de_palabras(partes@.take(i as int)), bytes_le(partes@[i as int]));
        }
        h = mezclar(h, &b);
        i = i + 1;
    }
    assert(partes@.take(partes@.len() as int) =~= partes@);
    h
}

/// Marca estable de una entidad: el hash de la etiqueta, seguido del índice.
pub fn marca(etiqueta: &str, indice: u32) -> (r: u64)
    ensures
        r == fnv_desde(
            FNV_BASE,
            bytes_de_palabras(seq![fnv_desde(FNV_BASE, etiqueta.spec_bytes()), indice as u64]),
        ),
{
    let h = mezclar(FNV_BASE, etiqueta.as_bytes());
    let partes = [h, indice as u64];
    assert(partes@ =~= seq![h, indice as u64]);
    fnv(&partes)
}

} // verus!
