//! El encuadre del diario de activos: una línea por registro.
//!
//! Leer el diario desde un desplazamiento es partir lo leído en líneas
//! completas. Una línea sin salto final es una escritura interrumpida: no es
//! corrupción, y se deja para la siguiente lectura. Las líneas en blanco no
//! cuentan. Interpretar cada línea (JSON) es cosa de quien llama.

use vstd::prelude::*;

verus! {

/// Un byte de blanco ASCII, como `u8::is_ascii_whitespace`: espacio,
/// tabulador, salto de línea, salto de página o retorno de carro.
pub open spec fn blanco_ascii(b: u8) -> bool {
    b == 0x20 || b == 0x09 || b == 0x0A || b == 0x0C || b == 0x0D
}

/// El primer salto de línea desde `k`, o el final.
pub open spec fn siguiente_salto(b: Seq<u8>, k: int) -> int
    decreases b.len() - k,
{
    if k < 0 || k >= b.len() {
        b.len() as int
    } else if b[k] == 0x0A {
        k
    } else {
        siguiente_salto(b, k + 1)
    }
}

pub open spec fn en_blanco(b: Seq<u8>) -> bool {
    forall|i: int| 0 <= i < b.len() ==> blanco_ascii(#[trigger] b[i])
}

/// Los cuerpos (sin el salto) de las líneas completas desde `k` que no están
/// en blanco, como rangos `[inicio, fin)`.
pub open spec fn cuerpos_desde(b: Seq<u8>, k: int) -> Seq<(int, int)>
    decreases b.len() - k,
{
    if k < 0 || k >= b.len() {
        Seq::empty()
    } else {
        let e = siguiente_salto(b, k);
        proof {
            lema_salto(b, k);
        }
        if e >= b.len() {
            Seq::empty()
        } else if en_blanco(b.subrange(k, e)) {
            cuerpos_desde(b, e + 1)
        } else {
            seq![(k, e)] + cuerpos_desde(b, e + 1)
        }
    }
}

/// Cuántos bytes ocupan las líneas completas desde `k`: hasta el último salto
/// de línea, incluido.
pub open spec fn consumidos_desde(b: Seq<u8>, k: int) -> int
    decreases b.len() - k,
{
    if k < 0 || k >= b.len() {
        k
    } else {
        let e = siguiente_salto(b, k);
        proof {
            lema_salto(b, k);
        }
        if e >= b.len() {
            k
        } else {
            consumidos_desde(b, e + 1)
        }
    }
}

/// El salto siguiente está entre `k` y el final, y antes de él no hay otro.
pub proof fn lema_salto(b: Seq<u8>, k: int)
    requires
        0 <= k,
    ensures
        k <= siguiente_salto(b, k) <= b.len() || k > b.len(),
        siguiente_salto(b, k) < b.len() ==> b[siguiente_salto(b, k)] == 0x0A,
        forall|i: int| k <= i < siguiente_salto(b, k) ==> b[i] != 0x0A,
    decreases b.len() - k,
{
    if k < b.len() && b[k] != 0x0A {
        lema_salto(b, k + 1);
    }
}

/// Las líneas completas de lo leído: los rangos de los cuerpos que no están
/// en blanco, en orden, y cuántos bytes se consumen (hasta el último salto de
/// línea). Lo que queda detrás es una cola a medias.
pub fn lineas_completas(b: &[u8]) -> (r: (Vec<(usize, usize)>, usize))
    ensures
        r.0@.len() == cuerpos_desde(b@, 0).len(),
        forall|i: int| 0 <= i < r.0@.len() ==> (#[trigger] r.0@[i]).0 == cuerpos_desde(b@, 0)[i].0 && r.0@[i].1
            == cuerpos_desde(b@, 0)[i].1,
        r.1 == consumidos_desde(b@, 0),
{
    let mut out: Vec<(usize, usize)> = Vec::new();
    let mut k: usize = 0;
    let n = b.len();
    let mut fin = false;
    while k < n && !fin
        invariant
            n == b@.len(),
            k <= n,
            cuerpos_desde(b@, 0) == vistas_rangos(out@) + cuerpos_desde(b@, k as int),
            consumidos_desde(b@, 0) == consumidos_desde(b@, k as int),
            fin ==> cuerpos_desde(b@, k as int) == Seq::<(int, int)>::empty() && consumidos_desde(b@, k as int)
                == k,
        decreases n - k + (if fin { 0int } else { 1int }),
    {
        let mut e = k;
        let mut blanca = true;
        assert(b@.subrange(k as int, k as int) =~= Seq::<u8>::empty());
        while e < n && b[e] != 0x0A
            invariant
                n == b@.len(),
                k <= e <= n,
                k < n,
                siguiente_salto(b@, k as int) == siguiente_salto(b@, e as int),
                blanca == en_blanco(b@.subrange(k as int, e as int)),
            decreases n - e,
        {
            let c = b[e];
            proof {
                let s0 = b@.subrange(k as int, e as int);
                let s1 = b@.subrange(k as int, e + 1);
                assert(s1 =~= s0.push(c));
                if en_blanco(s1) {
                    assert forall|i: int| 0 <= i < s0.len() implies blanco_ascii(#[trigger] s0[i]) by {
                        assert(s1[i] == s0[i]);
                    }
                    assert(s1[s0.len() as int] == c);
                }
                if en_blanco(s0) && blanco_ascii(c) {
                    assert forall|i: int| 0 <= i < s1.len() implies blanco_ascii(#[trigger] s1[i]) by {
                        if i < s0.len() {
                            assert(s1[i] == s0[i]);
                        }
                    }
                }
            }
            if !(c == 0x20 || c == 0x09 || c == 0x0A || c == 0x0C || c == 0x0D) {
                blanca = false;
            }
            e = e + 1;
        }
        assert(siguiente_salto(b@, k as int) == e);
        if e >= n {
            fin = true;
        } else {
            let ghost antes = vistas_rangos(out@);
            if !blanca {
                out.push((k, e));
                proof {
                    assert(vistas_rangos(out@) =~= antes.push((k as int, e as int)));
                    assert(antes.push((k as int, e as int)) + cuerpos_desde(b@, e + 1) =~= antes + (seq![
                        (k as int, e as int),
                    ] + cuerpos_desde(b@, e + 1)));
                }
            }
            k = e + 1;
        }
    }
    proof {
        if !fin {
            assert(cuerpos_desde(b@, k as int) =~= Seq::<(int, int)>::empty());
        }
        assert(vistas_rangos(out@) + cuerpos_desde(b@, k as int) =~= vistas_rangos(out@));
    }
    (out, k)
}

pub open spec fn vistas_rangos(v: Seq<(usize, usize)>) -> Seq<(int, int)> {
    Seq::new(v.len(), |i: int| (v[i].0 as int, v[i].1 as int))
}

} // verus!
