//! Conjuntos ordenados de cadenas.
//!
//! El orden es el lexicográfico por punto de código, que es también el de
//! `String` en Rust: UTF-8 conserva el orden de los puntos de código, así que
//! comparar bytes y comparar caracteres da lo mismo.

use vstd::prelude::*;

use crate::texto::caracteres;

verus! {

/// `a` va estrictamente antes que `b`.
pub open spec fn lex_menor(a: Seq<char>, b: Seq<char>) -> bool
    decreases a.len(),
{
    if a.len() == 0 {
        b.len() > 0
    } else if b.len() == 0 {
        false
    } else if a[0] != b[0] {
        (a[0] as u32) < (b[0] as u32)
    } else {
        lex_menor(a.drop_first(), b.drop_first())
    }
}

pub proof fn lema_lex_irreflexivo(a: Seq<char>)
    ensures
        !lex_menor(a, a),
    decreases a.len(),
{
    if a.len() > 0 {
        lema_lex_irreflexivo(a.drop_first());
    }
}

pub proof fn lema_lex_total(a: Seq<char>, b: Seq<char>)
    ensures
        a == b || lex_menor(a, b) || lex_menor(b, a),
        !(lex_menor(a, b) && lex_menor(b, a)),
    decreases a.len(),
{
    if a.len() > 0 && b.len() > 0 {
        if a[0] == b[0] {
            lema_lex_total(a.drop_first(), b.drop_first());
            if a.drop_first() == b.drop_first() {
                assert(a =~= seq![a[0]] + a.drop_first());
                assert(b =~= seq![b[0]] + b.drop_first());
            }
        } else {
            if (a[0] as u32) == (b[0] as u32) {
                vstd::utf8::char_u32_cast(a[0], a[0] as u32);
                vstd::utf8::char_u32_cast(b[0], b[0] as u32);
            }
        }
    } else if a.len() == 0 && b.len() == 0 {
        assert(a =~= b);
    }
}

pub proof fn lema_lex_transitivo(a: Seq<char>, b: Seq<char>, c: Seq<char>)
    requires
        lex_menor(a, b),
        lex_menor(b, c),
    ensures
        lex_menor(a, c),
    decreases a.len(),
{
    if a.len() > 0 && b.len() > 0 && c.len() > 0 {
        if a[0] == b[0] && b[0] == c[0] {
            lema_lex_transitivo(a.drop_first(), b.drop_first(), c.drop_first());
        }
    }
}

/// Una secuencia estrictamente creciente: ordenada y sin repetidos.
pub open spec fn creciente(s: Seq<Seq<char>>) -> bool {
    forall|i: int, j: int| 0 <= i < j < s.len() ==> lex_menor(s[i], s[j])
}

/// Las vistas de una lista de cadenas.
pub open spec fn vistas(v: Seq<String>) -> Seq<Seq<char>> {
    Seq::new(v.len(), |i: int| v[i]@)
}

/// El resultado de comparar dos cadenas.
#[derive(Clone, Copy, PartialEq, Eq, Structural, Debug)]
pub enum Comparacion {
    Menor,
    Igual,
    Mayor,
}

/// Compara dos secuencias de caracteres.
pub fn comparar(a: &Vec<char>, b: &Vec<char>) -> (r: Comparacion)
    ensures
        r == Comparacion::Menor <==> lex_menor(a@, b@),
        r == Comparacion::Igual <==> a@ == b@,
        r == Comparacion::Mayor <==> lex_menor(b@, a@),
{
    proof {
        lema_lex_total(a@, b@);
    }
    let mut i: usize = 0;
    while i < a.len() && i < b.len()
        invariant
            i <= a@.len(),
            i <= b@.len(),
            a@.take(i as int) == b@.take(i as int),
        decreases a@.len() - i,
    {
        if a[i] != b[i] {
            proof {
                lema_prefijo_comun(a@, b@, i as int);
                lema_prefijo_comun(b@, a@, i as int);
                assert(a@.skip(i as int)[0] == a@[i as int]);
                assert(b@.skip(i as int)[0] == b@[i as int]);
                vstd::utf8::char_u32_cast(a@[i as int], a@[i as int] as u32);
                vstd::utf8::char_u32_cast(b@[i as int], b@[i as int] as u32);
            }
            if (a[i] as u32) < (b[i] as u32) {
                return Comparacion::Menor;
            } else {
                return Comparacion::Mayor;
            }
        }
        assert(a@.take(i + 1) =~= a@.take(i as int).push(a@[i as int]));
        assert(b@.take(i + 1) =~= b@.take(i as int).push(b@[i as int]));
        i = i + 1;
    }
    proof {
        lema_prefijo_comun(a@, b@, i as int);
        lema_prefijo_comun(b@, a@, i as int);
        if a@.len() == b@.len() {
            assert(a@ =~= a@.take(i as int));
            assert(b@ =~= b@.take(i as int));
        }
    }
    if a.len() == b.len() {
        Comparacion::Igual
    } else if a.len() < b.len() {
        Comparacion::Menor
    } else {
        Comparacion::Mayor
    }
}

/// Con un prefijo común de largo `i`, el orden lo decide lo que sigue.
proof fn lema_prefijo_comun(a: Seq<char>, b: Seq<char>, i: int)
    requires
        0 <= i <= a.len(),
        i <= b.len(),
        a.take(i) == b.take(i),
    ensures
        lex_menor(a, b) == lex_menor(a.skip(i), b.skip(i)),
    decreases i,
{
    if i > 0 {
        assert(a[0] == a.take(i)[0]);
        assert(b[0] == b.take(i)[0]);
        assert(a.drop_first().take(i - 1) =~= a.take(i).drop_first());
        assert(b.drop_first().take(i - 1) =~= b.take(i).drop_first());
        lema_prefijo_comun(a.drop_first(), b.drop_first(), i - 1);
        assert(a.drop_first().skip(i - 1) =~= a.skip(i));
        assert(b.drop_first().skip(i - 1) =~= b.skip(i));
    } else {
        assert(a.skip(0) =~= a);
        assert(b.skip(0) =~= b);
    }
}

/// Mete `s` en su sitio de una lista creciente, si no estaba.
pub fn insertar_unico(v: &mut Vec<String>, s: String)
    requires
        creciente(vistas(old(v)@)),
    ensures
        creciente(vistas(final(v)@)),
        vistas(final(v)@).to_set() == vistas(old(v)@).to_set().insert(s@),
{
    let cs = caracteres(s.as_str());
    let mut p: usize = 0;
    let mut parar = false;
    while p < v.len() && !parar
        invariant
            p <= v@.len(),
            cs@ == s@,
            creciente(vistas(v@)),
            forall|j: int| 0 <= j < p ==> lex_menor(v@[j]@, s@),
            parar ==> p < v@.len() && lex_menor(s@, v@[p as int]@),
        decreases v@.len() - p + if parar { 0int } else { 1int },
    {
        let cv = caracteres(v[p].as_str());
        match comparar(&cv, &cs) {
            Comparacion::Menor => {
                p = p + 1;
            },
            Comparacion::Igual => {
                proof {
                    assert(vistas(v@)[p as int] == s@);
                    assert(vistas(v@).to_set().contains(s@));
                    assert(vistas(v@).to_set().insert(s@) =~= vistas(v@).to_set());
                }
                return;
            },
            Comparacion::Mayor => {
                parar = true;
            },
        }
    }
    let ghost antes = vistas(v@);
    proof {
        // todo lo que queda a partir de `p` va después de `s`
        assert forall|j: int| p <= j < antes.len() implies lex_menor(s@, antes[j]) by {
            assert(antes[p as int] == v@[p as int]@);
            if j > p {
                lema_lex_transitivo(s@, antes[p as int], antes[j]);
            }
        }
    }
    v.insert(p, s);
    proof {
        let despues = vistas(v@);
        assert(despues =~= antes.insert(p as int, s@));
        assert forall|i: int, j: int| 0 <= i < j < despues.len() implies lex_menor(
            despues[i],
            despues[j],
        ) by {
            if j < p {
            } else if j == p {
            } else if i < p {
                lema_lex_transitivo(despues[i], s@, despues[j]);
            } else if i == p {
            } else {
            }
        }
        assert forall|x: Seq<char>| despues.to_set().contains(x) <==> antes.to_set().insert(
            s@,
        ).contains(x) by {
            if despues.to_set().contains(x) {
                let k = choose|k: int| 0 <= k < despues.len() && despues[k] == x;
                if k < p {
                    assert(antes[k] == x);
                } else if k > p {
                    assert(antes[k - 1] == x);
                }
            }
            if antes.to_set().contains(x) {
                let k = choose|k: int| 0 <= k < antes.len() && antes[k] == x;
                if k < p {
                    assert(despues[k] == x);
                } else {
                    assert(despues[k + 1] == x);
                }
            }
            if x == s@ {
                assert(despues[p as int] == x);
            }
        }
        assert(despues.to_set() =~= antes.to_set().insert(s@));
    }
}

} // verus!
