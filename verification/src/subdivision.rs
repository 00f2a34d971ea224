//! Catmull–Clark: la topología de un nivel de subdivisión.
//!
//! Un nivel añade un punto por cara, uno por arista y uno por vértice, y
//! convierte cada n-gono en n cuadriláteros que heredan su procedencia. Las
//! posiciones son medias ponderadas en coma flotante y se calculan fuera; aquí
//! se decide qué punto nuevo sale de qué, con qué regla, y cómo se conectan.

use vstd::prelude::*;
use std::collections::HashMap;

use crate::adyacencia::{
    caras_de_vertice, clave, clave_arista, creciente_u32, indices_en_rango, mapa_aristas,
    medias_con_cara, vecinos_de, Adjacency,
};
use crate::ids::StableId;
use crate::mesh::{aristas, bucles, medias, medias_de_bucle, sin_orientar, sin_orientar_todas, Face, Mesh, ProvenanceMap};
use crate::modifiers::origen_de;

verus! {

broadcast use vstd::std_specs::hash::group_hash_axioms;

/// De qué sale cada punto de la malla subdividida.
#[derive(Clone, Debug)]
pub enum PuntoNuevo {
    /// El centroide de la cara.
    DeCara(u32),
    /// Arista con dos caras: media de sus extremos y de los puntos de sus caras.
    DeAristaInterior { a: u32, b: u32, f0: u32, f1: u32 },
    /// Arista de borde (o con más de dos caras): su punto medio. La media a
    /// secas encogería el borde.
    DeAristaBorde { a: u32, b: u32 },
    /// Vértice de borde bien formado: `(w0 + 6·v + w1) / 8` con sus dos
    /// vecinos de borde. Mantiene la curva del borde.
    DeVerticeBorde { v: u32, w0: u32, w1: u32 },
    /// Vértice que se deja quieto: esquina, pellizco no manifold o vértice sin
    /// vecindad suficiente.
    DeVerticeFijo(u32),
    /// Vértice interior: `(F + 2·R + (n − 3)·P) / n`, con sus caras y sus
    /// vecinos.
    DeVerticeInterior { v: u32, caras: Vec<u32>, vecinos: Vec<u32> },
}

/// Un nivel de subdivisión: los puntos nuevos, en orden, y las caras.
pub struct Subdivision {
    pub puntos: Vec<PuntoNuevo>,
    pub faces: Vec<Face>,
    pub prov: ProvenanceMap,
}

/// Las aristas sin orientación, en el orden de su primera media arista.
pub open spec fn aristas_en_orden(h: Seq<((u32, u32), u32)>) -> Seq<(u32, u32)>
    decreases h.len(),
{
    if h.len() == 0 {
        Seq::empty()
    } else {
        let previas = aristas_en_orden(h.drop_last());
        let e = sin_orientar(h.last().0);
        if previas.contains(e) {
            previas
        } else {
            previas.push(e)
        }
    }
}

/// Posición de `e` en `s` (la primera), o `s.len()` si no está.
pub open spec fn posicion(s: Seq<(u32, u32)>, e: (u32, u32)) -> int
    decreases s.len(),
{
    if s.len() == 0 {
        0
    } else if s[0] == e {
        0
    } else {
        1 + posicion(s.drop_first(), e)
    }
}

/// Los cuadriláteros de una cara `fi` de bucle `f`: uno por vértice.
pub open spec fn quads_de_cara(
    f: Seq<u32>,
    fi: int,
    l: Seq<(u32, u32)>,
    nf: int,
    ne: int,
) -> Seq<Seq<u32>> {
    let n = f.len() as int;
    Seq::new(
        f.len(),
        |i: int|
            seq![
                (nf + ne + f[i]) as u32,
                (nf + posicion(l, sin_orientar((f[i], f[(i + 1) % n])))) as u32,
                fi as u32,
                (nf + posicion(l, sin_orientar((f[(i + n - 1) % n], f[i])))) as u32,
            ],
    )
}

/// Todos los cuadriláteros, cara a cara y en orden.
pub open spec fn quads(c: Seq<Seq<u32>>, l: Seq<(u32, u32)>, nf: int, ne: int) -> Seq<Seq<u32>>
    decreases c.len(),
{
    if c.len() == 0 {
        Seq::empty()
    } else {
        quads(c.drop_last(), l, nf, ne) + quads_de_cara(c.last(), c.len() - 1, l, nf, ne)
    }
}

/// La procedencia de los cuadriláteros: la de la cara de la que salen.
pub open spec fn prov_quads(c: Seq<Seq<u32>>, p: Seq<Option<StableId>>) -> Seq<Option<StableId>>
    decreases c.len(),
{
    if c.len() == 0 {
        Seq::empty()
    } else {
        prov_quads(c.drop_last(), p) + Seq::new(c.last().len(), |i: int| origen_de(p, c.len() - 1))
    }
}

/// Total de vértices de los bucles.
pub open spec fn total_vertices(c: Seq<Seq<u32>>) -> nat
    decreases c.len(),
{
    if c.len() == 0 {
        0
    } else {
        total_vertices(c.drop_last()) + c.last().len()
    }
}

/// Una subdivisión convierte cada n-gono en n cuadriláteros, y cada uno
/// hereda la procedencia de su cara.
pub proof fn ley_n_cuadrilateros_por_n_gono(
    c: Seq<Seq<u32>>,
    l: Seq<(u32, u32)>,
    nf: int,
    ne: int,
    p: Seq<Option<StableId>>,
)
    ensures
        quads(c, l, nf, ne).len() == total_vertices(c),
        prov_quads(c, p).len() == total_vertices(c),
        forall|i: int| 0 <= i < quads(c, l, nf, ne).len() ==> (#[trigger] quads(c, l, nf, ne)[i]).len() == 4,
    decreases c.len(),
{
    if c.len() > 0 {
        ley_n_cuadrilateros_por_n_gono(c.drop_last(), l, nf, ne, p);
        let q0 = quads(c.drop_last(), l, nf, ne);
        let q1 = quads_de_cara(c.last(), c.len() - 1, l, nf, ne);
        assert forall|i: int| 0 <= i < quads(c, l, nf, ne).len() implies (#[trigger] quads(c, l, nf, ne)[i]).len() == 4 by {
            if i < q0.len() {
                assert(quads(c, l, nf, ne)[i] == q0[i]);
            } else {
                assert(quads(c, l, nf, ne)[i] == q1[i - q0.len()]);
            }
        }
    }
}

/// Las caras de la arista `e` según la adyacencia.
pub open spec fn caras_de_arista(h: Seq<((u32, u32), u32)>, e: (u32, u32)) -> Seq<u32> {
    mapa_aristas(h)[clave_arista(e.0, e.1)]
}

/// La regla de cada punto de arista.
pub open spec fn punto_de_arista(h: Seq<((u32, u32), u32)>, e: (u32, u32), p: PuntoNuevo) -> bool {
    let cs = caras_de_arista(h, e);
    if cs.len() == 2 {
        p == PuntoNuevo::DeAristaInterior { a: e.0, b: e.1, f0: cs[0], f1: cs[1] }
    } else {
        p == PuntoNuevo::DeAristaBorde { a: e.0, b: e.1 }
    }
}

/// ¿Es de borde la arista `(v, w)`? La recorre exactamente una cara.
pub open spec fn de_borde(h: Seq<((u32, u32), u32)>, v: u32, w: u32) -> bool {
    mapa_aristas(h).contains_key(clave_arista(v, w)) && mapa_aristas(h)[clave_arista(v, w)].len()
        == 1
}

/// Los vecinos de borde de `v`, en orden creciente, a partir de sus vecinos
/// en orden creciente.
pub open spec fn bordes_de(h: Seq<((u32, u32), u32)>, v: u32, vecinos: Seq<u32>) -> Seq<u32>
    decreases vecinos.len(),
{
    if vecinos.len() == 0 {
        Seq::empty()
    } else {
        let b = bordes_de(h, v, vecinos.drop_last());
        if de_borde(h, v, vecinos.last()) {
            b.push(vecinos.last())
        } else {
            b
        }
    }
}

/// La regla de cada punto de vértice.
pub open spec fn punto_de_vertice(
    h: Seq<((u32, u32), u32)>,
    v: u32,
    vecinos: Seq<u32>,
    p: PuntoNuevo,
) -> bool {
    let b = bordes_de(h, v, vecinos);
    let caras = caras_de_vertice(h, v as int);
    if b.len() == 2 {
        p == PuntoNuevo::DeVerticeBorde { v, w0: b[0], w1: b[1] }
    } else if b.len() > 0 || vecinos.len() < 3 || caras.len() == 0 {
        p == PuntoNuevo::DeVerticeFijo(v)
    } else {
        p matches PuntoNuevo::DeVerticeInterior { v: vv, caras: cs, vecinos: vs } && vv == v
            && cs@ == caras && vs@ == vecinos
    }
}

/// Los vecinos en orden creciente del vértice: los de la adyacencia.
pub open spec fn vecinos_ordenados(h: Seq<((u32, u32), u32)>, v: int, s: Seq<u32>) -> bool {
    creciente_u32(s) && s.to_set() == vecinos_de(h, v)
}

/// Los vecinos de `v` en orden creciente.
pub open spec fn vecinos_en_orden(h: Seq<((u32, u32), u32)>, v: int) -> Seq<u32> {
    choose|s: Seq<u32>| vecinos_ordenados(h, v, s)
}

/// Dos secuencias crecientes con los mismos elementos son la misma.
proof fn lema_creciente_unica(a: Seq<u32>, b: Seq<u32>)
    requires
        creciente_u32(a),
        creciente_u32(b),
        a.to_set() == b.to_set(),
    ensures
        a == b,
    decreases a.len() + b.len(),
{
    if a.len() == 0 {
        if b.len() > 0 {
            assert(b.to_set().contains(b[0]));
            assert(a.to_set().contains(b[0]));
        }
        assert(a =~= b);
    } else if b.len() == 0 {
        assert(a.to_set().contains(a[0]));
        assert(b.to_set().contains(a[0]));
    } else {
        // el primero de cada una es el mínimo del conjunto
        assert(a.to_set().contains(a[0]));
        assert(b.to_set().contains(b[0]));
        assert(b.to_set().contains(a[0]));
        assert(a.to_set().contains(b[0]));
        let i = choose|i: int| 0 <= i < b.len() && b[i] == a[0];
        let j = choose|j: int| 0 <= j < a.len() && a[j] == b[0];
        if i > 0 {
            assert(b[0] < b[i]);
        }
        if j > 0 {
            assert(a[0] < a[j]);
        }
        assert(a[0] == b[0]);
        let a1 = a.drop_first();
        let b1 = b.drop_first();
        assert forall|x: u32| a1.to_set().contains(x) <==> b1.to_set().contains(x) by {
            if a1.to_set().contains(x) {
                let k = choose|k: int| 0 <= k < a1.len() && a1[k] == x;
                assert(a[k + 1] == x);
                assert(a[0] < x);
                assert(a.to_set().contains(x));
                let q = choose|q: int| 0 <= q < b.len() && b[q] == x;
                assert(q != 0);
                assert(b1[q - 1] == x);
            }
            if b1.to_set().contains(x) {
                let k = choose|k: int| 0 <= k < b1.len() && b1[k] == x;
                assert(b[k + 1] == x);
                assert(b[0] < x);
                assert(b.to_set().contains(x));
                let q = choose|q: int| 0 <= q < a.len() && a[q] == x;
                assert(q != 0);
                assert(a1[q - 1] == x);
            }
        }
        assert(a1.to_set() =~= b1.to_set());
        lema_creciente_unica(a1, b1);
        assert(a =~= seq![a[0]] + a1);
        assert(b =~= seq![b[0]] + b1);
    }
}

/// Si hay unos vecinos ordenados, son los de `vecinos_en_orden`.
proof fn lema_vecinos_en_orden(h: Seq<((u32, u32), u32)>, v: int, s: Seq<u32>)
    requires
        vecinos_ordenados(h, v, s),
    ensures
        vecinos_en_orden(h, v) == s,
{
    let t = vecinos_en_orden(h, v);
    assert(vecinos_ordenados(h, v, t));
    lema_creciente_unica(t, s);
}

/// Un nivel de subdivisión bien hecho.
pub open spec fn subdivision_de(m: &Mesh, r: &Subdivision) -> bool {
    let h = medias_con_cara(m.caras());
    let l = aristas_en_orden(h);
    let nf = m.faces@.len() as int;
    let ne = l.len() as int;
    let nv = m.positions@.len() as int;
    &&& r.puntos@.len() == nf + ne + nv
    &&& forall|i: int| 0 <= i < nf ==> #[trigger] r.puntos@[i] == PuntoNuevo::DeCara(i as u32)
    &&& forall|t: int| 0 <= t < ne ==> punto_de_arista(h, l[t], #[trigger] r.puntos@[nf + t])
    &&& forall|v: int|
        0 <= v < nv ==> punto_de_vertice(h, v as u32, vecinos_en_orden(h, v), #[trigger] r.puntos@[nf + ne + v])
    &&& bucles(r.faces@) == quads(m.caras(), l, nf, ne)
    &&& r.prov.face_origin@ == prov_quads(m.caras(), m.prov.face_origin@)
}

proof fn lema_clave_inyectiva(a: u32, b: u32, c: u32, d: u32)
    requires
        a <= b,
        c <= d,
        clave_arista(a, b) == clave_arista(c, d),
    ensures
        a == c && b == d,
{
    assert(a as int * 0x1_0000_0000 + b as int == c as int * 0x1_0000_0000 + d as int);
    assert(a == c && b == d) by (nonlinear_arith)
        requires
            a as int * 0x1_0000_0000 + b as int == c as int * 0x1_0000_0000 + d as int,
            0 <= a < 0x1_0000_0000,
            0 <= b < 0x1_0000_0000,
            0 <= c < 0x1_0000_0000,
            0 <= d < 0x1_0000_0000,
    ;
}

/// Toda media arista tiene entrada en el mapa de aristas.
proof fn lema_mapa_contiene(h: Seq<((u32, u32), u32)>, i: int)
    requires
        0 <= i < h.len(),
    ensures
        mapa_aristas(h).contains_key(clave_arista(h[i].0.0, h[i].0.1)),
    decreases h.len(),
{
    if i < h.len() - 1 {
        lema_mapa_contiene(h.drop_last(), i);
        assert(h.drop_last()[i] == h[i]);
    }
}

/// Toda arista de la lista viene de alguna media arista.
proof fn lema_aristas_vienen_de(h: Seq<((u32, u32), u32)>)
    ensures
        forall|t: int| 0 <= t < aristas_en_orden(h).len() ==> exists|i: int|
            0 <= i < h.len() && sin_orientar(h[i].0) == #[trigger] aristas_en_orden(h)[t],
        forall|t: int| 0 <= t < aristas_en_orden(h).len() ==> (#[trigger] aristas_en_orden(h)[t]).0
            <= aristas_en_orden(h)[t].1,
    decreases h.len(),
{
    if h.len() > 0 {
        let p = h.drop_last();
        lema_aristas_vienen_de(p);
        assert forall|t: int| 0 <= t < aristas_en_orden(h).len() implies exists|i: int|
            0 <= i < h.len() && sin_orientar(h[i].0) == #[trigger] aristas_en_orden(h)[t] by {
            if t < aristas_en_orden(p).len() {
                let i = choose|i: int| 0 <= i < p.len() && sin_orientar(p[i].0) == aristas_en_orden(p)[t];
                assert(h[i] == p[i]);
            } else {
                assert(sin_orientar(h[h.len() - 1].0) == aristas_en_orden(h)[t]);
            }
        }
    }
}

proof fn lema_posicion(s: Seq<(u32, u32)>, e: (u32, u32))
    ensures
        s.contains(e) ==> 0 <= posicion(s, e) < s.len() && s[posicion(s, e)] == e,
        !s.contains(e) ==> posicion(s, e) == s.len(),
    decreases s.len(),
{
    if s.len() > 0 {
        lema_posicion(s.drop_first(), e);
        if s[0] != e {
            if s.contains(e) {
                let j = choose|j: int| 0 <= j < s.len() && s[j] == e;
                assert(s.drop_first()[j - 1] == e);
            }
            if s.drop_first().contains(e) {
                let j = choose|j: int| 0 <= j < s.drop_first().len() && s.drop_first()[j] == e;
                assert(s[j + 1] == e);
            }
        }
    }
}

proof fn lema_posicion_unica(s: Seq<(u32, u32)>, t: int)
    requires
        0 <= t < s.len(),
        forall|a: int, b: int| 0 <= a < b < s.len() ==> s[a] != s[b],
    ensures
        posicion(s, s[t]) == t,
    decreases s.len(),
{
    if t > 0 {
        assert(s[0] != s[t]);
        assert(s.drop_first()[t - 1] == s[t]);
        lema_posicion_unica(s.drop_first(), t - 1);
    }
}

proof fn lema_aristas_distintas(h: Seq<((u32, u32), u32)>)
    ensures
        forall|a: int, b: int|
            0 <= a < b < aristas_en_orden(h).len() ==> aristas_en_orden(h)[a] != aristas_en_orden(h)[b],
    decreases h.len(),
{
    if h.len() > 0 {
        lema_aristas_distintas(h.drop_last());
        let p = aristas_en_orden(h.drop_last());
        assert forall|a: int, b: int|
            0 <= a < b < aristas_en_orden(h).len() implies aristas_en_orden(h)[a] != aristas_en_orden(h)[b] by {
            if b >= p.len() {
                assert(!p.contains(aristas_en_orden(h)[b]));
                assert(p[a] == aristas_en_orden(h)[a]);
            }
        }
    }
}

/// La lista de aristas en orden de aparición, con la posición de cada una
/// por su clave.
fn lista_de_aristas(h: &Vec<((u32, u32), u32)>) -> (r: (Vec<(u32, u32)>, HashMap<u64, u32>))
    requires
        h@.len() < u32::MAX,
    ensures
        r.0@ == aristas_en_orden(h@),
        forall|t: int| 0 <= t < r.0@.len() ==> (#[trigger] r.0@[t]).0 <= r.0@[t].1,
        forall|a: int, b: int| 0 <= a < b < r.0@.len() ==> r.0@[a] != r.0@[b],
        forall|k: u64| #[trigger] r.1@.contains_key(k) <==> exists|t: int|
            0 <= t < r.0@.len() && k == clave_arista(r.0@[t].0, r.0@[t].1),
        forall|t: int| 0 <= t < r.0@.len() ==> r.1@[clave_arista((#[trigger] r.0@[t]).0, r.0@[t].1)]
            == t,
{
    let ghost hs = h@;
    let mut lista: Vec<(u32, u32)> = Vec::new();
    let mut indice: HashMap<u64, u32> = HashMap::new();
    let mut j: usize = 0;
    assert(hs.take(0) =~= Seq::<((u32, u32), u32)>::empty());
    while j < h.len()
        invariant
            hs == h@,
            hs.len() < u32::MAX,
            j <= hs.len(),
            lista@ == aristas_en_orden(hs.take(j as int)),
            forall|t: int| 0 <= t < lista@.len() ==> (#[trigger] lista@[t]).0 <= lista@[t].1,
            forall|a: int, b: int| 0 <= a < b < lista@.len() ==> lista@[a] != lista@[b],
            lista@.len() <= j,
            forall|k: u64| #[trigger] indice@.contains_key(k) <==> exists|t: int|
                0 <= t < lista@.len() && k == clave_arista(lista@[t].0, lista@[t].1),
            forall|t: int| 0 <= t < lista@.len() ==> indice@[clave_arista(
                (#[trigger] lista@[t]).0,
                lista@[t].1,
            )] == t,
        decreases hs.len() - j,
    {
        let ((a, b), _) = h[j];
        let e = if a <= b { (a, b) } else { (b, a) };
        let k = clave(e.0, e.1);
        let ghost pre = hs.take(j as int);
        proof {
            assert(hs.take(j + 1).drop_last() =~= pre);
            assert(hs.take(j + 1).last() == hs[j as int]);
            assert(e == sin_orientar(hs[j as int].0));
        }
        match indice.get(&k) {
            Some(_) => {
                proof {
                    let t = choose|t: int| 0 <= t < lista@.len() && k == clave_arista(lista@[t].0, lista@[t].1);
                    lema_clave_inyectiva(e.0, e.1, lista@[t].0, lista@[t].1);
                    assert(lista@.contains(e));
                }
            },
            None => {
                proof {
                    if lista@.contains(e) {
                        let t = choose|t: int| 0 <= t < lista@.len() && lista@[t] == e;
                        assert(indice@.contains_key(clave_arista(lista@[t].0, lista@[t].1)));
                    }
                }
                let pos = lista.len() as u32;
                let ghost antes = lista@;
                lista.push(e);
                indice.insert(k, pos);
                proof {
                    assert forall|t: int| 0 <= t < lista@.len() implies indice@[clave_arista(
                        (#[trigger] lista@[t]).0,
                        lista@[t].1,
                    )] == t by {
                        if t < antes.len() {
                            if clave_arista(lista@[t].0, lista@[t].1) == k {
                                lema_clave_inyectiva(e.0, e.1, lista@[t].0, lista@[t].1);
                            }
                        }
                    }
                    assert forall|kk: u64| #[trigger] indice@.contains_key(kk) <==> exists|t: int|
                        0 <= t < lista@.len() && kk == clave_arista(lista@[t].0, lista@[t].1) by {
                        if indice@.contains_key(kk) && kk != k {
                            let t = choose|t: int| 0 <= t < antes.len() && kk == clave_arista(antes[t].0, antes[t].1);
                            assert(lista@[t] == antes[t]);
                        }
                        if kk == k {
                            assert(lista@[antes.len() as int] == e);
                        }
                    }
                }
            },
        }
        j = j + 1;
    }
    assert(hs.take(hs.len() as int) =~= hs);
    (lista, indice)
}

/// Los puntos de arista, en el orden de la lista.
fn puntos_de_arista(ady: &Adjacency, lista: &Vec<(u32, u32)>, hs: Ghost<Seq<((u32, u32), u32)>>) -> (r: Vec<PuntoNuevo>)
    requires
        lista@ == aristas_en_orden(hs@),
        ady.edge_faces@.dom() == mapa_aristas(hs@).dom(),
        forall|k: u64| #[trigger]
            ady.edge_faces@.contains_key(k) ==> ady.edge_faces@[k]@ == mapa_aristas(hs@)[k],
    ensures
        r@.len() == lista@.len(),
        forall|q: int| 0 <= q < lista@.len() ==> punto_de_arista(hs@, lista@[q], #[trigger] r@[q]),
{
    let ghost l = lista@;
    proof {
        lema_aristas_vienen_de(hs@);
    }
    let mut out: Vec<PuntoNuevo> = Vec::new();
    let mut t: usize = 0;
    while t < lista.len()
        invariant
            l == lista@,
            l == aristas_en_orden(hs@),
            ady.edge_faces@.dom() == mapa_aristas(hs@).dom(),
            forall|k: u64| #[trigger]
                ady.edge_faces@.contains_key(k) ==> ady.edge_faces@[k]@ == mapa_aristas(hs@)[k],
            forall|q: int| 0 <= q < l.len() ==> exists|i: int|
                0 <= i < hs@.len() && sin_orientar(hs@[i].0) == #[trigger] l[q],
            t <= l.len(),
            out@.len() == t,
            forall|q: int| 0 <= q < t ==> punto_de_arista(hs@, l[q], #[trigger] out@[q]),
        decreases l.len() - t,
    {
        let (a, b) = lista[t];
        let k = clave(a, b);
        proof {
            let i = choose|i: int| 0 <= i < hs@.len() && sin_orientar(hs@[i].0) == l[t as int];
            lema_mapa_contiene(hs@, i);
            assert(clave_arista(hs@[i].0.0, hs@[i].0.1) == clave_arista(a, b));
        }
        let p = match ady.edge_faces.get(&k) {
            Some(cs) => {
                if cs.len() == 2 {
                    PuntoNuevo::DeAristaInterior { a, b, f0: cs[0], f1: cs[1] }
                } else {
                    PuntoNuevo::DeAristaBorde { a, b }
                }
            },
            None => PuntoNuevo::DeAristaBorde { a, b },
        };
        out.push(p);
        t = t + 1;
    }
    out
}

/// Los puntos de vértice, uno por posición.
fn puntos_de_vertice(ady: &Adjacency, nv: usize, hs: Ghost<Seq<((u32, u32), u32)>>) -> (r: Vec<PuntoNuevo>)
    requires
        nv < u32::MAX,
        ady.edge_faces@.dom() == mapa_aristas(hs@).dom(),
        forall|k: u64| #[trigger]
            ady.edge_faces@.contains_key(k) ==> ady.edge_faces@[k]@ == mapa_aristas(hs@)[k],
        ady.vertex_faces@.len() == nv,
        forall|w: int| 0 <= w < nv ==> (#[trigger] ady.vertex_faces@[w])@ == caras_de_vertice(hs@, w),
        ady.vertex_neighbors@.len() == nv,
        forall|w: int| 0 <= w < nv ==> creciente_u32((#[trigger] ady.vertex_neighbors@[w])@)
            && ady.vertex_neighbors@[w]@.to_set() == vecinos_de(hs@, w),
    ensures
        r@.len() == nv,
        forall|w: int|
            0 <= w < nv ==> punto_de_vertice(hs@, w as u32, vecinos_en_orden(hs@, w), #[trigger] r@[w]),
{
    let mut out: Vec<PuntoNuevo> = Vec::new();
    let mut v: usize = 0;
    while v < nv
        invariant
            nv < u32::MAX,
            ady.edge_faces@.dom() == mapa_aristas(hs@).dom(),
            forall|k: u64| #[trigger]
                ady.edge_faces@.contains_key(k) ==> ady.edge_faces@[k]@ == mapa_aristas(hs@)[k],
            ady.vertex_faces@.len() == nv,
            forall|w: int| 0 <= w < nv ==> (#[trigger] ady.vertex_faces@[w])@ == caras_de_vertice(hs@, w),
            ady.vertex_neighbors@.len() == nv,
            forall|w: int| 0 <= w < nv ==> creciente_u32((#[trigger] ady.vertex_neighbors@[w])@)
                && ady.vertex_neighbors@[w]@.to_set() == vecinos_de(hs@, w),
            v <= nv,
            out@.len() == v,
            forall|w: int|
                0 <= w < v ==> punto_de_vertice(hs@, w as u32, vecinos_en_orden(hs@, w), #[trigger] out@[w]),
        decreases nv - v,
    {
        let vu = v as u32;
        let vecinos = &ady.vertex_neighbors[v];
        let mut bordes: Vec<u32> = Vec::new();
        let mut q: usize = 0;
        assert(vecinos@.take(0) =~= Seq::<u32>::empty());
        while q < vecinos.len()
            invariant
                q <= vecinos@.len(),
                ady.edge_faces@.dom() == mapa_aristas(hs@).dom(),
                forall|k: u64| #[trigger]
                    ady.edge_faces@.contains_key(k) ==> ady.edge_faces@[k]@ == mapa_aristas(hs@)[k],
                bordes@ == bordes_de(hs@, vu, vecinos@.take(q as int)),
            decreases vecinos@.len() - q,
        {
            let w = vecinos[q];
            proof {
                assert(vecinos@.take(q + 1).drop_last() =~= vecinos@.take(q as int));
                assert(vecinos@.take(q + 1).last() == w);
            }
            if ady.es_borde(vu, w) {
                bordes.push(w);
            }
            q = q + 1;
        }
        assert(vecinos@.take(vecinos@.len() as int) =~= vecinos@);
        let caras = &ady.vertex_faces[v];
        let p = if bordes.len() == 2 {
            PuntoNuevo::DeVerticeBorde { v: vu, w0: bordes[0], w1: bordes[1] }
        } else if bordes.len() > 0 || vecinos.len() < 3 || caras.len() == 0 {
            PuntoNuevo::DeVerticeFijo(vu)
        } else {
            PuntoNuevo::DeVerticeInterior {
                v: vu,
                caras: crate::mesh::copia_vec(caras),
                vecinos: crate::mesh::copia_vec(vecinos),
            }
        };
        let ghost ant = out@;
        out.push(p);
        proof {
            assert(vu as int == v);
            assert(vecinos_ordenados(hs@, v as int, vecinos@));
            lema_vecinos_en_orden(hs@, v as int, vecinos@);
            assert(punto_de_vertice(hs@, v as u32, vecinos@, out@[v as int]));
            assert forall|w: int|
                0 <= w < v + 1 implies punto_de_vertice(hs@, w as u32, vecinos_en_orden(hs@, w), #[trigger] out@[w]) by {
                if w < v {
                    assert(out@[w] == ant[w]);
                }
            }
        }
        v = v + 1;
    }
    out
}

/// Los cuadriláteros y su procedencia.
fn cuadrilateros(
    m: &Mesh,
    lista: &Vec<(u32, u32)>,
    indice: &HashMap<u64, u32>,
    ne: usize,
) -> (r: (Vec<Face>, Vec<Option<StableId>>))
    requires
        lista@ == aristas_en_orden(medias_con_cara(m.caras())),
        ne == lista@.len(),
        m.faces@.len() + ne + m.positions@.len() < u32::MAX,
        indices_en_rango(m),
        forall|k: u64| #[trigger] indice@.contains_key(k) <==> exists|t: int|
            0 <= t < lista@.len() && k == clave_arista(lista@[t].0, lista@[t].1),
        forall|t: int| 0 <= t < lista@.len() ==> indice@[clave_arista((#[trigger] lista@[t]).0, lista@[t].1)] == t,
        forall|a: int, b: int| 0 <= a < b < lista@.len() ==> lista@[a] != lista@[b],
    ensures
        bucles(r.0@) == quads(m.caras(), lista@, m.faces@.len() as int, ne as int),
        r.1@ == prov_quads(m.caras(), m.prov.face_origin@),
{
    let nf = m.faces.len();
    let mut faces: Vec<Face> = Vec::new();
    let mut prov: Vec<Option<StableId>> = Vec::new();
    let ghost c = m.caras();
    let ghost l = lista@;
    let mut fi: usize = 0;
    assert(c.take(0) =~= Seq::<Seq<u32>>::empty());
    assert(bucles(faces@) =~= Seq::<Seq<u32>>::empty());
    assert(c.len() == nf);
    while fi < nf
        invariant
            c == m.caras(),
            c.len() == nf,
            nf == m.faces@.len(),
            l == lista@,
            l == aristas_en_orden(medias_con_cara(c)),
            ne == l.len(),
            nf + ne + m.positions@.len() < u32::MAX,
            indices_en_rango(m),
            forall|k: u64| #[trigger] indice@.contains_key(k) <==> exists|t: int|
                0 <= t < l.len() && k == clave_arista(l[t].0, l[t].1),
            forall|t: int| 0 <= t < l.len() ==> indice@[clave_arista((#[trigger] l[t]).0, l[t].1)] == t,
            forall|a: int, b: int| 0 <= a < b < l.len() ==> l[a] != l[b],
            fi <= nf,
            bucles(faces@) == quads(c.take(fi as int), l, nf as int, ne as int),
            prov@ == prov_quads(c.take(fi as int), m.prov.face_origin@),
        decreases nf - fi,
    {
        let f = &m.faces[fi].verts;
        let n = f.len();
        let ghost q0 = bucles(faces@);
        let ghost p0 = prov@;
        let origen = if fi < m.prov.face_origin.len() {
            m.prov.face_origin[fi]
        } else {
            None
        };
        let ghost nuevas = quads_de_cara(f@, fi as int, l, nf as int, ne as int);
        proof {
            assert(c[fi as int] == f@);
        }
        let mut i: usize = 0;
        assert(nuevas.take(0) =~= Seq::<Seq<u32>>::empty());
        while i < n
            invariant
                n == f@.len(),
                f@ == c[fi as int],
                c == m.caras(),
                c.len() == nf,
                fi < nf,
                nf == m.faces@.len(),
                l == aristas_en_orden(medias_con_cara(c)),
                ne == l.len(),
                nf + ne + m.positions@.len() < u32::MAX,
                indices_en_rango(m),
                forall|k: u64| #[trigger] indice@.contains_key(k) <==> exists|t: int|
                    0 <= t < l.len() && k == clave_arista(l[t].0, l[t].1),
                forall|t: int| 0 <= t < l.len() ==> indice@[clave_arista((#[trigger] l[t]).0, l[t].1)] == t,
                forall|a: int, b: int| 0 <= a < b < l.len() ==> l[a] != l[b],
                i <= n,
                nuevas == quads_de_cara(f@, fi as int, l, nf as int, ne as int),
                bucles(faces@) == q0 + nuevas.take(i as int),
                prov@ == p0 + Seq::new(i as nat, |k: int| origen),
            decreases n - i,
        {
            let sig = (i + 1) % n;
            let ant = if i == 0 { n - 1 } else { i - 1 };
            proof {
                assert(ant as int == (i + n - 1) % (n as int)) by (nonlinear_arith)
                    requires
                        i < n,
                        ant == (if i == 0 { n - 1 } else { i - 1 }),
                ;
                lema_media_en_lista(c, fi as int, i as int);
                lema_media_en_lista(c, fi as int, ant as int);
                assert((ant + 1) % (n as int) == i as int) by (nonlinear_arith)
                    requires
                        i < n,
                        ant == (if i == 0 { n - 1 } else { i - 1 }),
                ;
                assert(m.faces@[fi as int].verts@ == f@);
                assert(f@[i as int] < m.positions@.len());
            }
            let t1 = posicion_de_arista(indice, Ghost(l), f[i], f[sig]);
            let t2 = posicion_de_arista(indice, Ghost(l), f[ant], f[i]);
            proof {
                lema_posicion(l, sin_orientar((f@[i as int], f@[sig as int])));
                lema_posicion(l, sin_orientar((f@[ant as int], f@[i as int])));
            }
            let quad = vec![
                (nf + ne) as u32 + f[i],
                nf as u32 + t1,
                fi as u32,
                nf as u32 + t2,
            ];
            let ghost antes = faces@;
            faces.push(Face { verts: quad });
            prov.push(origen);
            proof {
                assert(quad@ =~= nuevas[i as int]);
                assert(bucles(faces@) =~= bucles(antes).push(quad@));
                assert(nuevas.take(i + 1) =~= nuevas.take(i as int).push(nuevas[i as int]));
            }
            i = i + 1;
            assert(prov@ =~= p0 + Seq::new(i as nat, |k: int| origen));
        }
        proof {
            assert(nuevas.take(n as int) =~= nuevas);
            assert(c.take(fi + 1).drop_last() =~= c.take(fi as int));
            assert(c.take(fi + 1).last() == f@);
            assert(origen == origen_de(m.prov.face_origin@, fi as int));
            assert(Seq::new(n as nat, |k: int| origen) =~= Seq::new(
                c.take(fi + 1).last().len(),
                |k: int| origen_de(m.prov.face_origin@, c.take(fi + 1).len() - 1),
            ));
        }
        fi = fi + 1;
    }
    assert(c.take(nf as int) =~= c);
    (faces, prov)
}

/// Un nivel de subdivisión: la topología y la regla de cada punto nuevo.
pub fn subdividir_topologia(m: &Mesh) -> (r: Subdivision)
    requires
        indices_en_rango(m),
        m.faces@.len() + total_vertices(m.caras()) + m.positions@.len() < u32::MAX,
    ensures
        subdivision_de(m, &r),
{
    let ady = Adjacency::build(m);
    let h = crate::adyacencia::medias_con_cara_exec(m);
    let ghost hs = h@;
    let nf = m.faces.len();
    let nv = m.positions.len();
    proof {
        lema_total_medias(m.caras());
    }
    let mut puntos: Vec<PuntoNuevo> = Vec::new();
    let mut i: usize = 0;
    while i < nf
        invariant
            nf == m.faces@.len(),
            nf < u32::MAX,
            i <= nf,
            puntos@.len() == i,
            forall|k: int| 0 <= k < i ==> #[trigger] puntos@[k] == PuntoNuevo::DeCara(k as u32),
        decreases nf - i,
    {
        puntos.push(PuntoNuevo::DeCara(i as u32));
        i = i + 1;
    }
    let ghost pc = puntos@;
    let (lista, indice) = lista_de_aristas(&h);
    let ne = lista.len();
    proof {
        lema_aristas_distintas(hs);
        lema_aristas_cuenta(hs);
    }
    let mut pa = puntos_de_arista(&ady, &lista, Ghost(hs));
    let ghost pav = pa@;
    let mut pv = puntos_de_vertice(&ady, nv, Ghost(hs));
    let ghost pvv = pv@;
    puntos.append(&mut pa);
    puntos.append(&mut pv);
    let (faces, prov) = cuadrilateros(m, &lista, &indice, ne);
    proof {
        let l = lista@;
        assert forall|t: int| 0 <= t < ne implies punto_de_arista(hs, l[t], #[trigger] puntos@[nf + t]) by {
            assert(puntos@[nf + t] == pav[t]);
        }
        assert forall|v: int|
            0 <= v < nv implies punto_de_vertice(hs, v as u32, vecinos_en_orden(hs, v), #[trigger] puntos@[nf + ne + v]) by {
            assert(puntos@[nf + ne + v] == pvv[v]);
        }
        assert forall|k: int| 0 <= k < nf implies #[trigger] puntos@[k] == PuntoNuevo::DeCara(k as u32) by {
            assert(puntos@[k] == pc[k]);
        }
    }
    Subdivision { puntos, faces, prov: ProvenanceMap { face_origin: prov } }
}

/// Hay como mucho tantas aristas como medias aristas.
proof fn lema_aristas_cuenta(h: Seq<((u32, u32), u32)>)
    ensures
        aristas_en_orden(h).len() <= h.len(),
    decreases h.len(),
{
    if h.len() > 0 {
        lema_aristas_cuenta(h.drop_last());
    }
}

/// La posición de la arista `(a, b)` en la lista, por su clave.
fn posicion_de_arista(indice: &HashMap<u64, u32>, l: Ghost<Seq<(u32, u32)>>, a: u32, b: u32) -> (r: u32)
    requires
        l@.contains(sin_orientar((a, b))),
        forall|k: u64| #[trigger] indice@.contains_key(k) <==> exists|t: int|
            0 <= t < l@.len() && k == clave_arista(l@[t].0, l@[t].1),
        forall|t: int| 0 <= t < l@.len() ==> indice@[clave_arista((#[trigger] l@[t]).0, l@[t].1)] == t,
        forall|x: int, y: int| 0 <= x < y < l@.len() ==> l@[x] != l@[y],
    ensures
        r == posicion(l@, sin_orientar((a, b))),
{
    let k = clave(a, b);
    let ghost e = sin_orientar((a, b));
    proof {
        let t = choose|t: int| 0 <= t < l@.len() && l@[t] == e;
        assert(clave_arista(l@[t].0, l@[t].1) == k);
        lema_posicion_unica(l@, t);
    }
    match indice.get(&k) {
        Some(t) => *t,
        None => 0,
    }
}

/// Cada media arista de una cara está en la lista de aristas.
proof fn lema_media_en_lista(c: Seq<Seq<u32>>, fi: int, i: int)
    requires
        0 <= fi < c.len(),
        0 <= i < c[fi].len(),
    ensures
        aristas_en_orden(medias_con_cara(c)).contains(sin_orientar(medias_de_bucle(c[fi])[i])),
    decreases c.len(),
{
    let h = medias_con_cara(c);
    lema_media_esta(c, fi, i);
    let j = choose|j: int| 0 <= j < h.len() && h[j].0 == medias_de_bucle(c[fi])[i];
    lema_arista_de_media(h, j);
}

proof fn lema_media_esta(c: Seq<Seq<u32>>, fi: int, i: int)
    requires
        0 <= fi < c.len(),
        0 <= i < c[fi].len(),
    ensures
        exists|j: int| 0 <= j < medias_con_cara(c).len() && (#[trigger] medias_con_cara(c)[j]).0 == medias_de_bucle(c[fi])[i],
    decreases c.len(),
{
    let h0 = medias_con_cara(c.drop_last());
    if fi < c.len() - 1 {
        lema_media_esta(c.drop_last(), fi, i);
        let j = choose|j: int| 0 <= j < h0.len() && (#[trigger] h0[j]).0 == medias_de_bucle(c.drop_last()[fi])[i];
        assert(medias_con_cara(c)[j] == h0[j]);
        assert(c.drop_last()[fi] == c[fi]);
    } else {
        let j = h0.len() + i;
        assert(medias_con_cara(c)[j].0 == medias_de_bucle(c.last())[i]);
    }
}

proof fn lema_arista_de_media(h: Seq<((u32, u32), u32)>, j: int)
    requires
        0 <= j < h.len(),
    ensures
        aristas_en_orden(h).contains(sin_orientar(h[j].0)),
    decreases h.len(),
{
    let p = h.drop_last();
    if j < h.len() - 1 {
        lema_arista_de_media(p, j);
        assert(p[j] == h[j]);
        let t = choose|t: int| 0 <= t < aristas_en_orden(p).len() && aristas_en_orden(p)[t] == sin_orientar(p[j].0);
        assert(aristas_en_orden(h)[t] == sin_orientar(h[j].0));
    } else {
        let e = sin_orientar(h.last().0);
        if aristas_en_orden(p).contains(e) {
        } else {
            assert(aristas_en_orden(h)[aristas_en_orden(p).len() as int] == e);
        }
    }
}

proof fn lema_total_medias(c: Seq<Seq<u32>>)
    ensures
        medias_con_cara(c).len() == total_vertices(c),
    decreases c.len(),
{
    if c.len() > 0 {
        lema_total_medias(c.drop_last());
    }
}


/// Las medias aristas de las caras, sin la cara de cada una.
proof fn lema_primeras(c: Seq<Seq<u32>>)
    ensures
        Seq::new(medias_con_cara(c).len(), |i: int| medias_con_cara(c)[i].0) == medias(c),
    decreases c.len(),
{
    if c.len() > 0 {
        lema_primeras(c.drop_last());
        assert(Seq::new(medias_con_cara(c).len(), |i: int| medias_con_cara(c)[i].0) =~= medias(c));
    }
}

/// Las aristas en orden son las aristas sin orientar de las medias aristas.
proof fn lema_conjunto_de_aristas(h: Seq<((u32, u32), u32)>)
    ensures
        aristas_en_orden(h).to_set() == sin_orientar_todas(Seq::new(h.len(), |i: int| h[i].0)).to_set(),
    decreases h.len(),
{
    let s = Seq::new(h.len(), |i: int| h[i].0);
    if h.len() == 0 {
        assert(sin_orientar_todas(s) =~= Seq::<(u32, u32)>::empty());
        assert(aristas_en_orden(h).to_set() =~= Set::<(u32, u32)>::empty());
        assert(sin_orientar_todas(s).to_set() =~= Set::<(u32, u32)>::empty());
    } else {
        let p = h.drop_last();
        lema_conjunto_de_aristas(p);
        let sp = Seq::new(p.len(), |i: int| p[i].0);
        let e = sin_orientar(h.last().0);
        assert(sin_orientar_todas(s) =~= sin_orientar_todas(sp).push(e));
        assert(sp =~= Seq::new(p.len(), |i: int| p[i].0));
        sin_orientar_todas(sp).lemma_push_to_set_commute(e);
        aristas_en_orden(p).lemma_push_to_set_commute(e);
        if aristas_en_orden(p).contains(e) {
            assert(aristas_en_orden(p).to_set().contains(e));
            assert(aristas_en_orden(p).to_set().insert(e) =~= aristas_en_orden(p).to_set());
        }
    }
}

/// Un nivel de subdivisión tiene un punto por cara, uno por arista y uno por
/// vértice de la malla original: V' = F + E + V.
pub proof fn ley_vertices_de_subdivision(m: &Mesh, r: &Subdivision)
    requires
        subdivision_de(m, r),
    ensures
        r.puntos@.len() == m.faces@.len() + aristas(m.caras()).len() + m.positions@.len(),
{
    let h = medias_con_cara(m.caras());
    lema_primeras(m.caras());
    lema_conjunto_de_aristas(h);
    lema_aristas_distintas(h);
    aristas_en_orden(h).unique_seq_to_set();
}

} // verus!
