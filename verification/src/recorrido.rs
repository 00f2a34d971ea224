//! Recorrido en anchura del grafo de dependencias.
//!
//! Los vecinos de cada activo salen de una consulta al índice, que es E/S: el
//! recorrido es una máquina de pasos. Quien la usa pregunta qué activo toca
//! ([`Recorrido::pendiente`]), consulta sus vecinos y se los da
//! ([`Recorrido::visitar`]). Lleva el conjunto de visitados, así que termina
//! aunque el grafo almacenado tenga un ciclo.

use vstd::prelude::*;

use crate::activos::AssetId;

verus! {

/// Los elementos de `l` que no están en `vs` ni se repiten, en su orden,
/// añadidos al final de `vs`.
pub open spec fn anadir_nuevos(vs: Seq<AssetId>, l: Seq<AssetId>) -> Seq<AssetId>
    decreases l.len(),
{
    if l.len() == 0 {
        vs
    } else {
        let previo = anadir_nuevos(vs, l.drop_last());
        if previo.contains(l.last()) {
            previo
        } else {
            previo.push(l.last())
        }
    }
}

pub open spec fn sin_repetidos(s: Seq<AssetId>) -> bool {
    forall|i: int, j: int| 0 <= i < j < s.len() ==> s[i] != s[j]
}

/// Un recorrido en marcha.
pub struct Recorrido {
    /// Los activos descubiertos, en orden de descubrimiento; el primero es el
    /// origen. Los que quedan desde `frente` son la cola.
    vistos: Vec<AssetId>,
    frente: usize,
    /// Los vecinos dados para cada activo ya procesado.
    respuestas: Ghost<Seq<Seq<AssetId>>>,
    /// Para cada descubierto (salvo el origen), el procesado que lo descubrió.
    padres: Ghost<Seq<int>>,
}

impl Recorrido {
    /// Los descubiertos, en orden.
    pub closed spec fn vistos(&self) -> Seq<AssetId> {
        self.vistos@
    }

    /// Cuántos se han procesado: son los primeros de `vistos`.
    pub closed spec fn procesados(&self) -> int {
        self.frente as int
    }

    /// Los vecinos dados para cada procesado.
    pub closed spec fn grafo(&self) -> Seq<Seq<AssetId>> {
        self.respuestas@
    }

    pub closed spec fn wf(&self) -> bool {
        let vs = self.vistos@;
        let rs = self.respuestas@;
        let ps = self.padres@;
        &&& vs.len() >= 1
        &&& sin_repetidos(vs)
        &&& self.frente <= vs.len()
        &&& rs.len() == self.frente
        &&& ps.len() == vs.len()
        &&& forall|i: int, k: int|
            0 <= i < rs.len() && 0 <= k < rs[i].len() ==> vs.contains(#[trigger] rs[i][k])
        &&& forall|j: int|
            1 <= j < vs.len() ==> 0 <= #[trigger] ps[j] < self.frente && ps[j] < j && rs[ps[j]].contains(vs[j])
    }

    /// Empieza en `origen`.
    pub fn new(origen: AssetId) -> (r: Recorrido)
        ensures
            r.wf(),
            r.vistos() == seq![origen],
            r.procesados() == 0,
            r.grafo() == Seq::<Seq<AssetId>>::empty(),
    {
        let ghost rs = Seq::<Seq<AssetId>>::empty();
        let ghost ps = Seq::<int>::empty().push(0);
        let r = Recorrido { vistos: vec![origen], frente: 0, respuestas: Ghost(rs), padres: Ghost(ps) };
        r
    }

    /// El siguiente activo por procesar, o `None` si el recorrido acabó.
    pub fn pendiente(&self) -> (r: Option<AssetId>)
        requires
            self.wf(),
        ensures
            self.procesados() < self.vistos().len() ==> r == Some(self.vistos()[self.procesados()]),
            self.procesados() >= self.vistos().len() ==> r is None,
    {
        if self.frente < self.vistos.len() {
            Some(self.vistos[self.frente])
        } else {
            None
        }
    }

    /// ¿Se ha descubierto ya `x`?
    pub fn ha_visto(&self, x: AssetId) -> (r: bool)
        ensures
            r == self.vistos().contains(x),
    {
        let mut i: usize = 0;
        while i < self.vistos.len()
            invariant
                i <= self.vistos@.len(),
                forall|k: int| 0 <= k < i ==> self.vistos@[k] != x,
            decreases self.vistos@.len() - i,
        {
            if self.vistos[i].0 == x.0 {
                return true;
            }
            i = i + 1;
        }
        false
    }

    /// Procesa el activo pendiente con sus vecinos: los que no se habían
    /// visto se descubren, en su orden.
    pub fn visitar(&mut self, vecinos: &Vec<AssetId>)
        requires
            old(self).wf(),
            old(self).procesados() < old(self).vistos().len(),
        ensures
            final(self).wf(),
            final(self).vistos() == anadir_nuevos(old(self).vistos(), vecinos@),
            final(self).procesados() == old(self).procesados() + 1,
            final(self).grafo() == old(self).grafo().push(vecinos@),
    {
        let n0 = self.vistos.len();
        let f = self.frente;
        assert(f < n0);
        let ghost rs = self.respuestas@.push(vecinos@);
        let ghost v0 = self.vistos@;
        let mut vs = crate::mesh::copia_vec(&self.vistos);
        let ghost mut ps = self.padres@;
        proof {
            assert forall|j: int| 1 <= j < vs@.len() implies 0 <= #[trigger] ps[j] <= f && ps[j] < j && rs[ps[j]].contains(vs@[j]) by {
                assert(rs[ps[j]] == self.respuestas@[ps[j]]);
            }
            assert(vs@.take(v0.len() as int) =~= v0);
        }
        let mut k: usize = 0;
        assert(vecinos@.take(0) =~= Seq::<AssetId>::empty());
        while k < vecinos.len()
            invariant
                k <= vecinos@.len(),
                f < v0.len(),
                rs.len() == f + 1,
                rs[f as int] == vecinos@,
                vs@ == anadir_nuevos(v0, vecinos@.take(k as int)),
                v0.len() <= vs@.len(),
                vs@.take(v0.len() as int) == v0,
                sin_repetidos(vs@),
                ps.len() == vs@.len(),
                forall|q: int| 0 <= q < k ==> vs@.contains(#[trigger] vecinos@[q]),
                forall|j: int|
                    1 <= j < vs@.len() ==> 0 <= #[trigger] ps[j] <= f && ps[j] < j && rs[ps[j]].contains(vs@[j]),
            decreases vecinos@.len() - k,
        {
            let d = vecinos[k];
            let mut esta = false;
            let mut i: usize = 0;
            while i < vs.len()
                invariant
                    i <= vs@.len(),
                    !esta ==> forall|q: int| 0 <= q < i ==> vs@[q] != d,
                    esta ==> vs@.contains(d),
                decreases vs@.len() - i,
            {
                if vs[i].0 == d.0 {
                    esta = true;
                }
                i = i + 1;
            }
            let ghost antes = vs@;
            proof {
                assert(vecinos@.take(k + 1).drop_last() =~= vecinos@.take(k as int));
                assert(vecinos@.take(k + 1).last() == d);
            }
            if !esta {
                vs.push(d);
                proof {
                    ps = ps.push(f as int);
                    assert(rs[f as int].contains(d)) by {
                        assert(vecinos@[k as int] == d);
                    }
                    assert(vs@.take(v0.len() as int) =~= antes.take(v0.len() as int));
                    assert forall|q: int| 0 <= q < k + 1 implies vs@.contains(#[trigger] vecinos@[q]) by {
                        if q < k {
                            let w = choose|w: int| 0 <= w < antes.len() && antes[w] == vecinos@[q];
                            assert(vs@[w] == vecinos@[q]);
                        } else {
                            assert(vs@[antes.len() as int] == d);
                        }
                    }
                }
            }
            k = k + 1;
        }
        assert(vecinos@.take(vecinos@.len() as int) =~= vecinos@);
        proof {
            assert forall|i: int, q: int|
                0 <= i < rs.len() && 0 <= q < rs[i].len() implies vs@.contains(#[trigger] rs[i][q]) by {
                if i < f {
                    assert(v0.contains(rs[i][q]));
                    let w = choose|w: int| 0 <= w < v0.len() && v0[w] == rs[i][q];
                    assert(vs@.take(v0.len() as int)[w] == vs@[w]);
                } else {
                    assert(vecinos@[q] == rs[i][q]);
                }
            }
        }
        self.vistos = vs;
        assert(f + 1 <= n0);
        self.frente = f + 1;
        self.respuestas = Ghost(rs);
        self.padres = Ghost(ps);
    }

    /// Los descubiertos salvo el origen, en orden creciente de id.
    pub fn descubiertos(&self) -> (r: Vec<AssetId>)
        requires
            self.wf(),
        ensures
            forall|i: int, j: int| 0 <= i < j < r@.len() ==> r@[i].0 < r@[j].0,
            r@.to_set() == self.vistos().drop_first().to_set(),
    {
        let mut out: Vec<AssetId> = Vec::new();
        let mut i: usize = 1;
        while i < self.vistos.len()
            invariant
                1 <= i <= self.vistos@.len(),
                forall|a: int, b: int| 0 <= a < b < out@.len() ==> out@[a].0 < out@[b].0,
                out@.to_set() == self.vistos@.subrange(1, i as int).to_set(),
            decreases self.vistos@.len() - i,
        {
            let x = self.vistos[i];
            let ghost antes = out@;
            // inserción en orden
            let mut p: usize = 0;
            while p < out.len() && out[p].0 < x.0
                invariant
                    p <= out@.len(),
                    out@ == antes,
                    forall|q: int| 0 <= q < p ==> out@[q].0 < x.0,
                decreases out@.len() - p,
            {
                p = p + 1;
            }
            proof {
                assert(self.vistos@.subrange(1, i + 1) =~= self.vistos@.subrange(1, i as int).push(x));
                lema_push_conjunto(self.vistos@.subrange(1, i as int), x);
            }
            if p < out.len() && out[p].0 == x.0 {
                proof {
                    assert(out@.to_set().contains(x));
                }
            } else {
                out.insert(p, x);
                proof {
                    assert(out@ =~= antes.subrange(0, p as int).push(x) + antes.subrange(p as int, antes.len() as int));
                    assert forall|a: int, b: int| 0 <= a < b < out@.len() implies out@[a].0 < out@[b].0 by {
                        if b < p {
                        } else if b == p {
                        } else if a < p {
                            assert(out@[b] == antes[b - 1]);
                            if a < p {
                                assert(antes[a].0 < x.0);
                            }
                        } else if a == p {
                            assert(out@[b] == antes[b - 1]);
                            assert(!(antes[b - 1].0 < x.0) || b - 1 < p);
                        } else {
                            assert(out@[a] == antes[a - 1] && out@[b] == antes[b - 1]);
                        }
                    }
                    assert(out@.to_set() =~= antes.to_set().insert(x)) by {
                        assert forall|y: AssetId| out@.to_set().contains(y) implies antes.to_set().insert(x).contains(y) by {
                            let w = choose|w: int| 0 <= w < out@.len() && out@[w] == y;
                            if w < p {
                                assert(antes[w] == y);
                            } else if w > p {
                                assert(antes[w - 1] == y);
                            }
                        }
                        assert forall|y: AssetId| antes.to_set().insert(x).contains(y) implies out@.to_set().contains(y) by {
                            if y == x {
                                assert(out@[p as int] == x);
                            } else {
                                let w = choose|w: int| 0 <= w < antes.len() && antes[w] == y;
                                if w < p {
                                    assert(out@[w] == y);
                                } else {
                                    assert(out@[w + 1] == y);
                                }
                            }
                        }
                    }
                }
            }
            i = i + 1;
        }
        assert(self.vistos@.subrange(1, self.vistos@.len() as int) =~= self.vistos@.drop_first());
        out
    }
}

/// `vs[j]` es vecino de algún procesado anterior a él.
pub open spec fn descubierto_desde_antes(g: Seq<Seq<AssetId>>, vs: Seq<AssetId>, procesados: int, j: int) -> bool {
    exists|i: int| 0 <= i < j && i < procesados && #[trigger] g[i].contains(vs[j])
}

/// Lo que se sabe de un recorrido en cualquier momento: nada se descubre dos
/// veces, los vecinos de todo lo procesado están descubiertos, y todo lo
/// descubierto salvo el origen es vecino de algo procesado antes que él. Al
/// acabar (todo procesado), los descubiertos son exactamente los alcanzables
/// desde el origen en el grafo de las respuestas.
pub proof fn ley_recorrido(r: &Recorrido)
    requires
        r.wf(),
    ensures
        sin_repetidos(r.vistos()),
        0 <= r.procesados() <= r.vistos().len(),
        r.grafo().len() == r.procesados(),
        forall|i: int, k: int|
            0 <= i < r.procesados() && 0 <= k < r.grafo()[i].len() ==> r.vistos().contains(
                #[trigger] r.grafo()[i][k],
            ),
        forall|j: int|
            1 <= j < r.vistos().len() ==> #[trigger] descubierto_desde_antes(r.grafo(), r.vistos(), r.procesados(), j),
{
    assert forall|j: int| 1 <= j < r.vistos().len() implies #[trigger] descubierto_desde_antes(
        r.grafo(),
        r.vistos(),
        r.procesados(),
        j,
    ) by {
        let i = r.padres@[j];
        assert(0 <= i < j && i < r.procesados());
        assert(r.grafo()[i].contains(r.vistos()[j]));
    }
}

proof fn lema_push_conjunto(s: Seq<AssetId>, x: AssetId)
    ensures
        s.push(x).to_set() == s.to_set().insert(x),
{
    assert forall|y: AssetId| s.push(x).to_set().contains(y) implies s.to_set().insert(x).contains(y) by {
        let w = choose|w: int| 0 <= w < s.push(x).len() && s.push(x)[w] == y;
        if w < s.len() {
            assert(s[w] == y);
        }
    }
    assert forall|y: AssetId| s.to_set().insert(x).contains(y) implies s.push(x).to_set().contains(y) by {
        if y == x {
            assert(s.push(x)[s.len() as int] == x);
        } else {
            let w = choose|w: int| 0 <= w < s.len() && s[w] == y;
            assert(s.push(x)[w] == y);
        }
    }
    assert(s.push(x).to_set() =~= s.to_set().insert(x));
}

} // verus!
