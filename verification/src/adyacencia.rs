//! Adyacencia derivada: se construye en `O(E)` a partir de los bucles de cara
//! y se tira. Nunca se mantiene a mano a través de una edición.

use vstd::prelude::*;
use std::collections::HashMap;

use crate::mesh::{medias_de_bucle, Mesh};

verus! {

broadcast use vstd::std_specs::hash::group_hash_axioms;

/// Las medias aristas de la malla con el índice de su cara, cara a cara y en
/// orden.
pub open spec fn medias_con_cara(c: Seq<Seq<u32>>) -> Seq<((u32, u32), u32)>
    decreases c.len(),
{
    if c.len() == 0 {
        Seq::empty()
    } else {
        let f = c.last();
        let fi = (c.len() - 1) as u32;
        medias_con_cara(c.drop_last()) + Seq::new(
            f.len(),
            |i: int| (medias_de_bucle(f)[i], fi),
        )
    }
}

/// Clave de una arista sin orientación: el menor extremo en la mitad alta.
pub open spec fn clave_arista(a: u32, b: u32) -> u64 {
    if a <= b {
        (a as int * 0x1_0000_0000 + b as int) as u64
    } else {
        (b as int * 0x1_0000_0000 + a as int) as u64
    }
}

/// Para cada arista, las caras que la recorren, en el orden en que aparecen
/// sus medias aristas.
pub open spec fn mapa_aristas(h: Seq<((u32, u32), u32)>) -> Map<u64, Seq<u32>>
    decreases h.len(),
{
    if h.len() == 0 {
        Map::empty()
    } else {
        let previo = mapa_aristas(h.drop_last());
        let ((a, b), fi) = h.last();
        let k = clave_arista(a, b);
        let lista = if previo.contains_key(k) {
            previo[k]
        } else {
            Seq::empty()
        };
        previo.insert(k, lista.push(fi))
    }
}

/// Las caras en las que nace una media arista desde `v`, en orden.
pub open spec fn caras_de_vertice(h: Seq<((u32, u32), u32)>, v: int) -> Seq<u32>
    decreases h.len(),
{
    if h.len() == 0 {
        Seq::empty()
    } else {
        let previo = caras_de_vertice(h.drop_last(), v);
        if h.last().0.0 == v {
            previo.push(h.last().1)
        } else {
            previo
        }
    }
}

/// Los vecinos de `v`: los vértices unidos a él por alguna media arista, en
/// cualquier sentido.
pub open spec fn vecinos_de(h: Seq<((u32, u32), u32)>, v: int) -> Set<u32> {
    Set::new(
        |w: u32|
            exists|i: int|
                0 <= i < h.len() && ((h[i].0.0 == v && h[i].0.1 == w) || (h[i].0.0 == w && h[i].0.1
                    == v)),
    )
}

/// Estrictamente creciente.
pub open spec fn creciente_u32(s: Seq<u32>) -> bool {
    forall|i: int, j: int| 0 <= i < j < s.len() ==> s[i] < s[j]
}

/// Todos los índices de las caras apuntan a posiciones existentes.
pub open spec fn indices_en_rango(m: &Mesh) -> bool {
    forall|i: int, j: int|
        0 <= i < m.faces@.len() && 0 <= j < m.faces@[i].verts@.len() ==> m.faces@[i].verts@[j]
            < m.positions@.len()
}

/// Adyacencia derivada de una malla.
pub struct Adjacency {
    /// Clave de arista (ver `clave_arista`) → índices de las caras que la
    /// contienen.
    pub edge_faces: HashMap<u64, Vec<u32>>,
    /// Vértice → caras incidentes.
    pub vertex_faces: Vec<Vec<u32>>,
    /// Vértice → vecinos, en orden creciente.
    pub vertex_neighbors: Vec<Vec<u32>>,
}

/// La clave de una arista, calculada.
pub fn clave(a: u32, b: u32) -> (r: u64)
    ensures
        r == clave_arista(a, b),
{
    if a <= b {
        (a as u64) * 0x1_0000_0000u64 + (b as u64)
    } else {
        (b as u64) * 0x1_0000_0000u64 + (a as u64)
    }
}

/// Mete `x` en su sitio de una lista creciente, si no estaba.
fn insertar_u32(v: &mut Vec<u32>, x: u32)
    requires
        creciente_u32(old(v)@),
    ensures
        creciente_u32(final(v)@),
        final(v)@.to_set() == old(v)@.to_set().insert(x),
{
    let mut p: usize = 0;
    while p < v.len() && v[p] < x
        invariant
            p <= v@.len(),
            creciente_u32(v@),
            forall|j: int| 0 <= j < p ==> v@[j] < x,
        decreases v@.len() - p,
    {
        p = p + 1;
    }
    if p < v.len() && v[p] == x {
        assert(v@.to_set().contains(x));
        assert(v@.to_set().insert(x) =~= v@.to_set());
        return;
    }
    let ghost antes = v@;
    v.insert(p, x);
    proof {
        assert(v@ =~= antes.insert(p as int, x));
        assert forall|i: int, j: int| 0 <= i < j < v@.len() implies v@[i] < v@[j] by {
            if i < p && j > p {
                assert(antes[i] < x);
            }
        }
        assert forall|y: u32| v@.to_set().contains(y) <==> antes.to_set().insert(x).contains(y) by {
            if v@.to_set().contains(y) {
                let k = choose|k: int| 0 <= k < v@.len() && v@[k] == y;
                if k < p {
                    assert(antes[k] == y);
                } else if k > p {
                    assert(antes[k - 1] == y);
                }
            }
            if antes.to_set().contains(y) {
                let k = choose|k: int| 0 <= k < antes.len() && antes[k] == y;
                if k < p {
                    assert(v@[k] == y);
                } else {
                    assert(v@[k + 1] == y);
                }
            }
            if y == x {
                assert(v@[p as int] == y);
            }
        }
        assert(v@.to_set() =~= antes.to_set().insert(x));
    }
}

/// Las medias aristas con su cara, calculadas.
pub fn medias_con_cara_exec(m: &Mesh) -> (r: Vec<((u32, u32), u32)>)
    ensures
        r@ == medias_con_cara(m.caras()),
{
    let mut out: Vec<((u32, u32), u32)> = Vec::new();
    let mut fi: usize = 0;
    assert(m.caras().take(0) =~= Seq::<Seq<u32>>::empty());
    while fi < m.faces.len()
        invariant
            fi <= m.faces@.len(),
            out@ == medias_con_cara(m.caras().take(fi as int)),
        decreases m.faces@.len() - fi,
    {
        let f = &m.faces[fi].verts;
        let n = f.len();
        let ghost antes = out@;
        let ghost etiqueta = fi as u32;
        let ghost nuevas = Seq::new(f@.len(), |i: int| (medias_de_bucle(f@)[i], etiqueta));
        let mut i: usize = 0;
        while i < n
            invariant
                n == f@.len(),
                i <= n,
                nuevas == Seq::new(f@.len(), |k: int| (medias_de_bucle(f@)[k], etiqueta)),
                etiqueta == fi as u32,
                out@ == antes + nuevas.take(i as int),
            decreases n - i,
        {
            let sig = (i + 1) % n;
            out.push(((f[i], f[sig]), fi as u32));
            assert(nuevas.take(i + 1) =~= nuevas.take(i as int).push(nuevas[i as int]));
            i = i + 1;
        }
        proof {
            assert(nuevas.take(n as int) =~= nuevas);
            let c = m.caras();
            assert(c[fi as int] == f@);
            assert(c.take(fi + 1).drop_last() =~= c.take(fi as int));
            assert(c.take(fi + 1).last() == f@);
        }
        fi = fi + 1;
    }
    assert(m.caras().take(m.faces@.len() as int) =~= m.caras());
    out
}

/// Un vector de `n` listas vacías.
fn listas_vacias(n: usize) -> (r: Vec<Vec<u32>>)
    ensures
        r@.len() == n,
        forall|i: int| 0 <= i < n ==> (#[trigger] r@[i])@.len() == 0,
{
    let mut v: Vec<Vec<u32>> = Vec::new();
    let mut i: usize = 0;
    while i < n
        invariant
            i <= n,
            v@.len() == i,
            forall|k: int| 0 <= k < i ==> (#[trigger] v@[k])@.len() == 0,
        decreases n - i,
    {
        v.push(Vec::new());
        i = i + 1;
    }
    v
}

/// Todos los extremos de las medias aristas están por debajo de `n`.
pub open spec fn extremos_en_rango(h: Seq<((u32, u32), u32)>, n: nat) -> bool {
    forall|i: int| 0 <= i < h.len() ==> h[i].0.0 < n && h[i].0.1 < n
}

proof fn lema_extremos(m: &Mesh)
    requires
        indices_en_rango(m),
    ensures
        extremos_en_rango(medias_con_cara(m.caras()), m.positions@.len()),
{
    lema_extremos_prefijo(m.caras(), m.positions@.len());
}

proof fn lema_extremos_prefijo(c: Seq<Seq<u32>>, n: nat)
    requires
        forall|i: int, j: int| 0 <= i < c.len() && 0 <= j < c[i].len() ==> c[i][j] < n,
    ensures
        extremos_en_rango(medias_con_cara(c), n),
    decreases c.len(),
{
    if c.len() > 0 {
        lema_extremos_prefijo(c.drop_last(), n);
        let f = c.last();
        assert forall|i: int| 0 <= i < f.len() implies medias_de_bucle(f)[i].0 < n
            && medias_de_bucle(f)[i].1 < n by {
            assert(f == c[c.len() - 1]);
            let k = (i + 1) % (f.len() as int);
            assert(0 <= k < f.len());
        }
        let h = medias_con_cara(c);
        let h0 = medias_con_cara(c.drop_last());
        assert forall|i: int| 0 <= i < h.len() implies h[i].0.0 < n && h[i].0.1 < n by {
            if i >= h0.len() {
                assert(h[i].0 == medias_de_bucle(f)[i - h0.len()]);
            } else {
                assert(h[i] == h0[i]);
            }
        }
    }
}

impl Adjacency {
    /// Construye la adyacencia de una malla cuyas caras apuntan a posiciones
    /// existentes.
    pub fn build(m: &Mesh) -> (r: Adjacency)
        requires
            indices_en_rango(m),
        ensures
            r.edge_faces@.dom() == mapa_aristas(medias_con_cara(m.caras())).dom(),
            forall|k: u64| #[trigger]
                r.edge_faces@.contains_key(k) ==> r.edge_faces@[k]@ == mapa_aristas(
                    medias_con_cara(m.caras()),
                )[k],
            r.vertex_faces@.len() == m.positions@.len(),
            forall|v: int| 0 <= v < m.positions@.len() ==> (#[trigger] r.vertex_faces@[v])@
                == caras_de_vertice(medias_con_cara(m.caras()), v),
            r.vertex_neighbors@.len() == m.positions@.len(),
            forall|v: int| 0 <= v < m.positions@.len() ==> creciente_u32(
                (#[trigger] r.vertex_neighbors@[v])@,
            ) && r.vertex_neighbors@[v]@.to_set() == vecinos_de(medias_con_cara(m.caras()), v),
    {
        let h = medias_con_cara_exec(m);
        proof {
            lema_extremos(m);
        }
        let n = m.positions.len();
        let mut edge_faces: HashMap<u64, Vec<u32>> = HashMap::new();
        let mut vertex_faces = listas_vacias(n);
        let mut vecinos = listas_vacias(n);
        let ghost hs = h@;
        assert(hs.take(0) =~= Seq::<((u32, u32), u32)>::empty());
        assert(edge_faces@.dom() =~= mapa_aristas(hs.take(0)).dom());
        assert forall|v: int| 0 <= v < n implies vecinos@[v]@.to_set() == vecinos_de(hs.take(0), v) by {
            assert(vecinos@[v]@.to_set() =~= Set::<u32>::empty());
            assert(vecinos_de(hs.take(0), v) =~= Set::<u32>::empty());
        }
        let mut j: usize = 0;
        while j < h.len()
            invariant
                hs == h@,
                n == m.positions@.len(),
                extremos_en_rango(hs, n as nat),
                j <= hs.len(),
                edge_faces@.dom() == mapa_aristas(hs.take(j as int)).dom(),
                forall|k: u64| #[trigger]
                    edge_faces@.contains_key(k) ==> edge_faces@[k]@ == mapa_aristas(
                        hs.take(j as int),
                    )[k],
                vertex_faces@.len() == n,
                forall|v: int| 0 <= v < n ==> (#[trigger] vertex_faces@[v])@ == caras_de_vertice(
                    hs.take(j as int),
                    v,
                ),
                vecinos@.len() == n,
                forall|v: int| 0 <= v < n ==> creciente_u32((#[trigger] vecinos@[v])@)
                    && vecinos@[v]@.to_set() == vecinos_de(hs.take(j as int), v),
            decreases hs.len() - j,
        {
            let ((a, b), fi) = h[j];
            let ghost pre = hs.take(j as int);
            let ghost post = hs.take(j + 1);
            proof {
                assert(post.drop_last() =~= pre);
                assert(post.last() == hs[j as int]);
                assert(hs[j as int] == ((a, b), fi));
            }
            // arista → caras
            let k = clave(a, b);
            let mut lista = match edge_faces.remove(&k) {
                Some(l) => l,
                None => Vec::new(),
            };
            lista.push(fi);
            edge_faces.insert(k, lista);
            proof {
                assert(edge_faces@.dom() =~= mapa_aristas(post).dom());
            }
            // vértice → caras
            let mut vf = crate::mesh::copia_vec(&vertex_faces[a as usize]);
            vf.push(fi);
            vertex_faces.set(a as usize, vf);
            // vecinos, en los dos sentidos
            let mut va = crate::mesh::copia_vec(&vecinos[a as usize]);
            insertar_u32(&mut va, b);
            vecinos.set(a as usize, va);
            let mut vb = crate::mesh::copia_vec(&vecinos[b as usize]);
            insertar_u32(&mut vb, a);
            vecinos.set(b as usize, vb);
            proof {
                assert forall|v: int| 0 <= v < n implies vecinos@[v]@.to_set() == vecinos_de(
                    post,
                    v,
                ) by {
                    assert forall|w: u32| #[trigger] vecinos_de(post, v).contains(w)
                        <==> vecinos_de(pre, v).contains(w) || (v == a && w == b) || (v
                        == b && w == a) by {
                        if vecinos_de(post, v).contains(w) {
                            let i = choose|i: int|
                                0 <= i < post.len() && ((post[i].0.0 == v && post[i].0.1 == w) || (
                                post[i].0.0 == w && post[i].0.1 == v));
                            if i < pre.len() {
                                assert(pre[i] == post[i]);
                            }
                        }
                        if vecinos_de(pre, v).contains(w) {
                            let i = choose|i: int|
                                0 <= i < pre.len() && ((pre[i].0.0 == v && pre[i].0.1 == w) || (
                                pre[i].0.0 == w && pre[i].0.1 == v));
                            assert(post[i] == pre[i]);
                        }
                        if (v == a && w == b) || (v == b && w == a) {
                            assert(post[j as int].0 == (a, b));
                        }
                    }
                    assert(vecinos_de(post, v) =~= vecinos_de(pre, v).union(
                        if v == a {
                            set![b]
                        } else {
                            Set::empty()
                        },
                    ).union(
                        if v == b {
                            set![a]
                        } else {
                            Set::empty()
                        },
                    ));
                }
            }
            j = j + 1;
        }
        assert(hs.take(hs.len() as int) =~= hs);
        Adjacency { edge_faces, vertex_faces, vertex_neighbors: vecinos }
    }

    /// ¿Es de borde la arista `(a, b)`? Lo es si la recorre exactamente una cara.
    pub fn es_borde(&self, a: u32, b: u32) -> (r: bool)
        ensures
            r == (self.edge_faces@.contains_key(clave_arista(a, b))
                && self.edge_faces@[clave_arista(a, b)]@.len() == 1),
    {
        let k = clave(a, b);
        match self.edge_faces.get(&k) {
            Some(l) => l.len() == 1,
            None => false,
        }
    }
}


/// Las claves del mapa de aristas son las de las medias aristas, y nada más.
proof fn lema_dominio(h: Seq<((u32, u32), u32)>, k: u64)
    ensures
        mapa_aristas(h).contains_key(k) <==> exists|i: int|
            0 <= i < h.len() && k == clave_arista(#[trigger] h[i].0.0, h[i].0.1),
    decreases h.len(),
{
    if h.len() > 0 {
        let p = h.drop_last();
        lema_dominio(p, k);
        if exists|i: int| 0 <= i < p.len() && k == clave_arista(#[trigger] p[i].0.0, p[i].0.1) {
            let i = choose|i: int| 0 <= i < p.len() && k == clave_arista(#[trigger] p[i].0.0, p[i].0.1);
            assert(h[i] == p[i]);
        }
        if exists|i: int| 0 <= i < h.len() && k == clave_arista(#[trigger] h[i].0.0, h[i].0.1) {
            let i = choose|i: int| 0 <= i < h.len() && k == clave_arista(#[trigger] h[i].0.0, h[i].0.1);
            if i < h.len() - 1 {
                assert(p[i] == h[i]);
            }
        }
    }
}

/// La adyacencia de unas medias aristas: hay una entrada por cada arista
/// que recorre alguna cara y ninguna más, y ser vecinos es simétrico.
pub proof fn ley_adyacencia(h: Seq<((u32, u32), u32)>)
    ensures
        forall|k: u64|
            #[trigger] mapa_aristas(h).contains_key(k) <==> exists|i: int|
                0 <= i < h.len() && k == clave_arista(#[trigger] h[i].0.0, h[i].0.1),
        forall|v: u32, w: u32| #[trigger] vecinos_de(h, v as int).contains(w) <==> #[trigger] vecinos_de(h, w as int).contains(v),
{
    assert forall|k: u64|
        #[trigger] mapa_aristas(h).contains_key(k) <==> exists|i: int|
            0 <= i < h.len() && k == clave_arista(#[trigger] h[i].0.0, h[i].0.1) by {
        lema_dominio(h, k);
    }
}

} // verus!
