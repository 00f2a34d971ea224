//! La topología de un poliedro de caras planas.
//!
//! Un sólido es su frontera: cada cara un bucle de índices de vértice, en
//! sentido antihorario visto desde fuera. Las aristas se **derivan** de las
//! caras en vez de almacenarse, porque derivarlas garantiza que no puedan
//! quedar desincronizadas. Las posiciones de los vértices son números reales y
//! viven con quien las calcula; aquí solo están los índices.

use std::collections::HashMap;

use vstd::prelude::*;
use vstd::string::StringSliceAdditionalSpecFns;

use crate::adyacencia::{clave, clave_arista, mapa_aristas, medias_con_cara};
use crate::hash::{bytes_de_palabras, fnv, fnv_desde, marca, FNV_BASE};
use crate::ids::{FeatureId, StableId, TopoClass};
use crate::kernel::{KernelError, TopoProvenance};
use crate::mesh::medias_de_bucle;
use crate::soldadura::{bucle_soldado, renumeracion, renumerar, representantes, soldar_bucle, Clave};
use crate::texto::{anadir, de_caracteres, decimal, empujar_decimal};

verus! {

broadcast use vstd::std_specs::hash::group_hash_axioms;

/// Una cara: su identidad, de dónde viene y su bucle de vértices.
#[derive(Clone, Debug)]
pub struct Cara {
    pub id: StableId,
    pub prov: TopoProvenance,
    /// Índices de vértice, antihorario visto desde fuera.
    pub bucle: Vec<u32>,
}

/// Una arista derivada de las caras: su identidad, de dónde viene, sus
/// extremos (el menor primero) y las caras que la recorren, en orden.
#[derive(Clone, Debug)]
pub struct AristaTopologica {
    pub id: StableId,
    pub prov: TopoProvenance,
    pub a: u32,
    pub b: u32,
    pub caras: Vec<u32>,
}

/// Los bucles de una lista de caras.
pub open spec fn bucles_de(cs: Seq<Cara>) -> Seq<Seq<u32>> {
    Seq::new(cs.len(), |i: int| cs[i].bucle@)
}

/// Para cada arista, por su clave, las caras que la recorren en el orden en
/// que aparecen sus medias aristas.
pub open spec fn aristas_de_caras(cs: Seq<Cara>) -> Map<u64, Seq<u32>> {
    mapa_aristas(medias_con_cara(bucles_de(cs)))
}

/// El extremo menor de una arista, por su clave.
pub open spec fn menor(k: u64) -> u32 {
    (k / 0x1_0000_0000) as u32
}

/// El extremo mayor de una arista, por su clave.
pub open spec fn mayor(k: u64) -> u32 {
    (k % 0x1_0000_0000) as u32
}

/// El par de marcas del que sale la identidad de una arista: las de sus dos
/// primeras caras (o la de la única, dos veces), la menor delante.
pub open spec fn par_de(cs: Seq<Cara>, fs: Seq<u32>) -> (u64, u64) {
    let m0 = cs[fs[0] as int].id.mark;
    let m1 = if fs.len() > 1 {
        cs[fs[1] as int].id.mark
    } else {
        m0
    };
    if m0 <= m1 {
        (m0, m1)
    } else {
        (m1, m0)
    }
}

/// Cuántas veces aparece `p` en `s`.
pub open spec fn cuenta<A>(s: Seq<A>, p: A) -> nat
    decreases s.len(),
{
    if s.len() == 0 {
        0
    } else {
        cuenta(s.drop_last(), p) + if s.last() == p {
            1nat
        } else {
            0nat
        }
    }
}

/// La marca de la `n`-ésima arista con el par de marcas `p`: la genealogía de
/// sus caras, no su índice. Si las caras conservan su marca al regenerar, la
/// arista también.
pub open spec fn marca_de_arista(p: (u64, u64), n: nat) -> u64 {
    fnv_desde(FNV_BASE, bytes_de_palabras(seq![p.0, p.1, n as u64]))
}

/// El mensaje de una arista compartida por más de dos caras.
pub open spec fn mensaje_no_manifold(k: u64, n: nat) -> Seq<char> {
    "arista "@ + decimal(menor(k) as nat) + "-"@ + decimal(mayor(k) as nat) + " compartida por "@ + decimal(n)
        + " caras (no manifold)"@
}

/// `e` es la arista número `t` de la lista `es` de aristas de las caras `cs`:
/// extremos, caras e identidad, derivada del par de marcas de sus caras y de
/// cuántas aristas anteriores tienen ese mismo par.
pub open spec fn arista_bien(e: AristaTopologica, t: int, es: Seq<AristaTopologica>, cs: Seq<Cara>, owner: FeatureId) -> bool {
    let m = aristas_de_caras(cs);
    let k = clave_arista(e.a, e.b);
    &&& e.a <= e.b
    &&& m.contains_key(k)
    &&& e.caras@ == m[k]
    &&& e.id == StableId {
        origin: owner,
        class: TopoClass::Edge,
        mark: marca_de_arista(
            par_de(cs, e.caras@),
            cuenta(Seq::new(t as nat, |s: int| par_de(cs, es[s].caras@)), par_de(cs, e.caras@)),
        ),
    }
    &&& e.prov == TopoProvenance::Inherited { from: cs[e.caras@[0] as int].id }
}

/// `es` son las aristas de las caras `cs`, una por clave y en orden creciente
/// de clave.
pub open spec fn aristas_bien(es: Seq<AristaTopologica>, cs: Seq<Cara>, owner: FeatureId) -> bool {
    &&& forall|t: int| 0 <= t < es.len() ==> arista_bien(#[trigger] es[t], t, es, cs, owner)
    &&& forall|t: int, s: int|
        0 <= t < s < es.len() ==> clave_arista(es[t].a, es[t].b) < clave_arista(es[s].a, es[s].b)
    &&& forall|k: u64| #[trigger] aristas_de_caras(cs).contains_key(k) ==> exists|t: int|
        0 <= t < es.len() && clave_arista(es[t].a, es[t].b) == k
}

/// Alguna arista la recorren más de dos caras.
pub open spec fn no_manifold(cs: Seq<Cara>) -> bool {
    exists|k: u64| #[trigger] aristas_de_caras(cs).contains_key(k) && aristas_de_caras(cs)[k].len() > 2
}

/// `k` es la menor clave de arista recorrida por más de dos caras.
pub open spec fn primera_no_manifold(cs: Seq<Cara>, k: u64) -> bool {
    let m = aristas_de_caras(cs);
    &&& m.contains_key(k)
    &&& m[k].len() > 2
    &&& forall|k2: u64| #[trigger] m.contains_key(k2) && m[k2].len() > 2 ==> k <= k2
}

// ---------------------------------------------------------------------------
// Lemas
// ---------------------------------------------------------------------------

proof fn lema_medias_en_rango(c: Seq<Seq<u32>>)
    requires
        c.len() <= u32::MAX,
    ensures
        forall|i: int| 0 <= i < medias_con_cara(c).len() ==> (#[trigger] medias_con_cara(c)[i]).1 < c.len(),
    decreases c.len(),
{
    if c.len() > 0 {
        lema_medias_en_rango(c.drop_last());
        let h = medias_con_cara(c);
        let h0 = medias_con_cara(c.drop_last());
        assert forall|i: int| 0 <= i < h.len() implies (#[trigger] h[i]).1 < c.len() by {
            if i < h0.len() {
                assert(h[i] == h0[i]);
            }
        }
    }
}

/// Lo que se sabe de cada arista del mapa: alguna media arista la tiene por
/// clave, y sus caras son caras de verdad.
proof fn lema_mapa(h: Seq<((u32, u32), u32)>, n: nat)
    requires
        forall|i: int| 0 <= i < h.len() ==> (#[trigger] h[i]).1 < n,
    ensures
        forall|k: u64|
            #[trigger] mapa_aristas(h).contains_key(k) ==> {
                &&& mapa_aristas(h)[k].len() >= 1
                &&& forall|x: int| 0 <= x < mapa_aristas(h)[k].len() ==> mapa_aristas(h)[k][x] < n
                &&& exists|i: int| 0 <= i < h.len() && clave_arista(h[i].0.0, h[i].0.1) == k
            },
    decreases h.len(),
{
    if h.len() > 0 {
        lema_mapa(h.drop_last(), n);
        let m0 = mapa_aristas(h.drop_last());
        let ((a, b), fi) = h.last();
        assert(h.last() == h[h.len() - 1]);
        let kk = clave_arista(a, b);
        assert forall|k: u64| #[trigger] mapa_aristas(h).contains_key(k) implies {
            &&& mapa_aristas(h)[k].len() >= 1
            &&& forall|x: int| 0 <= x < mapa_aristas(h)[k].len() ==> mapa_aristas(h)[k][x] < n
            &&& exists|i: int| 0 <= i < h.len() && clave_arista(h[i].0.0, h[i].0.1) == k
        } by {
            if k != kk {
                assert(m0.contains_key(k));
                let i = choose|i: int| 0 <= i < h.drop_last().len() && clave_arista(h.drop_last()[i].0.0, h.drop_last()[i].0.1) == k;
                assert(h[i] == h.drop_last()[i]);
            } else {
                assert(clave_arista(h[h.len() - 1].0.0, h[h.len() - 1].0.1) == k);
            }
        }
    }
}

/// La clave de una arista lleva el extremo menor en la mitad alta y el mayor
/// en la baja.
proof fn lema_clave(a: u32, b: u32)
    ensures
        menor(clave_arista(a, b)) == if a <= b { a } else { b },
        mayor(clave_arista(a, b)) == if a <= b { b } else { a },
{
    let (lo, hi) = if a <= b { (a, b) } else { (b, a) };
    let k = clave_arista(a, b);
    assert(k == lo as int * 0x1_0000_0000 + hi as int);
    vstd::arithmetic::div_mod::lemma_fundamental_div_mod_converse(k as int, 0x1_0000_0000, lo as int, hi as int);
}

// ---------------------------------------------------------------------------
// Aristas
// ---------------------------------------------------------------------------

/// Las medias aristas con su cara, cara a cara y en orden.
fn medias_de_caras(cs: &Vec<Cara>) -> (r: Vec<((u32, u32), u32)>)
    requires
        cs@.len() <= u32::MAX,
    ensures
        r@ == medias_con_cara(bucles_de(cs@)),
{
    let ghost c = bucles_de(cs@);
    let mut out: Vec<((u32, u32), u32)> = Vec::new();
    let mut fi: usize = 0;
    assert(c.take(0) =~= Seq::<Seq<u32>>::empty());
    while fi < cs.len()
        invariant
            fi <= cs@.len(),
            cs@.len() <= u32::MAX,
            c == bucles_de(cs@),
            out@ == medias_con_cara(c.take(fi as int)),
        decreases cs@.len() - fi,
    {
        let f = &cs[fi].bucle;
        let n = f.len();
        let ghost antes = out@;
        let ghost etiqueta = fi as u32;
        let ghost nuevas = Seq::new(f@.len(), |i: int| (medias_de_bucle(f@)[i], etiqueta));
        let mut i: usize = 0;
        while i < n
            invariant
                n == f@.len(),
                i <= n,
                nuevas == Seq::new(f@.len(), |k: int| (medias_de_bucle(f@)[k], etiqueta)),
                etiqueta == fi as u32,
                out@ == antes + nuevas.take(i as int),
            decreases n - i,
        {
            let sig = (i + 1) % n;
            out.push(((f[i], f[sig]), fi as u32));
            assert(nuevas.take(i + 1) =~= nuevas.take(i as int).push(nuevas[i as int]));
            i = i + 1;
        }
        proof {
            assert(nuevas.take(n as int) =~= nuevas);
            assert(c[fi as int] == f@);
            assert(c.take(fi + 1).drop_last() =~= c.take(fi as int));
            assert(c.take(fi + 1).last() == f@);
        }
        fi = fi + 1;
    }
    assert(c.take(cs@.len() as int) =~= c);
    out
}

/// Ordena de menor a mayor (`slice::sort_unstable`). El contrato dice lo que
/// la documentación de `std` promete: el resultado tiene los mismos elementos,
/// en orden.
#[verifier::external_body]
fn ordenar(v: &mut Vec<u64>)
    ensures
        final(v)@.to_multiset() == old(v)@.to_multiset(),
        forall|i: int, j: int| 0 <= i < j < final(v)@.len() ==> final(v)@[i] <= final(v)@[j],
{
    v.sort_unstable();
}

fn mensaje_de_no_manifold(k: u64, n: usize) -> (r: String)
    ensures
        r@ == mensaje_no_manifold(k, n as nat),
{
    let mut v: Vec<char> = Vec::new();
    anadir(&mut v, "arista ");
    empujar_decimal(&mut v, (k / 0x1_0000_0000) as u32 as u64);
    anadir(&mut v, "-");
    empujar_decimal(&mut v, (k % 0x1_0000_0000) as u32 as u64);
    anadir(&mut v, " compartida por ");
    empujar_decimal(&mut v, n as u64);
    anadir(&mut v, " caras (no manifold)");
    de_caracteres(&v)
}

/// La clave de un par de marcas, para contarlo.
spec fn codigo(p: (u64, u64)) -> u128 {
    (p.0 as int * 0x1_0000_0000_0000_0000 + p.1 as int) as u128
}

proof fn lema_codigo(p: (u64, u64), q: (u64, u64))
    ensures
        codigo(p) == codigo(q) ==> p == q,
{
    if codigo(p) == codigo(q) {
        vstd::arithmetic::div_mod::lemma_fundamental_div_mod_converse(
            codigo(p) as int,
            0x1_0000_0000_0000_0000,
            p.0 as int,
            p.1 as int,
        );
        vstd::arithmetic::div_mod::lemma_fundamental_div_mod_converse(
            codigo(q) as int,
            0x1_0000_0000_0000_0000,
            q.0 as int,
            q.1 as int,
        );
    }
}

proof fn lema_cuenta_acotada<A>(s: Seq<A>, p: A)
    ensures
        cuenta(s, p) <= s.len(),
    decreases s.len(),
{
    if s.len() > 0 {
        lema_cuenta_acotada(s.drop_last(), p);
    }
}

/// Los pares de marcas de las aristas, en orden.
spec fn pares_de(cs: Seq<Cara>, es: Seq<AristaTopologica>) -> Seq<(u64, u64)> {
    Seq::new(es.len(), |s: int| par_de(cs, es[s].caras@))
}

/// Agrupa las medias aristas por arista: para cada clave, sus caras en orden;
/// y las claves, cada una una vez.
fn agrupar(h: &Vec<((u32, u32), u32)>) -> (r: (HashMap<u64, Vec<u32>>, Vec<u64>))
    ensures
        r.0@.dom() == mapa_aristas(h@).dom(),
        forall|k: u64| #[trigger] r.0@.contains_key(k) ==> r.0@[k]@ == mapa_aristas(h@)[k],
        forall|k: u64| #[trigger] r.1@.contains(k) <==> r.0@.contains_key(k),
        r.1@.no_duplicates(),
{
    let ghost hs = h@;
    let mut mapa: HashMap<u64, Vec<u32>> = HashMap::new();
    let mut claves: Vec<u64> = Vec::new();
    let mut j: usize = 0;
    assert(hs.take(0) =~= Seq::<((u32, u32), u32)>::empty());
    assert(mapa@.dom() =~= mapa_aristas(hs.take(0)).dom());
    while j < h.len()
        invariant
            hs == h@,
            j <= hs.len(),
            mapa@.dom() == mapa_aristas(hs.take(j as int)).dom(),
            forall|k: u64| #[trigger]
                mapa@.contains_key(k) ==> mapa@[k]@ == mapa_aristas(hs.take(j as int))[k],
            forall|k: u64| #[trigger] claves@.contains(k) <==> mapa@.contains_key(k),
            claves@.no_duplicates(),
        decreases hs.len() - j,
    {
        let ((a, b), fi) = h[j];
        let ghost pre = hs.take(j as int);
        let ghost post = hs.take(j + 1);
        proof {
            assert(post.drop_last() =~= pre);
            assert(post.last() == hs[j as int]);
        }
        let k = clave(a, b);
        match mapa.remove(&k) {
            Some(l) => {
                let mut l = l;
                l.push(fi);
                mapa.insert(k, l);
            },
            None => {
                let ghost viejas = claves@;
                assert(!viejas.contains(k));
                claves.push(k);
                let mut l: Vec<u32> = Vec::new();
                l.push(fi);
                mapa.insert(k, l);
                proof {
                    assert forall|x: u64| #[trigger] claves@.contains(x) <==> viejas.contains(x) || x == k by {
                        if claves@.contains(x) {
                            let w = choose|w: int| 0 <= w < claves@.len() && claves@[w] == x;
                            if w < viejas.len() {
                                assert(viejas[w] == x);
                            }
                        }
                        if viejas.contains(x) {
                            let w = choose|w: int| 0 <= w < viejas.len() && viejas[w] == x;
                            assert(claves@[w] == x);
                        }
                        if x == k {
                            assert(claves@[viejas.len() as int] == k);
                        }
                    }
                    assert forall|x: int, y: int| 0 <= x < y < claves@.len() implies claves@[x] != claves@[y] by {
                        if y == viejas.len() {
                            assert(viejas.contains(claves@[x]));
                        }
                    }
                }
            },
        }
        proof {
            assert(mapa@.dom() =~= mapa_aristas(post).dom());
        }
        j = j + 1;
    }
    assert(hs.take(hs.len() as int) =~= hs);
    (mapa, claves)
}

/// Ordena claves distintas: quedan estrictamente crecientes y son las mismas.
fn ordenar_distintas(v: &mut Vec<u64>)
    requires
        old(v)@.no_duplicates(),
    ensures
        forall|k: u64| #[trigger] final(v)@.contains(k) <==> old(v)@.contains(k),
        forall|x: int, y: int| 0 <= x < y < final(v)@.len() ==> final(v)@[x] < final(v)@[y],
{
    let ghost antes = v@;
    ordenar(v);
    proof {
        antes.lemma_multiset_has_no_duplicates();
        antes.to_multiset_ensures();
        v@.to_multiset_ensures();
        v@.lemma_multiset_has_no_duplicates_conv();
        assert forall|k: u64| #[trigger] v@.contains(k) <==> antes.contains(k) by {
            assert(v@.contains(k) <==> v@.to_multiset().count(k) > 0);
            assert(antes.contains(k) <==> antes.to_multiset().count(k) > 0);
        }
        assert forall|x: int, y: int| 0 <= x < y < v@.len() implies v@[x] < v@[y] by {
            assert(v@[x] <= v@[y]);
        }
    }
}

/// Lo que se sabe de cada arista del mapa de las caras.
spec fn mapa_en_rango(m: Map<u64, Seq<u32>>, hs: Seq<((u32, u32), u32)>, n: nat) -> bool {
    forall|k: u64|
        #[trigger] m.contains_key(k) ==> {
            &&& m[k].len() >= 1
            &&& forall|x: int| 0 <= x < m[k].len() ==> m[k][x] < n
            &&& exists|i: int| 0 <= i < hs.len() && clave_arista(hs[i].0.0, hs[i].0.1) == k
        }
}


proof fn lema_contar(pares: Seq<(u64, u64)>, par: (u64, u64), viejo: Map<u128, u64>, nuevo: Map<u128, u64>, n: u64)
    requires
        forall|p: (u64, u64)|
            #[trigger] cuenta(pares, p) == if viejo.contains_key(codigo(p)) {
                viejo[codigo(p)] as nat
            } else {
                0nat
            },
        n as nat == cuenta(pares, par),
        nuevo == viejo.insert(codigo(par), (n + 1) as u64),
        n < u64::MAX,
    ensures
        forall|p: (u64, u64)|
            #[trigger] cuenta(pares.push(par), p) == if nuevo.contains_key(codigo(p)) {
                nuevo[codigo(p)] as nat
            } else {
                0nat
            },
{
    assert(pares.push(par).drop_last() =~= pares);
    assert forall|p: (u64, u64)|
        #[trigger] cuenta(pares.push(par), p) == if nuevo.contains_key(codigo(p)) {
            nuevo[codigo(p)] as nat
        } else {
            0nat
        } by {
        lema_codigo(p, par);
        assert(cuenta(pares, p) == if viejo.contains_key(codigo(p)) {
            viejo[codigo(p)] as nat
        } else {
            0nat
        });
    }
}

proof fn lema_anadir_arista(viejo: Seq<AristaTopologica>, e: AristaTopologica, cs: Seq<Cara>, owner: FeatureId)
    requires
        forall|s: int| 0 <= s < viejo.len() ==> arista_bien(#[trigger] viejo[s], s, viejo, cs, owner),
        arista_bien(e, viejo.len() as int, viejo.push(e), cs, owner),
    ensures
        forall|s: int|
            0 <= s < viejo.len() + 1 ==> arista_bien(#[trigger] viejo.push(e)[s], s, viejo.push(e), cs, owner),
{
    let nuevo = viejo.push(e);
    assert forall|s: int| 0 <= s < viejo.len() + 1 implies arista_bien(#[trigger] nuevo[s], s, nuevo, cs, owner) by {
        if s < viejo.len() {
            assert(nuevo[s] == viejo[s]);
            assert(Seq::new(s as nat, |x: int| par_de(cs, nuevo[x].caras@)) =~= Seq::new(
                s as nat,
                |x: int| par_de(cs, viejo[x].caras@),
            ));
            assert(arista_bien(viejo[s], s, viejo, cs, owner));
        }
    }
}

/// La arista de clave `k`, con caras `fs`, que es la número `n` con su par de
/// marcas.
fn nueva_arista(
    cs: &Vec<Cara>,
    k: u64,
    fs: &Vec<u32>,
    n: u64,
    owner: FeatureId,
    Ghost(hs): Ghost<Seq<((u32, u32), u32)>>,
) -> (r: AristaTopologica)
    requires
        1 <= fs@.len(),
        forall|x: int| 0 <= x < fs@.len() ==> fs@[x] < cs@.len(),
        exists|i: int| 0 <= i < hs.len() && clave_arista(hs[i].0.0, hs[i].0.1) == k,
    ensures
        r.a <= r.b,
        clave_arista(r.a, r.b) == k,
        r.caras@ == fs@,
        r.id == (StableId { origin: owner, class: TopoClass::Edge, mark: marca_de_arista(par_de(cs@, fs@), n as nat) }),
        r.prov == (TopoProvenance::Inherited { from: cs@[fs@[0] as int].id }),
{
    let m0 = cs[fs[0] as usize].id.mark;
    let m1 = if fs.len() > 1 {
        cs[fs[1] as usize].id.mark
    } else {
        m0
    };
    let par = if m0 <= m1 {
        (m0, m1)
    } else {
        (m1, m0)
    };
    let mark = fnv(&[par.0, par.1, n]);
    let ghost i = choose|i: int| 0 <= i < hs.len() && clave_arista(hs[i].0.0, hs[i].0.1) == k;
    proof {
        lema_clave(hs[i].0.0, hs[i].0.1);
    }
    let a = (k / 0x1_0000_0000) as u32;
    let b = (k % 0x1_0000_0000) as u32;
    AristaTopologica {
        id: StableId { origin: owner, class: TopoClass::Edge, mark },
        prov: TopoProvenance::Inherited { from: cs[fs[0] as usize].id },
        a,
        b,
        caras: crate::mesh::copia_vec(fs),
    }
}

/// El código del par de marcas de unas caras.
fn codigo_de_par(cs: &Vec<Cara>, fs: &Vec<u32>) -> (r: u128)
    requires
        1 <= fs@.len(),
        forall|x: int| 0 <= x < fs@.len() ==> fs@[x] < cs@.len(),
    ensures
        r == codigo(par_de(cs@, fs@)),
{
    let m0 = cs[fs[0] as usize].id.mark;
    let m1 = if fs.len() > 1 {
        cs[fs[1] as usize].id.mark
    } else {
        m0
    };
    let par = if m0 <= m1 {
        (m0, m1)
    } else {
        (m1, m0)
    };
    (par.0 as u128) * 0x1_0000_0000_0000_0000u128 + (par.1 as u128)
}

/// Deriva las aristas de las caras, en orden creciente de extremos, y les da
/// identidad a partir de la de sus caras. Una arista que recorren más de dos
/// caras no es de un sólido: es un error, y se denuncia la menor.
pub fn aristas_de(cs: &Vec<Cara>, owner: FeatureId) -> (r: Result<Vec<AristaTopologica>, KernelError>)
    requires
        cs@.len() <= u32::MAX,
    ensures
        r is Err <==> no_manifold(cs@),
        r matches Err(e) ==> exists|k: u64|
            primera_no_manifold(cs@, k) && (e matches KernelError::Degenerate { hint } && hint@
                == mensaje_no_manifold(k, aristas_de_caras(cs@)[k].len())),
        r matches Ok(es) ==> aristas_bien(es@, cs@, owner),
{
    let h = medias_de_caras(cs);
    let ghost hs = h@;
    let ghost m = aristas_de_caras(cs@);
    proof {
        lema_medias_en_rango(bucles_de(cs@));
        lema_mapa(hs, cs@.len() as nat);
    }
    let (mapa, mut claves) = agrupar(&h);
    ordenar_distintas(&mut claves);
    let mut out: Vec<AristaTopologica> = Vec::new();
    let mut por_par: HashMap<u128, u64> = HashMap::new();
    let mut t: usize = 0;
    assert(pares_de(cs@, out@) =~= Seq::<(u64, u64)>::empty());
    while t < claves.len()
        invariant
            t <= claves@.len(),
            m == aristas_de_caras(cs@),
            mapa@.dom() == m.dom(),
            forall|k: u64| #[trigger] mapa@.contains_key(k) ==> mapa@[k]@ == m[k],
            forall|k: u64| #[trigger] claves@.contains(k) <==> m.contains_key(k),
            forall|x: int, y: int| 0 <= x < y < claves@.len() ==> claves@[x] < claves@[y],
            mapa_en_rango(m, hs, cs@.len() as nat),
            out@.len() == t,
            forall|s: int| 0 <= s < t ==> m[#[trigger] claves@[s]].len() <= 2,
            forall|s: int| 0 <= s < t ==> clave_arista(out@[s].a, out@[s].b) == #[trigger] claves@[s],
            forall|s: int| 0 <= s < t ==> arista_bien(#[trigger] out@[s], s, out@, cs@, owner),
            forall|p: (u64, u64)|
                #[trigger] cuenta(pares_de(cs@, out@), p) == if por_par@.contains_key(codigo(p)) {
                    por_par@[codigo(p)] as nat
                } else {
                    0nat
                },
        decreases claves@.len() - t,
    {
        let k = claves[t];
        assert(claves@.contains(k));
        let fs = mapa.get(&k).unwrap();
        if fs.len() > 2 {
            proof {
                assert forall|k2: u64| #[trigger] m.contains_key(k2) && m[k2].len() > 2 implies k <= k2 by {
                    assert(claves@.contains(k2));
                    let w = choose|w: int| 0 <= w < claves@.len() && claves@[w] == k2;
                    if w < t {
                        assert(m[claves@[w]].len() <= 2);
                    } else if w > t {
                        assert(claves@[t as int] < claves@[w]);
                    }
                }
                assert(primera_no_manifold(cs@, k));
            }
            return Err(KernelError::Degenerate { hint: mensaje_de_no_manifold(k, fs.len()) });
        }
        let ghost par = par_de(cs@, fs@);
        let cp = codigo_de_par(cs, fs);
        let n: u64 = match por_par.get(&cp) {
            Some(c) => *c,
            None => 0,
        };
        proof {
            lema_cuenta_acotada(pares_de(cs@, out@), par);
        }
        let e = nueva_arista(cs, k, fs, n, owner, Ghost(hs));
        let ghost viejo = out@;
        let ghost mapa_viejo = por_par@;
        proof {
            assert(Seq::new(t as nat, |x: int| par_de(cs@, viejo.push(e)[x].caras@)) =~= pares_de(cs@, viejo));
            assert(arista_bien(e, t as int, viejo.push(e), cs@, owner));
            lema_anadir_arista(viejo, e, cs@, owner);
        }
        out.push(e);
        por_par.insert(cp, n + 1);
        proof {
            assert(pares_de(cs@, out@) =~= pares_de(cs@, viejo).push(par));
            lema_contar(pares_de(cs@, viejo), par, mapa_viejo, por_par@, n);
        }
        t = t + 1;
    }
    proof {
        assert forall|k: u64| #[trigger] m.contains_key(k) implies exists|s: int|
            0 <= s < out@.len() && clave_arista(out@[s].a, out@[s].b) == k by {
            assert(claves@.contains(k));
            let w = choose|w: int| 0 <= w < claves@.len() && claves@[w] == k;
            assert(clave_arista(out@[w].a, out@[w].b) == claves@[w]);
        }
        assert(!no_manifold(cs@)) by {
            if no_manifold(cs@) {
                let k = choose|k: u64| #[trigger] m.contains_key(k) && m[k].len() > 2;
                assert(claves@.contains(k));
                let w = choose|w: int| 0 <= w < claves@.len() && claves@[w] == k;
                assert(m[claves@[w]].len() <= 2);
            }
        }
        assert forall|x: int, y: int| 0 <= x < y < out@.len() implies clave_arista(out@[x].a, out@[x].b)
            < clave_arista(out@[y].a, out@[y].b) by {
            assert(clave_arista(out@[x].a, out@[x].b) == claves@[x]);
            assert(clave_arista(out@[y].a, out@[y].b) == claves@[y]);
        }
    }
    Ok(out)
}

// ---------------------------------------------------------------------------
// Biselado: lo que se comprueba antes de tocar la geometría
// ---------------------------------------------------------------------------

/// Todos los vértices de los bucles, uno tras otro.
pub open spec fn aplanar(bs: Seq<Seq<u32>>) -> Seq<u32>
    decreases bs.len(),
{
    if bs.len() == 0 {
        Seq::empty()
    } else {
        aplanar(bs.drop_last()) + bs.last()
    }
}

/// En cuántas caras aparece `v`, contando cada aparición en un bucle.
pub open spec fn incidencias(cs: Seq<Cara>, v: u32) -> nat {
    cuenta(aplanar(bucles_de(cs)), v)
}

/// La posición de la primera arista con identidad `s`, o `es.len()`.
pub open spec fn primera_con_id(es: Seq<AristaTopologica>, s: StableId) -> int
    decreases es.len(),
{
    if es.len() == 0 {
        0
    } else if primera_con_id(es.drop_last(), s) < es.len() - 1 {
        primera_con_id(es.drop_last(), s)
    } else if es.last().id == s {
        es.len() - 1
    } else {
        es.len() as int
    }
}

/// ¿Falla la selección `s`: no se encuentra, o no separa dos caras?
pub open spec fn seleccion_falla(es: Seq<AristaTopologica>, s: StableId) -> bool {
    let i = primera_con_id(es, s);
    i >= es.len() || es[i].caras@.len() != 2
}

/// La primera selección que falla, o `sel.len()`.
pub open spec fn primera_que_falla(es: Seq<AristaTopologica>, sel: Seq<StableId>) -> int
    decreases sel.len(),
{
    if sel.len() == 0 {
        0
    } else if primera_que_falla(es, sel.drop_last()) < sel.len() - 1 {
        primera_que_falla(es, sel.drop_last())
    } else if seleccion_falla(es, sel.last()) {
        sel.len() - 1
    } else {
        sel.len() as int
    }
}

/// Los extremos de las aristas elegidas, de dos en dos.
pub open spec fn extremos(es: Seq<AristaTopologica>, idx: Seq<usize>) -> Seq<u32>
    decreases idx.len(),
{
    if idx.len() == 0 {
        Seq::empty()
    } else {
        extremos(es, idx.drop_last()) + seq![es[idx.last() as int].a, es[idx.last() as int].b]
    }
}

/// Las aristas que un bisel puede tocar, ya resueltas.
#[derive(Debug)]
pub struct BiselValido {
    /// Las aristas de las caras, como las da `aristas_de`.
    pub aristas: Vec<AristaTopologica>,
    /// Por cada arista seleccionada, su posición en `aristas`.
    pub elegidas: Vec<usize>,
}

/// Lo que promete una selección válida sobre las aristas `es` de las caras
/// `cs`.
pub open spec fn bisel_valido(b: BiselValido, cs: Seq<Cara>, sel: Seq<StableId>) -> bool {
    &&& b.elegidas@.len() == sel.len()
    &&& forall|i: int|
        0 <= i < sel.len() ==> #[trigger] b.elegidas@[i] as int == primera_con_id(b.aristas@, sel[i])
            && b.elegidas@[i] < b.aristas@.len() && b.aristas@[b.elegidas@[i] as int].caras@.len() == 2
    &&& extremos(b.aristas@, b.elegidas@).no_duplicates()
    &&& forall|j: int|
        0 <= j < extremos(b.aristas@, b.elegidas@).len() ==> incidencias(cs, #[trigger] extremos(
            b.aristas@,
            b.elegidas@,
        )[j]) == 3
}

/// Las posiciones de las aristas seleccionadas.
pub open spec fn posiciones(es: Seq<AristaTopologica>, sel: Seq<StableId>) -> Seq<usize> {
    Seq::new(sel.len(), |i: int| primera_con_id(es, sel[i]) as usize)
}

/// ¿Hay que rechazar el bisel de `sel` sobre las aristas `es` de `cs`?
pub open spec fn falla_bisel(es: Seq<AristaTopologica>, cs: Seq<Cara>, sel: Seq<StableId>) -> bool {
    ||| primera_que_falla(es, sel) < sel.len()
    ||| !extremos(es, posiciones(es, sel)).no_duplicates()
    ||| exists|j: int|
        0 <= j < extremos(es, posiciones(es, sel)).len() && incidencias(cs, #[trigger] extremos(
            es,
            posiciones(es, sel),
        )[j]) != 3
}

/// El error con que se rechaza el bisel: el de la primera selección que no se
/// encuentra o que no separa dos caras; si no, el de las aristas que comparten
/// vértice; si no, el de las esquinas que no son de tres caras.
pub open spec fn error_de_bisel(es: Seq<AristaTopologica>, cs: Seq<Cara>, sel: Seq<StableId>, e: KernelError) -> bool {
    let i = primera_que_falla(es, sel);
    if i < sel.len() {
        if primera_con_id(es, sel[i]) >= es.len() {
            e == KernelError::UnresolvedReference(sel[i])
        } else {
            e matches KernelError::Degenerate { hint } && hint@ == "no se puede biselar una arista de borde libre"@
        }
    } else if !extremos(es, posiciones(es, sel)).no_duplicates() {
        e matches KernelError::Unsupported(m) && m@
            == "este kernel no bisela aristas que comparten vertice; seleccionalas por separado"@
    } else {
        e matches KernelError::Unsupported(m) && m@ == "este kernel solo bisela esquinas de tres caras"@
    }
}

proof fn lema_primera_con_id(es: Seq<AristaTopologica>, s: StableId)
    ensures
        0 <= primera_con_id(es, s) <= es.len(),
        primera_con_id(es, s) < es.len() ==> es[primera_con_id(es, s)].id == s,
        forall|j: int| 0 <= j < primera_con_id(es, s) ==> es[j].id != s,
    decreases es.len(),
{
    if es.len() > 0 {
        lema_primera_con_id(es.drop_last(), s);
        assert forall|j: int| 0 <= j < primera_con_id(es, s) implies es[j].id != s by {
            if j < es.len() - 1 {
                assert(es[j] == es.drop_last()[j]);
            }
        }
    }
}

fn buscar_arista(es: &Vec<AristaTopologica>, s: StableId) -> (r: usize)
    ensures
        r == primera_con_id(es@, s),
{
    proof {
        lema_primera_con_id(es@, s);
    }
    let mut i: usize = 0;
    while i < es.len() && es[i].id != s
        invariant
            i <= es@.len(),
            forall|j: int| 0 <= j < i ==> es@[j].id != s,
        decreases es@.len() - i,
    {
        i = i + 1;
    }
    proof {
        let p = primera_con_id(es@, s);
        if p < i {
            assert(es@[p].id != s);
        }
        if i < p {
            assert(es@[i as int].id == s);
        }
    }
    i
}

proof fn lema_primera_que_falla(es: Seq<AristaTopologica>, sel: Seq<StableId>)
    ensures
        0 <= primera_que_falla(es, sel) <= sel.len(),
        primera_que_falla(es, sel) < sel.len() ==> seleccion_falla(es, sel[primera_que_falla(es, sel)]),
        forall|j: int| 0 <= j < primera_que_falla(es, sel) ==> !seleccion_falla(es, #[trigger] sel[j]),
    decreases sel.len(),
{
    if sel.len() > 0 {
        lema_primera_que_falla(es, sel.drop_last());
        assert forall|j: int| 0 <= j < primera_que_falla(es, sel) implies !seleccion_falla(es, #[trigger] sel[j]) by {
            if j < sel.len() - 1 {
                assert(sel[j] == sel.drop_last()[j]);
            }
        }
    }
}

/// Cuántas veces aparece cada vértice en los bucles, hasta cuatro: solo
/// importa si son exactamente tres.
fn contar_incidencias(cs: &Vec<Cara>) -> (r: HashMap<u32, u8>)
    ensures
        forall|v: u32| #[trigger] tope4(incidencias(cs@, v)) == if r@.contains_key(v) {
            r@[v] as nat
        } else {
            0nat
        },
{
    let ghost bs = bucles_de(cs@);
    let mut cuentas: HashMap<u32, u8> = HashMap::new();
    let mut fi: usize = 0;
    assert(bs.take(0) =~= Seq::<Seq<u32>>::empty());
    while fi < cs.len()
        invariant
            fi <= cs@.len(),
            bs == bucles_de(cs@),
            forall|v: u32| #[trigger] tope4(cuenta(aplanar(bs.take(fi as int)), v)) == if cuentas@.contains_key(v) {
                cuentas@[v] as nat
            } else {
                0nat
            },
        decreases cs@.len() - fi,
    {
        let b = &cs[fi].bucle;
        let ghost base = aplanar(bs.take(fi as int));
        proof {
            assert(bs.take(fi + 1).drop_last() =~= bs.take(fi as int));
            assert(bs.take(fi + 1).last() == b@);
        }
        let mut i: usize = 0;
        assert(base + b@.take(0) =~= base);
        while i < b.len()
            invariant
                i <= b@.len(),
                base + b@ == aplanar(bs.take(fi + 1)),
                forall|v: u32| #[trigger] tope4(cuenta(base + b@.take(i as int), v)) == if cuentas@.contains_key(v) {
                    cuentas@[v] as nat
                } else {
                    0nat
                },
            decreases b@.len() - i,
        {
            let v = b[i];
            let ghost antes = base + b@.take(i as int);
            let ghost mapa_antes = cuentas@;
            proof {
                assert(base + b@.take(i + 1) =~= antes.push(v));
                assert(antes.push(v).drop_last() =~= antes);
            }
            let c: u8 = match cuentas.get(&v) {
                Some(c) => *c,
                None => 0,
            };
            let nueva: u8 = if c < 4 { c + 1 } else { 4 };
            cuentas.insert(v, nueva);
            proof {
                assert forall|w: u32| #[trigger] tope4(cuenta(base + b@.take(i + 1), w)) == if cuentas@.contains_key(w) {
                    cuentas@[w] as nat
                } else {
                    0nat
                } by {
                    assert(tope4(cuenta(antes, w)) == if mapa_antes.contains_key(w) {
                        mapa_antes[w] as nat
                    } else {
                        0nat
                    });
                }
            }
            i = i + 1;
        }
        assert(b@.take(b@.len() as int) =~= b@);
        fi = fi + 1;
    }
    assert(bs.take(cs@.len() as int) =~= bs);
    cuentas
}

/// Una cuenta, con todo lo que pase de cuatro dejado en cuatro.
pub open spec fn tope4(n: nat) -> nat {
    if n < 4 {
        n
    } else {
        4
    }
}

/// Resuelve cada selección a su arista, o da el error de la primera que no
/// se encuentra o no separa dos caras.
fn resolver_seleccion(es: &Vec<AristaTopologica>, sel: &Vec<StableId>) -> (r: Result<Vec<usize>, KernelError>)
    ensures
        primera_que_falla(es@, sel@) < sel@.len() <==> r is Err,
        r matches Ok(idx) ==> idx@ == posiciones(es@, sel@),
        r matches Err(e) ==> ({
            let i = primera_que_falla(es@, sel@);
            if primera_con_id(es@, sel@[i]) >= es@.len() {
                e == KernelError::UnresolvedReference(sel@[i])
            } else {
                e matches KernelError::Degenerate { hint } && hint@ == "no se puede biselar una arista de borde libre"@
            }
        }),
{
    proof {
        lema_primera_que_falla(es@, sel@);
    }
    let mut idx: Vec<usize> = Vec::new();
    let mut i: usize = 0;
    while i < sel.len()
        invariant
            i <= sel@.len(),
            i <= primera_que_falla(es@, sel@),
            idx@ == posiciones(es@, sel@).take(i as int),
            0 <= primera_que_falla(es@, sel@) <= sel@.len(),
            primera_que_falla(es@, sel@) < sel@.len() ==> seleccion_falla(es@, sel@[primera_que_falla(es@, sel@)]),
            forall|j: int| 0 <= j < primera_que_falla(es@, sel@) ==> !seleccion_falla(es@, #[trigger] sel@[j]),
        decreases sel@.len() - i,
    {
        let s = sel[i];
        let p = buscar_arista(es, s);
        proof {
            lema_primera_con_id(es@, s);
        }
        if p >= es.len() {
            assert(seleccion_falla(es@, sel@[i as int]));
            return Err(KernelError::UnresolvedReference(s));
        }
        if es[p].caras.len() != 2 {
            assert(seleccion_falla(es@, sel@[i as int]));
            return Err(KernelError::Degenerate { hint: String::from_str("no se puede biselar una arista de borde libre") });
        }
        assert(!seleccion_falla(es@, sel@[i as int]));
        idx.push(p);
        assert(idx@ =~= posiciones(es@, sel@).take(i + 1));
        i = i + 1;
    }
    assert(posiciones(es@, sel@).take(sel@.len() as int) =~= posiciones(es@, sel@));
    Ok(idx)
}

/// Ninguna pareja de aristas elegidas comparte vértice (ni una arista tiene
/// sus dos extremos iguales).
fn comprobar_vertices(es: &Vec<AristaTopologica>, idx: &Vec<usize>) -> (r: Result<(), KernelError>)
    requires
        forall|i: int| 0 <= i < idx@.len() ==> (#[trigger] idx@[i]) < es@.len(),
    ensures
        r is Ok <==> extremos(es@, idx@).no_duplicates(),
        r matches Err(e) ==> (e matches KernelError::Unsupported(m) && m@
            == "este kernel no bisela aristas que comparten vertice; seleccionalas por separado"@),
{
    let mut tocado: HashMap<u32, usize> = HashMap::new();
    let mut k: usize = 0;
    while k < idx.len()
        invariant
            k <= idx@.len(),
            forall|i: int| 0 <= i < idx@.len() ==> (#[trigger] idx@[i]) < es@.len(),
            extremos(es@, idx@.take(k as int)).no_duplicates(),
            forall|v: u32| #[trigger] tocado@.contains_key(v) <==> extremos(es@, idx@.take(k as int)).contains(v),
        decreases idx@.len() - k,
    {
        let e = &es[idx[k]];
        let ghost antes = extremos(es@, idx@.take(k as int));
        proof {
            assert(idx@.take(k + 1).drop_last() =~= idx@.take(k as int));
            assert(idx@.take(k + 1).last() == idx@[k as int]);
            assert(extremos(es@, idx@.take(k + 1)) == antes + seq![e.a, e.b]);
        }
        if tocado.contains_key(&e.a) {
            proof {
                let x = choose|x: int| 0 <= x < antes.len() && antes[x] == e.a;
                lema_no_duplicados_extremos(antes, e.a, e.b, x, antes.len() as int);
                lema_no_duplicados_sube(es@, idx@, k as int + 1);
            }
            return Err(KernelError::Unsupported("este kernel no bisela aristas que comparten vertice; seleccionalas por separado"));
        }
        tocado.insert(e.a, k);
        if tocado.contains_key(&e.b) {
            proof {
                if e.b == e.a {
                    lema_no_duplicados_extremos(antes, e.a, e.b, antes.len() as int, antes.len() as int + 1);
                } else {
                    let x = choose|x: int| 0 <= x < antes.len() && antes[x] == e.b;
                    lema_no_duplicados_extremos(antes, e.a, e.b, x, antes.len() as int + 1);
                }
                lema_no_duplicados_sube(es@, idx@, k as int + 1);
            }
            return Err(KernelError::Unsupported("este kernel no bisela aristas que comparten vertice; seleccionalas por separado"));
        }
        tocado.insert(e.b, k);
        proof {
            let nuevo = antes + seq![e.a, e.b];
            assert forall|x: int, y: int| 0 <= x < y < nuevo.len() implies nuevo[x] != nuevo[y] by {
                if y == antes.len() {
                    assert(!antes.contains(e.a));
                    assert(nuevo[x] == antes[x]);
                } else if y == antes.len() + 1 {
                    if x < antes.len() {
                        assert(!antes.contains(e.b));
                        assert(nuevo[x] == antes[x]);
                    }
                } else {
                    assert(nuevo[x] == antes[x]);
                    assert(nuevo[y] == antes[y]);
                }
            }
            assert forall|v: u32| #[trigger] tocado@.contains_key(v) <==> nuevo.contains(v) by {
                if nuevo.contains(v) {
                    let x = choose|x: int| 0 <= x < nuevo.len() && nuevo[x] == v;
                    if x < antes.len() {
                        assert(antes[x] == v);
                    }
                }
                if antes.contains(v) {
                    let x = choose|x: int| 0 <= x < antes.len() && antes[x] == v;
                    assert(nuevo[x] == v);
                }
                if v == e.a {
                    assert(nuevo[antes.len() as int] == v);
                }
                if v == e.b {
                    assert(nuevo[antes.len() as int + 1] == v);
                }
            }
        }
        k = k + 1;
    }
    assert(idx@.take(idx@.len() as int) =~= idx@);
    Ok(())
}

/// Si un prefijo de los extremos repite un vértice, la lista entera también.
proof fn lema_no_duplicados_sube(es: Seq<AristaTopologica>, idx: Seq<usize>, k: int)
    requires
        0 <= k <= idx.len(),
        !extremos(es, idx.take(k)).no_duplicates(),
    ensures
        !extremos(es, idx).no_duplicates(),
    decreases idx.len() - k,
{
    if k < idx.len() {
        assert(idx.take(k + 1).drop_last() =~= idx.take(k));
        let p = extremos(es, idx.take(k));
        let q = extremos(es, idx.take(k + 1));
        assert(q == p + seq![es[idx[k] as int].a, es[idx[k] as int].b]);
        let (x, y) = choose|x: int, y: int| 0 <= x < y < p.len() && p[x] == p[y];
        assert(q[x] == p[x] && q[y] == p[y]);
        lema_no_duplicados_sube(es, idx, k + 1);
    } else {
        assert(idx.take(k) =~= idx);
    }
}

/// Dos posiciones con el mismo vértice en los extremos tras añadir `a` y `b`.
proof fn lema_no_duplicados_extremos(antes: Seq<u32>, a: u32, b: u32, x: int, y: int)
    requires
        0 <= x < y < antes.len() + 2,
        (antes + seq![a, b])[x] == (antes + seq![a, b])[y],
    ensures
        !(antes + seq![a, b]).no_duplicates(),
{
}

/// Toda esquina tocada es de exactamente tres caras.
fn comprobar_esquinas(cs: &Vec<Cara>, es: &Vec<AristaTopologica>, idx: &Vec<usize>) -> (r: Result<(), KernelError>)
    requires
        forall|i: int| 0 <= i < idx@.len() ==> (#[trigger] idx@[i]) < es@.len(),
    ensures
        r is Ok <==> forall|j: int|
            0 <= j < extremos(es@, idx@).len() ==> incidencias(cs@, #[trigger] extremos(es@, idx@)[j]) == 3,
        r matches Err(e) ==> (e matches KernelError::Unsupported(m) && m@ == "este kernel solo bisela esquinas de tres caras"@),
{
    let cuentas = contar_incidencias(cs);
    let ghost ex = extremos(es@, idx@);
    let mut k: usize = 0;
    while k < idx.len()
        invariant
            k <= idx@.len(),
            forall|i: int| 0 <= i < idx@.len() ==> (#[trigger] idx@[i]) < es@.len(),
            ex == extremos(es@, idx@),
            forall|v: u32| #[trigger] tope4(incidencias(cs@, v)) == if cuentas@.contains_key(v) {
                cuentas@[v] as nat
            } else {
                0nat
            },
            forall|j: int| 0 <= j < extremos(es@, idx@.take(k as int)).len() ==> incidencias(cs@, #[trigger] extremos(es@, idx@.take(k as int))[j]) == 3,
        decreases idx@.len() - k,
    {
        let e = &es[idx[k]];
        let ghost antes = extremos(es@, idx@.take(k as int));
        proof {
            assert(idx@.take(k + 1).drop_last() =~= idx@.take(k as int));
            assert(idx@.take(k + 1).last() == idx@[k as int]);
            assert(extremos(es@, idx@.take(k + 1)) == antes + seq![e.a, e.b]);
            lema_extremos_prefijo(es@, idx@, k as int + 1);
        }
        let ca: u8 = match cuentas.get(&e.a) {
            Some(c) => *c,
            None => 0,
        };
        let cb: u8 = match cuentas.get(&e.b) {
            Some(c) => *c,
            None => 0,
        };
        if ca != 3 || cb != 3 {
            proof {
                assert(tope4(incidencias(cs@, e.a)) == ca);
                assert(tope4(incidencias(cs@, e.b)) == cb);
                let j = if ca != 3 { antes.len() as int } else { antes.len() as int + 1 };
                assert(ex[j] == extremos(es@, idx@.take(k + 1))[j]);
                assert(incidencias(cs@, ex[j]) != 3);
            }
            return Err(KernelError::Unsupported("este kernel solo bisela esquinas de tres caras"));
        }
        proof {
            assert(tope4(incidencias(cs@, e.a)) == 3);
            assert(tope4(incidencias(cs@, e.b)) == 3);
        }
        k = k + 1;
    }
    assert(idx@.take(idx@.len() as int) =~= idx@);
    Ok(())
}

/// Los extremos de un prefijo de las elegidas son un prefijo de los extremos.
proof fn lema_extremos_prefijo(es: Seq<AristaTopologica>, idx: Seq<usize>, k: int)
    requires
        0 <= k <= idx.len(),
    ensures
        extremos(es, idx.take(k)).len() == 2 * k,
        extremos(es, idx.take(k)) == extremos(es, idx).take(2 * k),
        extremos(es, idx).len() == 2 * idx.len(),
    decreases idx.len(),
{
    if idx.len() > 0 {
        lema_extremos_prefijo(es, idx.drop_last(), if k < idx.len() { k } else { idx.len() - 1 });
        if k < idx.len() {
            assert(idx.take(k) =~= idx.drop_last().take(k));
            assert(extremos(es, idx).take(2 * k) =~= extremos(es, idx.drop_last()).take(2 * k));
        } else {
            assert(idx.take(k) =~= idx);
            assert(extremos(es, idx).take(2 * k) =~= extremos(es, idx));
        }
    } else {
        assert(idx.take(k) =~= idx);
    }
}

/// Lo que devuelve el bisel de `sel` sobre las aristas `es` de `cs`: el error
/// que toca si hay que rechazarlo, y si no las aristas resueltas.
pub open spec fn resultado_bisel(
    r: Result<BiselValido, KernelError>,
    es: Seq<AristaTopologica>,
    cs: Seq<Cara>,
    sel: Seq<StableId>,
) -> bool {
    &&& falla_bisel(es, cs, sel) ==> (r matches Err(e) && error_de_bisel(es, cs, sel, e))
    &&& !falla_bisel(es, cs, sel) ==> (r matches Ok(b) && b.aristas@ == es && bisel_valido(b, cs, sel))
}

/// Comprueba un bisel (chaflán o redondeo) antes de tocar la geometría y
/// resuelve las aristas seleccionadas.
///
/// Cada arista seleccionada se sustituirá por una cara nueva, así que tiene
/// que existir y separar dos caras. El bisel solo sabe hacer aristas que no
/// comparten vértice y cuyas esquinas son de exactamente tres caras; fuera de
/// eso se rechaza en vez de producir un sólido con agujeros.
pub fn validar_bisel(caras: &Vec<Cara>, prev_owner: FeatureId, seleccion: &Vec<StableId>) -> (r: Result<
    BiselValido,
    KernelError,
>)
    requires
        caras@.len() <= u32::MAX,
    ensures
        seleccion@.len() == 0 ==> (r matches Err(KernelError::InvalidInput { detail }) && detail@
            == "sin aristas seleccionadas"@),
        seleccion@.len() > 0 && no_manifold(caras@) ==> (r matches Err(e) && exists|k: u64|
            primera_no_manifold(caras@, k) && (e matches KernelError::Degenerate { hint } && hint@
                == mensaje_no_manifold(k, aristas_de_caras(caras@)[k].len()))),
        seleccion@.len() > 0 && !no_manifold(caras@) ==> exists|es: Seq<AristaTopologica>|
            aristas_bien(es, caras@, prev_owner) && #[trigger] resultado_bisel(r, es, caras@, seleccion@),
{
    if seleccion.len() == 0 {
        return Err(KernelError::InvalidInput { detail: String::from_str("sin aristas seleccionadas") });
    }
    let aristas = match aristas_de(caras, prev_owner) {
        Ok(a) => a,
        Err(e) => {
            return Err(e);
        },
    };
    let ghost es = aristas@;
    let r = comprobar_bisel(caras, aristas, seleccion);
    assert(resultado_bisel(r, es, caras@, seleccion@));
    r
}

/// Las comprobaciones del bisel sobre unas aristas ya derivadas.
fn comprobar_bisel(caras: &Vec<Cara>, aristas: Vec<AristaTopologica>, seleccion: &Vec<StableId>) -> (r: Result<
    BiselValido,
    KernelError,
>)
    ensures
        resultado_bisel(r, aristas@, caras@, seleccion@),
{
    let ghost es = aristas@;
    let total = aristas.len();
    assert(es.len() == total);
    let idx = match resolver_seleccion(&aristas, seleccion) {
        Ok(i) => i,
        Err(e) => {
            return Err(e);
        },
    };
    proof {
        lema_primera_que_falla(es, seleccion@);
        assert forall|i: int| 0 <= i < idx@.len() implies (#[trigger] idx@[i]) < es.len() && es[idx@[i] as int].caras@.len() == 2 by {
            lema_primera_con_id(es, seleccion@[i]);
            assert(primera_que_falla(es, seleccion@) == seleccion@.len());
            assert(!seleccion_falla(es, seleccion@[i]));
            assert(primera_con_id(es, seleccion@[i]) < es.len());
            assert(posiciones(es, seleccion@)[i] == primera_con_id(es, seleccion@[i]) as usize);
            assert(idx@[i] as int == primera_con_id(es, seleccion@[i]));
        }
    }
    match comprobar_vertices(&aristas, &idx) {
        Ok(()) => {},
        Err(e) => {
            return Err(e);
        },
    }
    match comprobar_esquinas(caras, &aristas, &idx) {
        Ok(()) => {},
        Err(e) => {
            return Err(e);
        },
    }
    let b = BiselValido { aristas, elegidas: idx };
    proof {
        assert forall|i: int| 0 <= i < seleccion@.len() implies #[trigger] b.elegidas@[i] as int == primera_con_id(
            b.aristas@,
            seleccion@[i],
        ) && b.elegidas@[i] < b.aristas@.len() && b.aristas@[b.elegidas@[i] as int].caras@.len() == 2 by {
            lema_primera_con_id(es, seleccion@[i]);
            assert(!seleccion_falla(es, seleccion@[i]));
            assert(posiciones(es, seleccion@)[i] == primera_con_id(es, seleccion@[i]) as usize);
            assert(b.elegidas@[i] == posiciones(es, seleccion@)[i]);
            assert(b.elegidas@[i] < es.len());
        }
    }
    assert(bisel_valido(b, caras@, seleccion@));
    Ok(b)
}

// ---------------------------------------------------------------------------
// Soldadura
// ---------------------------------------------------------------------------

/// Un poliedro soldado: qué vértice original sobrevive en cada posición nueva,
/// y las caras renumeradas.
#[derive(Debug)]
pub struct PoliedroSoldado {
    pub vertices: Vec<usize>,
    pub caras: Vec<Cara>,
}

/// Funde los vértices con la misma clave (su posición cuantizada): sobrevive
/// el primero de cada clave, y cada bucle se renumera, pierde los vértices
/// repetidos seguidos y, si se cierra sobre sí mismo, el último. Sin esto un
/// barrido deja vértices duplicados en las esquinas, y dos caras que comparten
/// una arista no la comparten si sus vértices son distintos aunque estén en el
/// mismo sitio. Ninguna cara desaparece: una que colapsa la denuncia la
/// validación.
pub fn soldar_poliedro(caras: &Vec<Cara>, claves: &Vec<Clave>) -> (r: PoliedroSoldado)
    requires
        claves@.len() < u32::MAX,
        forall|i: int, j: int|
            0 <= i < caras@.len() && 0 <= j < caras@[i].bucle@.len() ==> caras@[i].bucle@[j] < claves@.len(),
    ensures
        r.vertices@.len() == representantes(claves@).len(),
        forall|t: int| 0 <= t < r.vertices@.len() ==> r.vertices@[t] as int == #[trigger] representantes(claves@)[t],
        r.caras@.len() == caras@.len(),
        forall|i: int|
            0 <= i < caras@.len() ==> (#[trigger] r.caras@[i]).id == caras@[i].id && r.caras@[i].prov == caras@[i].prov
                && r.caras@[i].bucle@ == bucle_soldado(caras@[i].bucle@, renumeracion(claves@)),
{
    let (vertices, remap) = renumerar(claves);
    let mut nuevas: Vec<Cara> = Vec::new();
    let mut i: usize = 0;
    while i < caras.len()
        invariant
            i <= caras@.len(),
            remap@ == renumeracion(claves@),
            remap@.len() == claves@.len(),
            forall|a: int, b: int|
                0 <= a < caras@.len() && 0 <= b < caras@[a].bucle@.len() ==> caras@[a].bucle@[b] < claves@.len(),
            nuevas@.len() == i,
            forall|a: int|
                0 <= a < i ==> (#[trigger] nuevas@[a]).id == caras@[a].id && nuevas@[a].prov == caras@[a].prov
                    && nuevas@[a].bucle@ == bucle_soldado(caras@[a].bucle@, renumeracion(claves@)),
        decreases caras@.len() - i,
    {
        let c = &caras[i];
        assert forall|b: int| 0 <= b < c.bucle@.len() implies c.bucle@[b] < remap@.len() by {
            assert(caras@[i as int].bucle@[b] < claves@.len());
        }
        let b = soldar_bucle(&c.bucle, &remap);
        nuevas.push(Cara { id: c.id, prov: c.prov, bucle: b });
        i = i + 1;
    }
    PoliedroSoldado { vertices, caras: nuevas }
}

// ---------------------------------------------------------------------------
// Caras de los barridos
// ---------------------------------------------------------------------------

/// Una cara como valor.
pub type CaraV = (StableId, TopoProvenance, Seq<u32>);

pub open spec fn cara_v(c: Cara) -> CaraV {
    (c.id, c.prov, c.bucle@)
}

pub open spec fn caras_v(cs: Seq<Cara>) -> Seq<CaraV> {
    Seq::new(cs.len(), |i: int| cara_v(cs[i]))
}

/// La marca de la entidad `indice` de la clase `etiqueta`.
pub open spec fn marca_de(etiqueta: &str, indice: u32) -> u64 {
    fnv_desde(FNV_BASE, bytes_de_palabras(seq![fnv_desde(FNV_BASE, etiqueta.spec_bytes()), indice as u64]))
}

/// Una cara de `owner` con esa marca.
pub open spec fn id_de_cara(owner: FeatureId, mark: u64) -> StableId {
    StableId { origin: owner, class: TopoClass::Face, mark }
}

/// Los índices `desde`, `desde + 1`, ..., `hasta - 1`.
pub open spec fn tramo(desde: int, hasta: int) -> Seq<u32> {
    Seq::new((hasta - desde) as nat, |q: int| (desde + q) as u32)
}

/// Los índices `hasta - 1`, ..., `desde`.
pub open spec fn tramo_inverso(desde: int, hasta: int) -> Seq<u32> {
    Seq::new((hasta - desde) as nat, |q: int| (hasta - 1 - q) as u32)
}

fn tramo_exec(desde: u32, hasta: u32) -> (r: Vec<u32>)
    requires
        desde <= hasta,
    ensures
        r@ == tramo(desde as int, hasta as int),
{
    let mut v: Vec<u32> = Vec::new();
    let mut x = desde;
    while x < hasta
        invariant
            desde <= x <= hasta,
            v@ == tramo(desde as int, x as int),
        decreases hasta - x,
    {
        v.push(x);
        x = x + 1;
        assert(v@ =~= tramo(desde as int, x as int));
    }
    v
}

fn tramo_inverso_exec(desde: u32, hasta: u32) -> (r: Vec<u32>)
    requires
        desde <= hasta,
    ensures
        r@ == tramo_inverso(desde as int, hasta as int),
{
    let mut v: Vec<u32> = Vec::new();
    let mut x = hasta;
    while x > desde
        invariant
            desde <= x <= hasta,
            v@ == tramo_inverso(x as int, hasta as int).take((hasta - x) as int),
            v@.len() == hasta - x,
            forall|q: int| 0 <= q < v@.len() ==> v@[q] == (hasta - 1 - q) as u32,
        decreases x - desde,
    {
        v.push(x - 1);
        x = x - 1;
        assert(v@ =~= tramo_inverso(x as int, hasta as int).take((hasta - x) as int));
    }
    assert(v@ =~= tramo_inverso(desde as int, hasta as int));
    v
}

/// La cara lateral que barre la arista `i` del perfil (de `i` a `j`) entre
/// dos posiciones del perfil que empiezan en `a` y en `b`.
pub open spec fn lateral(owner: FeatureId, mark: u64, i: int, bucle: Seq<u32>) -> CaraV {
    (id_de_cara(owner, mark), TopoProvenance::SweptFromProfileEdge { edge_index: i as u32 }, bucle)
}

/// Las caras de extruir un perfil de `m` vértices: la tapa de abajo (el
/// perfil del revés), la de arriba y una lateral por cada arista del perfil.
/// Los vértices de abajo son `0..m` y los de arriba `m..2m`.
pub open spec fn caras_de_extrusion_s(owner: FeatureId, m: int) -> Seq<CaraV> {
    seq![
        (id_de_cara(owner, marca_de("cap_start", 0)), TopoProvenance::Cap { start: true }, tramo_inverso(0, m)),
        (id_de_cara(owner, marca_de("cap_end", 0)), TopoProvenance::Cap { start: false }, tramo(m, 2 * m)),
    ] + Seq::new(
        m as nat,
        |i: int|
            lateral(
                owner,
                marca_de("side", i as u32),
                i,
                seq![i as u32, ((i + 1) % m) as u32, (((i + 1) % m) + m) as u32, (i + m) as u32],
            ),
    )
}

/// Las caras de extruir un perfil de `m` vértices.
pub fn caras_de_extrusion(m: u32, owner: FeatureId) -> (r: Vec<Cara>)
    requires
        2 * m <= u32::MAX,
    ensures
        caras_v(r@) == caras_de_extrusion_s(owner, m as int),
{
    let mut out: Vec<Cara> = Vec::new();
    out.push(
        Cara {
            id: StableId { origin: owner, class: TopoClass::Face, mark: marca("cap_start", 0) },
            prov: TopoProvenance::Cap { start: true },
            bucle: tramo_inverso_exec(0, m),
        },
    );
    out.push(
        Cara {
            id: StableId { origin: owner, class: TopoClass::Face, mark: marca("cap_end", 0) },
            prov: TopoProvenance::Cap { start: false },
            bucle: tramo_exec(m, 2 * m),
        },
    );
    let ghost s = caras_de_extrusion_s(owner, m as int);
    let mut i: u32 = 0;
    while i < m
        invariant
            i <= m,
            2 * m <= u32::MAX,
            s == caras_de_extrusion_s(owner, m as int),
            caras_v(out@) == s.take(2 + i),
        decreases m - i,
    {
        let j = (i + 1) % m;
        let mut bucle: Vec<u32> = Vec::new();
        bucle.push(i);
        bucle.push(j);
        bucle.push(j + m);
        bucle.push(i + m);
        let ghost cara = lateral(
            owner,
            marca_de("side", i),
            i as int,
            seq![i as u32, ((i + 1) % (m as int)) as u32, (((i + 1) % (m as int)) + m) as u32, (i + m) as u32],
        );
        assert(bucle@ =~= cara.2);
        assert(s[2 + i] == cara);
        let ghost antes = out@;
        out.push(
            Cara {
                id: StableId { origin: owner, class: TopoClass::Face, mark: marca("side", i) },
                prov: TopoProvenance::SweptFromProfileEdge { edge_index: i },
                bucle,
            },
        );
        proof {
            assert(caras_v(out@) =~= caras_v(antes).push(cara));
            assert(s.take(2 + i + 1) =~= s.take(2 + i).push(s[2 + i]));
        }
        i = i + 1;
    }
    assert(s.take(2 + m) =~= s);
    out
}

/// El vértice `i` del perfil en el anillo `k` de una revolución.
pub open spec fn en_anillo(m: int, anillos: int, k: int, i: int) -> u32 {
    ((k % anillos) * m + i) as u32
}

/// Las `n` facetas que barre la arista `i` del perfil al girar. Todas
/// comparten identidad: son una sola superficie lógica partida en trozos por
/// el teselado, y tratarlas como caras distintas rompería la selección en
/// cuanto cambiara el número de segmentos.
pub open spec fn facetas(owner: FeatureId, m: int, n: int, anillos: int, i: int) -> Seq<CaraV> {
    let j = (i + 1) % m;
    Seq::new(
        n as nat,
        |k: int|
            lateral(
                owner,
                marca_de("rev_side", i as u32),
                i,
                seq![en_anillo(m, anillos, k, i), en_anillo(m, anillos, k, j), en_anillo(m, anillos, k + 1, j), en_anillo(m, anillos, k + 1, i)],
            ),
    )
}

/// Las facetas de las `i` primeras aristas del perfil.
pub open spec fn laterales_de_revolucion(owner: FeatureId, m: int, n: int, anillos: int, i: int) -> Seq<CaraV>
    decreases i,
{
    if i <= 0 {
        Seq::empty()
    } else {
        laterales_de_revolucion(owner, m, n, anillos, i - 1) + facetas(owner, m, n, anillos, i - 1)
    }
}

/// Las caras de girar un perfil de `m` vértices en `n` pasos: las facetas de
/// cada arista del perfil y, si el giro no es completo, las dos tapas. El
/// anillo `k` de vértices empieza en `k * m`; en un giro completo el último
/// paso vuelve al anillo de partida.
pub open spec fn caras_de_revolucion_s(owner: FeatureId, m: int, n: int, completo: bool) -> Seq<CaraV> {
    let anillos = if completo {
        n
    } else {
        n + 1
    };
    laterales_de_revolucion(owner, m, n, anillos, m) + if completo {
        Seq::empty()
    } else {
        seq![
            (id_de_cara(owner, marca_de("cap_start", 0)), TopoProvenance::Cap { start: true }, tramo_inverso(0, m)),
            (id_de_cara(owner, marca_de("cap_end", 0)), TopoProvenance::Cap { start: false }, tramo(n * m, n * m + m)),
        ]
    }
}

proof fn lema_en_anillo(m: int, anillos: int, k: int, i: int)
    by (nonlinear_arith)
    requires
        0 <= i < m,
        anillos >= 1,
        k >= 0,
    ensures
        0 <= (k % anillos) * m + i < anillos * m,
{
}

/// Las caras de girar un perfil de `m` vértices en `n` pasos.
pub fn caras_de_revolucion(m: u32, n: u32, completo: bool, owner: FeatureId) -> (r: Vec<Cara>)
    requires
        1 <= n < u32::MAX,
        (n + 1) * m <= u32::MAX,
    ensures
        caras_v(r@) == caras_de_revolucion_s(owner, m as int, n as int, completo),
{
    let anillos = if completo {
        n
    } else {
        n + 1
    };
    proof {
        assert(anillos * m <= (n + 1) * m) by (nonlinear_arith)
            requires
                anillos <= n + 1,
        ;
    }
    let ghost (gm, gn, ga) = (m as int, n as int, anillos as int);
    let mut out: Vec<Cara> = Vec::new();
    let mut i: u32 = 0;
    while i < m
        invariant
            i <= m,
            1 <= anillos,
            anillos * m <= u32::MAX,
            gm == m,
            gn == n,
            ga == anillos,
            caras_v(out@) == laterales_de_revolucion(owner, gm, gn, ga, i as int),
        decreases m - i,
    {
        let j = (i + 1) % m;
        let mark = marca("rev_side", i);
        let ghost fila = facetas(owner, gm, gn, ga, i as int);
        let ghost base = caras_v(out@);
        let mut k: u32 = 0;
        while k < n
            invariant
                i < m,
                j == (i + 1) % (m as int),
                k <= n,
                1 <= anillos,
                anillos * m <= u32::MAX,
                gm == m,
                gn == n,
                ga == anillos,
                mark == marca_de("rev_side", i),
                fila == facetas(owner, gm, gn, ga, i as int),
                caras_v(out@) == base + fila.take(k as int),
            decreases n - k,
        {
            proof {
                lema_en_anillo(gm, ga, k as int, i as int);
                lema_en_anillo(gm, ga, k as int, j as int);
                lema_en_anillo(gm, ga, k + 1, j as int);
                lema_en_anillo(gm, ga, k + 1, i as int);
            }
            let mut bucle: Vec<u32> = Vec::new();
            bucle.push((k % anillos) * m + i);
            bucle.push((k % anillos) * m + j);
            bucle.push(((k + 1) % anillos) * m + j);
            bucle.push(((k + 1) % anillos) * m + i);
            assert(bucle@ =~= fila[k as int].2);
            let ghost antes = out@;
            out.push(
                Cara {
                    id: StableId { origin: owner, class: TopoClass::Face, mark },
                    prov: TopoProvenance::SweptFromProfileEdge { edge_index: i },
                    bucle,
                },
            );
            proof {
                assert(caras_v(out@) =~= caras_v(antes).push(fila[k as int]));
                assert(fila.take(k + 1) =~= fila.take(k as int).push(fila[k as int]));
            }
            k = k + 1;
        }
        assert(fila.take(gn) =~= fila);
        i = i + 1;
    }
    if !completo {
        let ghost antes = caras_v(out@);
        proof {
            assert(n * m + m <= (n + 1) * m) by (nonlinear_arith);
        }
        let base = n * m;
        out.push(
            Cara {
                id: StableId { origin: owner, class: TopoClass::Face, mark: marca("cap_start", 0) },
                prov: TopoProvenance::Cap { start: true },
                bucle: tramo_inverso_exec(0, m),
            },
        );
        out.push(
            Cara {
                id: StableId { origin: owner, class: TopoClass::Face, mark: marca("cap_end", 0) },
                prov: TopoProvenance::Cap { start: false },
                bucle: tramo_exec(base, base + m),
            },
        );
        assert(caras_v(out@) =~= caras_de_revolucion_s(owner, gm, gn, completo));
    } else {
        assert(caras_v(out@) =~= caras_de_revolucion_s(owner, gm, gn, completo));
    }
    out
}

// ---------------------------------------------------------------------------
// Orientación y caja
// ---------------------------------------------------------------------------

fn al_reves(v: &Vec<u32>) -> (r: Vec<u32>)
    ensures
        r@ == v@.reverse(),
{
    let mut out: Vec<u32> = Vec::new();
    let mut k: usize = v.len();
    while k > 0
        invariant
            k <= v@.len(),
            out@.len() == v@.len() - k,
            forall|q: int| 0 <= q < out@.len() ==> out@[q] == v@[v@.len() - 1 - q],
        decreases k,
    {
        k = k - 1;
        out.push(v[k]);
    }
    assert(out@ =~= v@.reverse());
    out
}

/// Invierte el sentido de todos los bucles, sin tocar identidades ni
/// procedencias. Es lo que se hace cuando el volumen sale negativo: el sólido
/// estaba del revés.
pub fn invertir(caras: &mut Vec<Cara>)
    ensures
        final(caras)@.len() == old(caras)@.len(),
        forall|i: int|
            0 <= i < old(caras)@.len() ==> (#[trigger] final(caras)@[i]).id == old(caras)@[i].id
                && final(caras)@[i].prov == old(caras)@[i].prov && final(caras)@[i].bucle@
                == old(caras)@[i].bucle@.reverse(),
{
    let mut out: Vec<Cara> = Vec::new();
    let mut i: usize = 0;
    while i < caras.len()
        invariant
            i <= caras@.len(),
            caras@ == old(caras)@,
            out@.len() == i,
            forall|a: int|
                0 <= a < i ==> (#[trigger] out@[a]).id == caras@[a].id && out@[a].prov == caras@[a].prov
                    && out@[a].bucle@ == caras@[a].bucle@.reverse(),
        decreases caras@.len() - i,
    {
        let c = &caras[i];
        out.push(Cara { id: c.id, prov: c.prov, bucle: al_reves(&c.bucle) });
        i = i + 1;
    }
    *caras = out;
}

/// Los bucles de una caja: abajo, arriba, -Y, +Y, +X, -X, con los vértices
/// numerados de la esquina mínima a la máxima, primero la planta de abajo.
pub open spec fn bucles_de_caja() -> Seq<Seq<u32>> {
    seq![
        seq![0u32, 3, 2, 1],
        seq![4u32, 5, 6, 7],
        seq![0u32, 1, 5, 4],
        seq![2u32, 3, 7, 6],
        seq![1u32, 2, 6, 5],
        seq![0u32, 4, 7, 3],
    ]
}

/// Las seis caras de una caja de `owner`: la cara `i` lleva la marca
/// `box_face` `i` y viene de la primitiva `i`.
pub open spec fn caras_de_caja_s(owner: FeatureId) -> Seq<CaraV> {
    Seq::new(
        6,
        |i: int|
            (
                id_de_cara(owner, marca_de("box_face", i as u32)),
                TopoProvenance::Primitive { index: i as u32 },
                bucles_de_caja()[i],
            ),
    )
}

/// Las caras de una caja.
pub fn caras_de_caja(owner: FeatureId) -> (r: Vec<Cara>)
    ensures
        caras_v(r@) == caras_de_caja_s(owner),
{
    let bucles: [[u32; 4]; 6] = [[0, 3, 2, 1], [4, 5, 6, 7], [0, 1, 5, 4], [2, 3, 7, 6], [1, 2, 6, 5], [0, 4, 7, 3]];
    let ghost s = caras_de_caja_s(owner);
    let mut out: Vec<Cara> = Vec::new();
    let mut i: usize = 0;
    while i < 6
        invariant
            i <= 6,
            s == caras_de_caja_s(owner),
            bucles@.len() == 6,
            forall|a: int| 0 <= a < 6 ==> (#[trigger] bucles@[a])@ == bucles_de_caja()[a],
            caras_v(out@) == s.take(i as int),
        decreases 6 - i,
    {
        let b = bucles[i];
        let mut bucle: Vec<u32> = Vec::new();
        let mut q: usize = 0;
        while q < 4
            invariant
                q <= 4,
                b@.len() == 4,
                bucle@ == b@.take(q as int),
            decreases 4 - q,
        {
            bucle.push(b[q]);
            q = q + 1;
            assert(bucle@ =~= b@.take(q as int));
        }
        assert(b@.take(4) =~= b@);
        let ghost antes = out@;
        out.push(
            Cara {
                id: StableId { origin: owner, class: TopoClass::Face, mark: marca("box_face", i as u32) },
                prov: TopoProvenance::Primitive { index: i as u32 },
                bucle,
            },
        );
        proof {
            assert(caras_v(out@) =~= caras_v(antes).push(s[i as int]));
            assert(s.take(i + 1) =~= s.take(i as int).push(s[i as int]));
        }
        i = i + 1;
    }
    assert(s.take(6) =~= s);
    out
}


// ---------------------------------------------------------------------------
// Biselado: las caras del resultado
// ---------------------------------------------------------------------------

/// La arista elegida `k`.
pub open spec fn elegida(b: BiselValido, k: int) -> AristaTopologica {
    b.aristas@[b.elegidas@[k] as int]
}

/// Lo que un bisel de `b` necesita para construir sus caras: cada arista
/// elegida existe y separa dos caras, y sus extremos son vértices de `n`.
pub open spec fn bisel_construible(b: BiselValido, n_verts: u32) -> bool {
    forall|k: int|
        0 <= k < b.elegidas@.len() ==> #[trigger] b.elegidas@[k] < b.aristas@.len() && elegida(b, k).caras@.len()
            == 2 && elegida(b, k).a < n_verts && elegida(b, k).b < n_verts
}

/// La última arista elegida, de las `k` primeras, que toca el vértice `v`.
pub open spec fn tocada_hasta(b: BiselValido, v: u32, k: int) -> Option<usize>
    decreases k,
{
    if k <= 0 {
        None
    } else if elegida(b, k - 1).a == v || elegida(b, k - 1).b == v {
        Some((k - 1) as usize)
    } else {
        tocada_hasta(b, v, k - 1)
    }
}

/// La arista elegida que toca `v`, si alguna.
pub open spec fn tocada(b: BiselValido, v: u32) -> Option<usize> {
    tocada_hasta(b, v, b.elegidas@.len() as int)
}

/// Qué copia de un vértice lleva la cara `f` de la arista `e`: la de su
/// primera cara (0) o la de la segunda (1).
pub open spec fn lado(e: AristaTopologica, f: u32) -> int {
    if f == e.caras@[1] {
        1
    } else {
        0
    }
}

/// El índice de la copia del extremo `v` de la arista elegida `k` en la cara
/// de lado `j`. Las copias se numeran tras los `n` vértices originales: cuatro
/// por arista, por cada cara primero la de `a` y luego la de `b`.
pub open spec fn copia(n: u32, k: int, j: int, e: AristaTopologica, v: u32) -> u32 {
    (n + 4 * k + 2 * j + if v == e.b {
        1int
    } else {
        0int
    }) as u32
}

/// En qué se convierte el vértice `v` en el bucle de la cara `fi`: él mismo
/// si ninguna arista elegida lo toca; su copia de esa cara si la cara es de la
/// arista; si no, las dos copias, en el orden que dice `orden` para ese
/// extremo (`true`: primero la de la primera cara).
pub open spec fn vertice_biselado(b: BiselValido, orden: Seq<bool>, n: u32, fi: u32, v: u32) -> Seq<u32> {
    match tocada(b, v) {
        None => seq![v],
        Some(k) => {
            let e = elegida(b, k as int);
            let (f0, f1) = (e.caras@[0], e.caras@[1]);
            if fi == f0 || fi == f1 {
                seq![copia(n, k as int, lado(e, fi), e, v)]
            } else {
                let extremo = if v == e.b {
                    1int
                } else {
                    0int
                };
                if orden[2 * k + extremo] {
                    seq![copia(n, k as int, lado(e, f0), e, v), copia(n, k as int, lado(e, f1), e, v)]
                } else {
                    seq![copia(n, k as int, lado(e, f1), e, v), copia(n, k as int, lado(e, f0), e, v)]
                }
            }
        },
    }
}

/// El bucle de la cara `fi` tras el bisel.
pub open spec fn bucle_biselado(b: BiselValido, orden: Seq<bool>, n: u32, fi: u32, f: Seq<u32>) -> Seq<u32>
    decreases f.len(),
{
    if f.len() == 0 {
        Seq::empty()
    } else {
        bucle_biselado(b, orden, n, fi, f.drop_last()) + vertice_biselado(b, orden, n, fi, f.last())
    }
}

/// La cara `fi` tras el bisel: hereda de la original, con marca nueva.
pub open spec fn cara_heredada(b: BiselValido, orden: Seq<bool>, n: u32, owner: FeatureId, fi: int, c: Cara) -> CaraV {
    (
        id_de_cara(owner, fnv_desde(FNV_BASE, bytes_de_palabras(seq![c.id.mark, 0xA1u64]))),
        TopoProvenance::Inherited { from: c.id },
        bucle_biselado(b, orden, n, fi as u32, c.bucle@),
    )
}

/// La cara nueva de la arista elegida `k`: un cuadrilátero entre las copias
/// de sus extremos, del revés si `invertir` lo pide, que viene de la arista.
pub open spec fn cara_de_bisel(
    b: BiselValido,
    invertir: Seq<bool>,
    n: u32,
    owner: FeatureId,
    es_fillet: bool,
    k: int,
) -> CaraV {
    let e = elegida(b, k);
    let (f0, f1) = (e.caras@[0], e.caras@[1]);
    let q = seq![
        copia(n, k, lado(e, f0), e, e.a),
        copia(n, k, lado(e, f0), e, e.b),
        copia(n, k, lado(e, f1), e, e.b),
        copia(n, k, lado(e, f1), e, e.a),
    ];
    (
        id_de_cara(owner, marca_de(if es_fillet { "fillet" } else { "chamfer" }, k as u32)),
        TopoProvenance::Blend { of: e.id },
        if invertir[k] {
            q.reverse()
        } else {
            q
        },
    )
}

/// Las caras de un bisel: cada cara original, heredada y con sus vértices
/// tocados sustituidos por copias, y después una cara nueva por arista
/// elegida, en el orden de la selección.
pub open spec fn caras_de_bisel_spec(
    caras: Seq<Cara>,
    b: BiselValido,
    orden: Seq<bool>,
    invertir: Seq<bool>,
    n: u32,
    owner: FeatureId,
    es_fillet: bool,
) -> Seq<CaraV> {
    Seq::new(caras.len(), |fi: int| cara_heredada(b, orden, n, owner, fi, caras[fi])) + Seq::new(
        b.elegidas@.len(),
        |k: int| cara_de_bisel(b, invertir, n, owner, es_fillet, k),
    )
}

fn copia_exec(n: u32, k: usize, j: usize, e: &AristaTopologica, v: u32) -> (r: u32)
    requires
        j <= 1,
        n + 4 * k + 4 <= u32::MAX,
    ensures
        r == copia(n, k as int, j as int, *e, v),
{
    let extra: u32 = if v == e.b { 1 } else { 0 };
    n + 4 * (k as u32) + 2 * (j as u32) + extra
}

/// Qué arista elegida toca cada vértice.
fn tocados(b: &BiselValido, n_verts: u32) -> (r: Vec<Option<usize>>)
    requires
        bisel_construible(*b, n_verts),
    ensures
        r@.len() == n_verts,
        forall|v: int| 0 <= v < n_verts ==> #[trigger] r@[v] == tocada(*b, v as u32),
{
    let mut t: Vec<Option<usize>> = Vec::new();
    let mut v: u32 = 0;
    while v < n_verts
        invariant
            v <= n_verts,
            t@.len() == v,
            forall|w: int| 0 <= w < v ==> #[trigger] t@[w] == None::<usize>,
        decreases n_verts - v,
    {
        t.push(None);
        v = v + 1;
    }
    let mut k: usize = 0;
    while k < b.elegidas.len()
        invariant
            bisel_construible(*b, n_verts),
            k <= b.elegidas@.len(),
            t@.len() == n_verts,
            forall|w: int| 0 <= w < n_verts ==> #[trigger] t@[w] == tocada_hasta(*b, w as u32, k as int),
        decreases b.elegidas@.len() - k,
    {
        assert(b.elegidas@[k as int] < b.aristas@.len());
        let e = &b.aristas[b.elegidas[k]];
        t.set(e.a as usize, Some(k));
        t.set(e.b as usize, Some(k));
        k = k + 1;
    }
    t
}

/// Las caras de un bisel sobre las aristas de `bisel`, con los vértices
/// nuevos numerados a partir de `n_verts`. Las dos decisiones que dependen de
/// la geometría llegan hechas: en qué orden entran las dos copias de un
/// extremo en la tercera cara de su esquina (`orden`, dos por arista) y si el
/// cuadrilátero nuevo hay que darle la vuelta para que mire afuera
/// (`invertir`, uno por arista).
pub fn caras_de_bisel(
    caras: &Vec<Cara>,
    bisel: &BiselValido,
    orden: &Vec<bool>,
    invertir: &Vec<bool>,
    n_verts: u32,
    owner: FeatureId,
    es_fillet: bool,
) -> (r: Vec<Cara>)
    requires
        bisel_construible(*bisel, n_verts),
        orden@.len() == 2 * bisel.elegidas@.len(),
        invertir@.len() == bisel.elegidas@.len(),
        n_verts + 4 * bisel.elegidas@.len() <= u32::MAX,
        caras@.len() <= u32::MAX,
        forall|i: int, j: int|
            0 <= i < caras@.len() && 0 <= j < caras@[i].bucle@.len() ==> caras@[i].bucle@[j] < n_verts,
    ensures
        caras_v(r@) == caras_de_bisel_spec(caras@, *bisel, orden@, invertir@, n_verts, owner, es_fillet),
{
    let t = tocados(bisel, n_verts);
    let ghost sp = caras_de_bisel_spec(caras@, *bisel, orden@, invertir@, n_verts, owner, es_fillet);
    let mut out: Vec<Cara> = Vec::new();
    let mut fi: usize = 0;
    while fi < caras.len()
        invariant
            bisel_construible(*bisel, n_verts),
            orden@.len() == 2 * bisel.elegidas@.len(),
            n_verts + 4 * bisel.elegidas@.len() <= u32::MAX,
            caras@.len() <= u32::MAX,
            forall|i: int, j: int|
                0 <= i < caras@.len() && 0 <= j < caras@[i].bucle@.len() ==> caras@[i].bucle@[j] < n_verts,
            t@.len() == n_verts,
            forall|v: int| 0 <= v < n_verts ==> #[trigger] t@[v] == tocada(*bisel, v as u32),
            fi <= caras@.len(),
            sp == caras_de_bisel_spec(caras@, *bisel, orden@, invertir@, n_verts, owner, es_fillet),
            caras_v(out@) == sp.take(fi as int),
        decreases caras@.len() - fi,
    {
        let c = &caras[fi];
        let f = fi as u32;
        let mut bucle: Vec<u32> = Vec::new();
        let mut i: usize = 0;
        while i < c.bucle.len()
            invariant
                bisel_construible(*bisel, n_verts),
                orden@.len() == 2 * bisel.elegidas@.len(),
                n_verts + 4 * bisel.elegidas@.len() <= u32::MAX,
                forall|j: int| 0 <= j < c.bucle@.len() ==> c.bucle@[j] < n_verts,
                t@.len() == n_verts,
                forall|v: int| 0 <= v < n_verts ==> #[trigger] t@[v] == tocada(*bisel, v as u32),
                i <= c.bucle@.len(),
                bucle@ == bucle_biselado(*bisel, orden@, n_verts, f, c.bucle@.take(i as int)),
            decreases c.bucle@.len() - i,
        {
            let v = c.bucle[i];
            let ghost antes = bucle@;
            assert(c.bucle@.take(i + 1).drop_last() =~= c.bucle@.take(i as int));
            assert(t@[v as int] == tocada(*bisel, v));
            match t[v as usize] {
                None => {
                    bucle.push(v);
                },
                Some(k) => {
                    proof {
                        lema_tocada_rango(*bisel, v, bisel.elegidas@.len() as int);
                    }
                    let e = &bisel.aristas[bisel.elegidas[k]];
                    let f0 = e.caras[0];
                    let f1 = e.caras[1];
                    if f == f0 || f == f1 {
                        let j: usize = if f == f1 { 1 } else { 0 };
                        bucle.push(copia_exec(n_verts, k, j, e, v));
                    } else {
                        let extremo: usize = if v == e.b { 1 } else { 0 };
                        let j0: usize = if f0 == f1 { 1 } else { 0 };
                        if orden[2 * k + extremo] {
                            bucle.push(copia_exec(n_verts, k, j0, e, v));
                            bucle.push(copia_exec(n_verts, k, 1, e, v));
                        } else {
                            bucle.push(copia_exec(n_verts, k, 1, e, v));
                            bucle.push(copia_exec(n_verts, k, j0, e, v));
                        }
                    }
                },
            }
            assert(bucle@ =~= antes + vertice_biselado(*bisel, orden@, n_verts, f, v));
            i = i + 1;
        }
        assert(c.bucle@.take(c.bucle@.len() as int) =~= c.bucle@);
        let ghost previas = out@;
        out.push(
            Cara {
                id: StableId {
                    origin: owner,
                    class: TopoClass::Face,
                    mark: fnv(&[c.id.mark, 0xA1u64]),
                },
                prov: TopoProvenance::Inherited { from: c.id },
                bucle,
            },
        );
        proof {
            assert(seq![c.id.mark, 0xA1u64] =~= seq![c.id.mark, 0xA1u64]);
            assert(caras_v(out@) =~= caras_v(previas).push(sp[fi as int]));
            assert(sp.take(fi + 1) =~= sp.take(fi as int).push(sp[fi as int]));
        }
        fi = fi + 1;
    }
    let base = caras.len();
    let mut k: usize = 0;
    while k < bisel.elegidas.len()
        invariant
            bisel_construible(*bisel, n_verts),
            invertir@.len() == bisel.elegidas@.len(),
            n_verts + 4 * bisel.elegidas@.len() <= u32::MAX,
            base == caras@.len(),
            k <= bisel.elegidas@.len(),
            sp == caras_de_bisel_spec(caras@, *bisel, orden@, invertir@, n_verts, owner, es_fillet),
            caras_v(out@) == sp.take(base + k),
        decreases bisel.elegidas@.len() - k,
    {
        assert(bisel.elegidas@[k as int] < bisel.aristas@.len());
        let e = &bisel.aristas[bisel.elegidas[k]];
        let f0 = e.caras[0];
        let f1 = e.caras[1];
        let j0: usize = if f0 == f1 { 1 } else { 0 };
        let mut q: Vec<u32> = Vec::new();
        if invertir[k] {
            q.push(copia_exec(n_verts, k, 1, e, e.a));
            q.push(copia_exec(n_verts, k, 1, e, e.b));
            q.push(copia_exec(n_verts, k, j0, e, e.b));
            q.push(copia_exec(n_verts, k, j0, e, e.a));
        } else {
            q.push(copia_exec(n_verts, k, j0, e, e.a));
            q.push(copia_exec(n_verts, k, j0, e, e.b));
            q.push(copia_exec(n_verts, k, 1, e, e.b));
            q.push(copia_exec(n_verts, k, 1, e, e.a));
        }
        let etiqueta = if es_fillet { "fillet" } else { "chamfer" };
        let ghost cara = cara_de_bisel(*bisel, invertir@, n_verts, owner, es_fillet, k as int);
        assert(q@ =~= cara.2);
        let ghost previas = out@;
        out.push(
            Cara {
                id: StableId { origin: owner, class: TopoClass::Face, mark: marca(etiqueta, k as u32) },
                prov: TopoProvenance::Blend { of: e.id },
                bucle: q,
            },
        );
        proof {
            assert(sp[base + k] == cara);
            assert(caras_v(out@) =~= caras_v(previas).push(cara));
            assert(sp.take(base + k + 1) =~= sp.take(base + k).push(sp[base + k]));
        }
        k = k + 1;
    }
    assert(sp.take(base + bisel.elegidas@.len()) =~= sp);
    out
}

proof fn lema_tocada_rango(b: BiselValido, v: u32, k: int)
    requires
        0 <= k <= b.elegidas@.len(),
        k <= usize::MAX,
    ensures
        tocada_hasta(b, v, k) matches Some(i) ==> i < k && (elegida(b, i as int).a == v || elegida(b, i as int).b == v),
    decreases k,
{
    if k > 0 {
        lema_tocada_rango(b, v, k - 1);
    }
}

} // verus!
