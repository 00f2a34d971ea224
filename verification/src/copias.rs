//! La topología de los modificadores que copian la malla: la simetría añade
//! una copia espejada de cada cara, y la repetición `copias` desplazadas. Las
//! posiciones (aritmética real) las pone quien llama; aquí se decide qué caras
//! salen, con qué vértices y de qué cara vienen.

use vstd::prelude::*;

use crate::ids::StableId;
use crate::mesh::{bucles, Face};
use crate::modifiers::origen_de;

verus! {

/// La cara espejada: el bucle al revés empezando por el mismo vértice
/// (`v0, v(n-1), …, v1`), con los índices desplazados `base`. Invertir el
/// bucle es lo que mantiene las normales hacia fuera en la copia reflejada.
pub open spec fn espejo_de(f: Seq<u32>, base: int) -> Seq<u32> {
    Seq::new(f.len(), |i: int| (f[(f.len() - i) % (f.len() as int)] + base) as u32)
}

/// Los índices de `f` desplazados `d`.
pub open spec fn desplazada(f: Seq<u32>, d: int) -> Seq<u32> {
    Seq::new(f.len(), |i: int| (f[i] + d) as u32)
}

/// Todos los índices de las caras más `d` caben en un `u32`.
pub open spec fn cabe_desplazada(c: Seq<Seq<u32>>, d: int) -> bool {
    forall|i: int, j: int| 0 <= i < c.len() && 0 <= j < c[i].len() ==> c[i][j] + d <= u32::MAX
}

/// Una cara espejada por cara, con la misma procedencia.
pub fn caras_espejadas(faces: &Vec<Face>, origen: &Vec<Option<StableId>>, base: u32) -> (r: (
    Vec<Face>,
    Vec<Option<StableId>>,
))
    requires
        forall|i: int| 0 <= i < faces@.len() ==> (#[trigger] faces@[i]).verts@.len() > 0,
        cabe_desplazada(bucles(faces@), base as int),
    ensures
        bucles(r.0@) == Seq::new(faces@.len(), |i: int| espejo_de(bucles(faces@)[i], base as int)),
        r.1@ == Seq::new(faces@.len(), |i: int| origen_de(origen@, i)),
{
    let mut out: Vec<Face> = Vec::new();
    let mut prov: Vec<Option<StableId>> = Vec::new();
    let mut fi: usize = 0;
    while fi < faces.len()
        invariant
            fi <= faces@.len(),
            forall|i: int| 0 <= i < faces@.len() ==> (#[trigger] faces@[i]).verts@.len() > 0,
            cabe_desplazada(bucles(faces@), base as int),
            bucles(out@) == Seq::new(fi as nat, |i: int| espejo_de(bucles(faces@)[i], base as int)),
            prov@ == Seq::new(fi as nat, |i: int| origen_de(origen@, i)),
        decreases faces@.len() - fi,
    {
        let f = &faces[fi].verts;
        let n = f.len();
        let ghost fv = bucles(faces@)[fi as int];
        assert(fv == f@);
        let mut vs: Vec<u32> = Vec::new();
        let mut i: usize = 0;
        while i < n
            invariant
                n == f@.len(),
                n > 0,
                i <= n,
                fv == f@,
                forall|j: int| 0 <= j < n ==> f@[j] + base <= u32::MAX,
                vs@ == espejo_de(f@, base as int).take(i as int),
            decreases n - i,
        {
            let k = if i == 0 { 0 } else { n - i };
            proof {
                let nn = n as int;
                let ii = i as int;
                if i == 0 {
                    assert(nn % nn == 0) by (nonlinear_arith)
                        requires
                            nn > 0,
                    ;
                } else {
                    assert((nn - ii) % nn == nn - ii) by (nonlinear_arith)
                        requires
                            0 < nn - ii < nn,
                    ;
                }
            }
            vs.push(f[k] + base);
            i = i + 1;
            assert(vs@ =~= espejo_de(f@, base as int).take(i as int));
        }
        assert(espejo_de(f@, base as int).take(n as int) =~= espejo_de(f@, base as int));
        let ghost antes = bucles(out@);
        out.push(Face { verts: vs });
        let o = if fi < origen.len() { origen[fi] } else { None };
        prov.push(o);
        proof {
            assert(bucles(out@) =~= antes.push(espejo_de(fv, base as int)));
            assert(bucles(out@) =~= Seq::new((fi + 1) as nat, |i: int| espejo_de(bucles(faces@)[i], base as int)));
            assert(prov@ =~= Seq::new((fi + 1) as nat, |i: int| origen_de(origen@, i)));
        }
        fi = fi + 1;
    }
    (out, prov)
}

/// Las caras de `copias` copias de la malla, la `k` con los índices
/// desplazados `k·nv`, cada una con la procedencia de su cara original.
pub open spec fn caras_en_copias(c: Seq<Seq<u32>>, nv: int, copias: int) -> Seq<Seq<u32>> {
    let n = c.len() as int;
    Seq::new((copias * n) as nat, |t: int| desplazada(c[t % n], (t / n) * nv))
}

pub open spec fn origen_en_copias(p: Seq<Option<StableId>>, n: int, copias: int) -> Seq<Option<StableId>> {
    Seq::new((copias * n) as nat, |t: int| origen_de(p, t % n))
}

/// Las caras repetidas.
pub fn caras_repetidas(faces: &Vec<Face>, origen: &Vec<Option<StableId>>, copias: u32, nv: u32) -> (r: (
    Vec<Face>,
    Vec<Option<StableId>>,
))
    requires
        copias as int * faces@.len() <= usize::MAX,
        copias > 0 ==> cabe_desplazada(bucles(faces@), (copias - 1) * nv),
        copias > 0 ==> (copias - 1) * nv <= u32::MAX,
    ensures
        bucles(r.0@) == caras_en_copias(bucles(faces@), nv as int, copias as int),
        r.1@ == origen_en_copias(origen@, faces@.len() as int, copias as int),
{
    let mut out: Vec<Face> = Vec::new();
    let mut prov: Vec<Option<StableId>> = Vec::new();
    let nf = faces.len();
    let ghost c = bucles(faces@);
    let mut k: u32 = 0;
    while k < copias
        invariant
            nf == faces@.len(),
            c == bucles(faces@),
            k <= copias,
            copias as int * nf <= usize::MAX,
            copias > 0 ==> cabe_desplazada(c, (copias - 1) * nv),
            copias > 0 ==> (copias - 1) * nv <= u32::MAX,
            bucles(out@) == caras_en_copias(c, nv as int, k as int),
            prov@ == origen_en_copias(origen@, nf as int, k as int),
        decreases copias - k,
    {
        assert(k as int * nv <= (copias - 1) * nv) by (nonlinear_arith)
            requires
                k < copias,
        ;
        let d: u32 = k * nv;
        let mut fi: usize = 0;
        while fi < nf
            invariant
                nf == faces@.len(),
                c == bucles(faces@),
                k < copias,
                d == k * nv,
                cabe_desplazada(c, d as int),
                fi <= nf,
                bucles(out@) == caras_en_copias(c, nv as int, k as int) + Seq::new(
                    fi as nat,
                    |i: int| desplazada(c[i], d as int),
                ),
                prov@ == origen_en_copias(origen@, nf as int, k as int) + Seq::new(
                    fi as nat,
                    |i: int| origen_de(origen@, i),
                ),
            decreases nf - fi,
        {
            let f = &faces[fi].verts;
            let mut vs: Vec<u32> = Vec::new();
            let mut j: usize = 0;
            assert(c[fi as int] == f@);
            while j < f.len()
                invariant
                    j <= f@.len(),
                    c[fi as int] == f@,
                    forall|q: int| 0 <= q < f@.len() ==> f@[q] + d <= u32::MAX,
                    vs@ == desplazada(f@, d as int).take(j as int),
                decreases f@.len() - j,
            {
                vs.push(f[j] + d);
                j = j + 1;
                assert(vs@ =~= desplazada(f@, d as int).take(j as int));
            }
            assert(desplazada(f@, d as int).take(f@.len() as int) =~= desplazada(f@, d as int));
            let ghost b0 = bucles(out@);
            out.push(Face { verts: vs });
            let o = if fi < origen.len() { origen[fi] } else { None };
            prov.push(o);
            proof {
                assert(bucles(out@) =~= b0.push(desplazada(c[fi as int], d as int)));
                assert(bucles(out@) =~= caras_en_copias(c, nv as int, k as int) + Seq::new(
                    (fi + 1) as nat,
                    |i: int| desplazada(c[i], d as int),
                ));
                assert(prov@ =~= origen_en_copias(origen@, nf as int, k as int) + Seq::new(
                    (fi + 1) as nat,
                    |i: int| origen_de(origen@, i),
                ));
            }
            fi = fi + 1;
        }
        proof {
            lema_copias_siguiente(c, nv as int, k as int);
            lema_origen_siguiente(origen@, nf as int, k as int);
        }
        k = k + 1;
    }
    (out, prov)
}

proof fn lema_copias_siguiente(c: Seq<Seq<u32>>, nv: int, k: int)
    requires
        k >= 0,
    ensures
        caras_en_copias(c, nv, k + 1) == caras_en_copias(c, nv, k) + Seq::new(
            c.len(),
            |i: int| desplazada(c[i], k * nv),
        ),
{
    let n = c.len() as int;
    let a = caras_en_copias(c, nv, k + 1);
    let b = caras_en_copias(c, nv, k) + Seq::new(c.len(), |i: int| desplazada(c[i], k * nv));
    assert((k + 1) * n == k * n + n) by (nonlinear_arith);
    assert(k * n >= 0) by (nonlinear_arith)
        requires
            k >= 0,
            n >= 0,
    ;
    assert forall|t: int| 0 <= t < a.len() implies a[t] == b[t] by {
        if t >= k * n {
            let i = t - k * n;
            assert(t % n == i && t / n == k) by (nonlinear_arith)
                requires
                    t == k * n + i,
                    0 <= i < n,
            ;
        }
    }
    assert(a =~= b);
}

proof fn lema_origen_siguiente(p: Seq<Option<StableId>>, n: int, k: int)
    requires
        k >= 0,
        n >= 0,
    ensures
        origen_en_copias(p, n, k + 1) == origen_en_copias(p, n, k) + Seq::new(n as nat, |i: int| origen_de(p, i)),
{
    let a = origen_en_copias(p, n, k + 1);
    let b = origen_en_copias(p, n, k) + Seq::new(n as nat, |i: int| origen_de(p, i));
    assert((k + 1) * n == k * n + n) by (nonlinear_arith);
    assert(k * n >= 0) by (nonlinear_arith)
        requires
            k >= 0,
            n >= 0,
    ;
    assert forall|t: int| 0 <= t < a.len() implies a[t] == b[t] by {
        if t >= k * n {
            let i = t - k * n;
            assert(t % n == i) by (nonlinear_arith)
                requires
                    t == k * n + i,
                    0 <= i < n,
            ;
        }
    }
    assert(a =~= b);
}


proof fn lema_media_arista_espejada(f: Seq<u32>, base: int, i: int)
    requires
        0 <= i < f.len(),
        base >= 0,
        forall|j: int| 0 <= j < f.len() ==> f[j] + base <= u32::MAX,
    ensures
        espejo_de(f, base)[f.len() - 1 - i] == f[(i + 1) % (f.len() as int)] + base,
        espejo_de(f, base)[(f.len() - i) % (f.len() as int)] == f[i] + base,
{
    let n = f.len() as int;
    let e = espejo_de(f, base);
    let j = n - 1 - i;
    assert(n - j == i + 1);
    vstd::arithmetic::div_mod::lemma_mod_bound(i + 1, n);
    assert(e[j] == (f[(i + 1) % n] + base) as u32);
    if i == 0 {
        vstd::arithmetic::div_mod::lemma_mod_self_0(n);
        assert(e[0] == (f[n % n] + base) as u32);
    } else {
        vstd::arithmetic::div_mod::lemma_small_mod((n - i) as nat, n as nat);
        vstd::arithmetic::div_mod::lemma_small_mod(i as nat, n as nat);
        assert(n - (n - i) == i);
        assert(e[n - i] == (f[i % n] + base) as u32);
    }
}

/// La media arista `i` de un bucle: de `f[i]` al vértice siguiente.
pub open spec fn media_arista(f: Seq<u32>, i: int) -> (u32, u32) {
    (f[i], f[(i + 1) % (f.len() as int)])
}

/// La copia espejada de una cara tiene la orientación contraria: empieza en
/// el mismo vértice (desplazado) y la media arista `i` del original,
/// `u → v`, aparece en la copia al revés, `v → u`, como su media arista
/// `n - 1 - i`. Es lo que mantiene hacia fuera las normales de la mitad
/// reflejada, sea la cara un triángulo o un polígono.
pub proof fn ley_espejo_invierte_la_orientacion(f: Seq<u32>, base: int)
    requires
        f.len() >= 1,
        base >= 0,
        forall|j: int| 0 <= j < f.len() ==> f[j] + base <= u32::MAX,
    ensures
        espejo_de(f, base).len() == f.len(),
        espejo_de(f, base)[0] == f[0] + base,
        forall|i: int|
            0 <= i < f.len() ==> media_arista(espejo_de(f, base), f.len() - 1 - i) == (
                (#[trigger] media_arista(f, i).1 + base) as u32,
                (media_arista(f, i).0 + base) as u32,
            ),
{
    let n = f.len() as int;
    lema_media_arista_espejada(f, base, 0);
    vstd::arithmetic::div_mod::lemma_mod_self_0(n);
    assert forall|i: int| 0 <= i < n implies media_arista(espejo_de(f, base), n - 1 - i) == (
        (#[trigger] media_arista(f, i).1 + base) as u32,
        (media_arista(f, i).0 + base) as u32,
    ) by {
        lema_media_arista_espejada(f, base, i);
        assert((n - 1 - i + 1) == n - i);
    }
}

} // verus!
