//! Soldadura de vértices coincidentes y la puerta del dominio exacto al
//! discreto.
//!
//! Qué vértices coinciden lo decide una clave por vértice (su posición
//! cuantizada): calcularla es coma flotante y se hace fuera. Con las claves
//! dadas, todo lo demás —qué vértice sobrevive, cómo se renumeran las caras,
//! qué caras colapsan y qué procedencia conservan— se decide aquí.

use vstd::prelude::*;

use crate::adyacencia::indices_en_rango;
use crate::ids::StableId;
use crate::kernel::{DefectoDeTeselado, Tessellation};
use crate::mesh::{bucles, Corrupcion, Face, Mesh, MeshError, ProvenanceMap};
use crate::modifiers::origen_de;
use crate::vector::DVec3;

verus! {

/// La clave de soldadura de un vértice: su posición cuantizada.
pub type Clave = (i64, i64, i64);

/// Índice de la primera aparición de `k` en `s`, o `s.len()` si no aparece.
pub open spec fn primera(s: Seq<Clave>, k: Clave) -> int
    decreases s.len(),
{
    if s.len() == 0 {
        0
    } else if s[0] == k {
        0
    } else {
        1 + primera(s.drop_first(), k)
    }
}

/// Las claves distintas, en el orden de su primera aparición.
pub open spec fn unicas(s: Seq<Clave>) -> Seq<Clave>
    decreases s.len(),
{
    if s.len() == 0 {
        Seq::empty()
    } else {
        let u = unicas(s.drop_last());
        if s.drop_last().contains(s.last()) {
            u
        } else {
            u.push(s.last())
        }
    }
}

/// Los vértices que sobreviven: el primero de cada clave, en orden.
pub open spec fn representantes(s: Seq<Clave>) -> Seq<int>
    decreases s.len(),
{
    if s.len() == 0 {
        Seq::empty()
    } else {
        let r = representantes(s.drop_last());
        if s.drop_last().contains(s.last()) {
            r
        } else {
            r.push(s.len() - 1)
        }
    }
}

/// El índice nuevo de cada vértice: la posición de su clave entre las únicas.
pub open spec fn renumeracion(s: Seq<Clave>) -> Seq<u32> {
    Seq::new(s.len(), |j: int| primera(unicas(s), s[j]) as u32)
}

/// Quita los repetidos consecutivos, dejando el primero de cada racha.
pub open spec fn sin_rachas(s: Seq<u32>) -> Seq<u32>
    decreases s.len(),
{
    if s.len() == 0 {
        Seq::empty()
    } else {
        let d = sin_rachas(s.drop_last());
        if d.len() > 0 && d.last() == s.last() {
            d
        } else {
            d.push(s.last())
        }
    }
}

/// Un bucle que se cierra sobre sí mismo pierde el último vértice repetido.
pub open spec fn sin_cierre(d: Seq<u32>) -> Seq<u32> {
    if d.len() > 1 && d[0] == d.last() {
        d.drop_last()
    } else {
        d
    }
}

/// Un bucle de cara renumerado y limpio.
pub open spec fn bucle_soldado(f: Seq<u32>, r: Seq<u32>) -> Seq<u32> {
    sin_cierre(sin_rachas(f.map_values(|v: u32| r[v as int])))
}

/// Las caras que sobreviven a la soldadura: las que conservan tres vértices.
pub open spec fn caras_soldadas(c: Seq<Seq<u32>>, r: Seq<u32>) -> Seq<Seq<u32>>
    decreases c.len(),
{
    if c.len() == 0 {
        Seq::empty()
    } else {
        let previas = caras_soldadas(c.drop_last(), r);
        let b = bucle_soldado(c.last(), r);
        if b.len() >= 3 {
            previas.push(b)
        } else {
            previas
        }
    }
}

/// La procedencia de las caras que sobreviven.
pub open spec fn prov_soldada(c: Seq<Seq<u32>>, r: Seq<u32>, p: Seq<Option<StableId>>) -> Seq<
    Option<StableId>,
>
    decreases c.len(),
{
    if c.len() == 0 {
        Seq::empty()
    } else {
        let previas = prov_soldada(c.drop_last(), r, p);
        if bucle_soldado(c.last(), r).len() >= 3 {
            previas.push(origen_de(p, c.len() - 1))
        } else {
            previas
        }
    }
}

/// `r` es el resultado de soldar, con las claves `k`, una malla de esas
/// posiciones, normales, caras y procedencia.
pub open spec fn soldada_de(
    pos: Seq<DVec3>,
    nor: Seq<DVec3>,
    caras: Seq<Seq<u32>>,
    prov: Seq<Option<StableId>>,
    k: Seq<Clave>,
    r: &Mesh,
) -> bool {
    let rep = representantes(k);
    let ren = renumeracion(k);
    &&& r.positions@ == Seq::new(rep.len(), |i: int| pos[rep[i]])
    &&& r.normals@ == (if nor.len() == 0 {
        Seq::empty()
    } else {
        Seq::new(rep.len(), |i: int| nor[rep[i]])
    })
    &&& r.uvs@.len() == 0
    &&& r.caras() == caras_soldadas(caras, ren)
    &&& r.prov.face_origin@ == prov_soldada(caras, ren, prov)
}

/// El resultado de soldar `m` con las claves `k`.
pub open spec fn soldada(m: &Mesh, k: Seq<Clave>, r: &Mesh) -> bool {
    soldada_de(m.positions@, m.normals@, m.caras(), m.prov.face_origin@, k, r)
}

proof fn lema_primera(s: Seq<Clave>, k: Clave)
    ensures
        s.contains(k) ==> 0 <= primera(s, k) < s.len() && s[primera(s, k)] == k,
        !s.contains(k) ==> primera(s, k) == s.len(),
        forall|j: int| 0 <= j < primera(s, k) && j < s.len() ==> s[j] != k,
    decreases s.len(),
{
    if s.len() > 0 {
        lema_primera(s.drop_first(), k);
        if s[0] != k {
            if s.contains(k) {
                let j = choose|j: int| 0 <= j < s.len() && s[j] == k;
                assert(s.drop_first()[j - 1] == k);
            }
            if s.drop_first().contains(k) {
                let j = choose|j: int| 0 <= j < s.drop_first().len() && s.drop_first()[j] == k;
                assert(s[j + 1] == k);
            }
            assert forall|j: int| 0 <= j < primera(s, k) && j < s.len() implies s[j] != k by {
                if j > 0 {
                    assert(s[j] == s.drop_first()[j - 1]);
                }
            }
        }
    }
}

/// Alargar una secuencia no cambia la primera aparición de lo que ya estaba.
proof fn lema_primera_concat(s: Seq<Clave>, t: Seq<Clave>, k: Clave)
    ensures
        s.contains(k) ==> primera(s + t, k) == primera(s, k),
        !s.contains(k) ==> primera(s + t, k) == s.len() + primera(t, k),
    decreases s.len(),
{
    if s.len() > 0 {
        assert((s + t).drop_first() =~= s.drop_first() + t);
        lema_primera_concat(s.drop_first(), t, k);
        if s[0] != k && s.contains(k) {
            let j = choose|j: int| 0 <= j < s.len() && s[j] == k;
            assert(s.drop_first()[j - 1] == k);
        }
        if s.drop_first().contains(k) {
            let j = choose|j: int| 0 <= j < s.drop_first().len() && s.drop_first()[j] == k;
            assert(s[j + 1] == k);
        }
    } else {
        assert(s + t =~= t);
    }
}

/// Las únicas tienen los mismos elementos, y cada una es la clave de su
/// representante.
proof fn lema_unicas(s: Seq<Clave>)
    ensures
        unicas(s).len() == representantes(s).len(),
        unicas(s).len() <= s.len(),
        forall|x: Clave| s.contains(x) <==> unicas(s).contains(x),
        forall|t: int| 0 <= t < unicas(s).len() ==> 0 <= #[trigger] representantes(s)[t] < s.len()
            && unicas(s)[t] == s[representantes(s)[t]],
    decreases s.len(),
{
    if s.len() > 0 {
        let p = s.drop_last();
        lema_unicas(p);
        assert forall|x: Clave| s.contains(x) <==> unicas(s).contains(x) by {
            if s.contains(x) {
                let j = choose|j: int| 0 <= j < s.len() && s[j] == x;
                if j < p.len() {
                    assert(p[j] == x);
                    assert(p.contains(x));
                    let t = choose|t: int| 0 <= t < unicas(p).len() && unicas(p)[t] == x;
                    assert(unicas(s)[t] == x);
                } else if !p.contains(x) {
                    assert(unicas(s)[unicas(p).len() as int] == x);
                } else {
                    let t = choose|t: int| 0 <= t < unicas(p).len() && unicas(p)[t] == x;
                    assert(unicas(s)[t] == x);
                }
            }
            if unicas(s).contains(x) {
                let t = choose|t: int| 0 <= t < unicas(s).len() && unicas(s)[t] == x;
                if t < unicas(p).len() {
                    assert(unicas(p)[t] == x);
                    assert(unicas(p).contains(x));
                    assert(p.contains(x));
                    let j = choose|j: int| 0 <= j < p.len() && p[j] == x;
                    assert(s[j] == x);
                } else {
                    assert(s[s.len() - 1] == x);
                }
            }
        }
        assert forall|t: int| 0 <= t < unicas(s).len() implies 0 <= #[trigger] representantes(s)[t] < s.len()
            && unicas(s)[t] == s[representantes(s)[t]] by {
            if t < unicas(p).len() {
                assert(representantes(s)[t] == representantes(p)[t]);
                assert(unicas(s)[t] == unicas(p)[t]);
                assert(p[representantes(p)[t]] == s[representantes(p)[t]]);
            }
        }
    }
}

/// Busca una clave entre las ya vistas.
fn buscar_clave(v: &Vec<Clave>, k: Clave) -> (r: Option<usize>)
    ensures
        r is None <==> !v@.contains(k),
        r matches Some(i) ==> i == primera(v@, k),
{
    let mut i: usize = 0;
    while i < v.len()
        invariant
            i <= v@.len(),
            forall|j: int| 0 <= j < i ==> v@[j] != k,
        decreases v@.len() - i,
    {
        let (a, b, c) = v[i];
        if a == k.0 && b == k.1 && c == k.2 {
            proof {
                assert(v@[i as int] == k);
                lema_primera(v@, k);
                if primera(v@, k) < i {
                    assert(v@[primera(v@, k)] != k);
                }
            }
            return Some(i);
        }
        i = i + 1;
    }
    None
}

/// Quita los repetidos consecutivos.
fn quitar_rachas(s: &Vec<u32>) -> (r: Vec<u32>)
    ensures
        r@ == sin_rachas(s@),
{
    let mut out: Vec<u32> = Vec::new();
    let mut i: usize = 0;
    assert(s@.take(0) =~= Seq::<u32>::empty());
    while i < s.len()
        invariant
            i <= s@.len(),
            out@ == sin_rachas(s@.take(i as int)),
        decreases s@.len() - i,
    {
        assert(s@.take(i + 1).drop_last() =~= s@.take(i as int));
        if out.len() == 0 || out[out.len() - 1] != s[i] {
            out.push(s[i]);
        }
        i = i + 1;
    }
    assert(s@.take(s@.len() as int) =~= s@);
    out
}

/// Renumera un bucle y lo limpia.
pub(crate) fn soldar_bucle(f: &Vec<u32>, remap: &Vec<u32>) -> (r: Vec<u32>)
    requires
        forall|j: int| 0 <= j < f@.len() ==> f@[j] < remap@.len(),
    ensures
        r@ == bucle_soldado(f@, remap@),
{
    let mut vs: Vec<u32> = Vec::new();
    let mut i: usize = 0;
    while i < f.len()
        invariant
            i <= f@.len(),
            forall|j: int| 0 <= j < f@.len() ==> f@[j] < remap@.len(),
            vs@ == f@.take(i as int).map_values(|v: u32| remap@[v as int]),
        decreases f@.len() - i,
    {
        vs.push(remap[f[i] as usize]);
        i = i + 1;
        assert(vs@ =~= f@.take(i as int).map_values(|v: u32| remap@[v as int]));
    }
    assert(f@.take(f@.len() as int) =~= f@);
    let mut d = quitar_rachas(&vs);
    if d.len() > 1 && d[0] == d[d.len() - 1] {
        d.pop();
        assert(d@ =~= sin_rachas(vs@).drop_last());
    }
    d
}

/// Los vértices que sobreviven a la soldadura con las claves `claves` (el
/// primero de cada clave, en orden) y el índice nuevo de cada vértice.
pub fn renumerar(claves: &Vec<Clave>) -> (r: (Vec<usize>, Vec<u32>))
    requires
        claves@.len() < u32::MAX,
    ensures
        r.0@.len() == representantes(claves@).len(),
        forall|t: int| 0 <= t < r.0@.len() ==> r.0@[t] as int == #[trigger] representantes(claves@)[t],
        r.1@ == renumeracion(claves@),
{
    let n = claves.len();
    let ghost k = claves@;
    let mut vistas: Vec<Clave> = Vec::new();
    let mut reps: Vec<usize> = Vec::new();
    let mut remap: Vec<u32> = Vec::new();
    let mut i: usize = 0;
    assert(k.take(0) =~= Seq::<Clave>::empty());
    while i < n
        invariant
            n == claves@.len(),
            n < u32::MAX,
            k == claves@,
            i <= n,
            vistas@ == unicas(k.take(i as int)),
            reps@.len() == representantes(k.take(i as int)).len(),
            forall|t: int| 0 <= t < reps@.len() ==> reps@[t] as int == #[trigger] representantes(k.take(i as int))[t],
            remap@ == renumeracion(k.take(i as int)),
        decreases n - i,
    {
        let ghost pre = k.take(i as int);
        let ghost post = k.take(i + 1);
        let clave = claves[i];
        proof {
            assert(post.drop_last() =~= pre);
            assert(post.last() == k[i as int]);
            lema_unicas(pre);
        }
        match buscar_clave(&vistas, clave) {
            Some(p) => {
                proof {
                    assert(pre.contains(clave));
                    assert(unicas(post) == unicas(pre));
                    assert(representantes(post) == representantes(pre));
                }
                remap.push(p as u32);
                proof {
                    assert forall|j: int| 0 <= j < i + 1 implies #[trigger] remap@[j] == renumeracion(
                        post,
                    )[j] by {
                        if j < i {
                            assert(post[j] == pre[j]);
                        }
                    }
                    assert(remap@ =~= renumeracion(post));
                }
            },
            None => {
                proof {
                    assert(!pre.contains(clave));
                    lema_primera_concat(unicas(pre), seq![clave], clave);
                    assert(unicas(post) =~= unicas(pre) + seq![clave]);
                }
                let nuevo = vistas.len() as u32;
                vistas.push(clave);
                reps.push(i);
                remap.push(nuevo);
                proof {
                    assert forall|j: int| 0 <= j < i + 1 implies #[trigger] remap@[j] == renumeracion(
                        post,
                    )[j] by {
                        if j < i {
                            assert(post[j] == pre[j]);
                            assert(pre.contains(pre[j]));
                            assert(unicas(pre).contains(pre[j]));
                            lema_primera_concat(unicas(pre), seq![clave], pre[j]);
                        } else {
                            lema_primera(seq![clave], clave);
                        }
                    }
                    assert(remap@ =~= renumeracion(post));
                    assert(representantes(post) =~= representantes(pre).push(i as int));
                }
            },
        }
        i = i + 1;
    }
    proof {
        assert(k.take(n as int) =~= k);
    }
    (reps, remap)
}

/// Suelda los vértices con la misma clave y renumera las caras. La
/// procedencia de las caras que sobreviven no se toca; una cara que colapsa a
/// menos de tres vértices desaparece.
pub fn soldar_por_claves(m: &Mesh, claves: &Vec<Clave>) -> (r: Mesh)
    requires
        claves@.len() == m.positions@.len(),
        m.positions@.len() < u32::MAX,
        m.normals@.len() == 0 || m.normals@.len() >= m.positions@.len(),
        indices_en_rango(m),
    ensures
        soldada(m, claves@, &r),
{
    let ghost k = claves@;
    let (reps, remap) = renumerar(claves);
    proof {
        lema_unicas(k);
    }
    let mut posiciones: Vec<DVec3> = Vec::new();
    let mut normales: Vec<DVec3> = Vec::new();
    let mut t: usize = 0;
    while t < reps.len()
        invariant
            t <= reps@.len(),
            reps@.len() == representantes(k).len(),
            k == claves@,
            k.len() == m.positions@.len(),
            m.normals@.len() == 0 || m.normals@.len() >= m.positions@.len(),
            forall|q: int| 0 <= q < reps@.len() ==> reps@[q] as int == #[trigger] representantes(k)[q],
            forall|q: int| 0 <= q < unicas(k).len() ==> 0 <= #[trigger] representantes(k)[q] < k.len(),
            unicas(k).len() == representantes(k).len(),
            posiciones@ == Seq::new(t as nat, |q: int| m.positions@[representantes(k)[q]]),
            normales@ == (if m.normals@.len() == 0 {
                Seq::empty()
            } else {
                Seq::new(t as nat, |q: int| m.normals@[representantes(k)[q]])
            }),
        decreases reps@.len() - t,
    {
        let v = reps[t];
        assert(v as int == representantes(k)[t as int]);
        posiciones.push(m.positions[v]);
        if m.normals.len() > 0 {
            normales.push(m.normals[v]);
        }
        proof {
            assert(posiciones@ =~= Seq::new((t + 1) as nat, |q: int| m.positions@[representantes(k)[q]]));
            if m.normals@.len() > 0 {
                assert(normales@ =~= Seq::new((t + 1) as nat, |q: int| m.normals@[representantes(k)[q]]));
            }
        }
        t = t + 1;
    }
    proof {
        if m.normals@.len() == 0 {
            assert(normales@ =~= Seq::<DVec3>::empty());
        }
    }
    // caras
    let mut faces: Vec<Face> = Vec::new();
    let mut prov: Vec<Option<StableId>> = Vec::new();
    let mut fi: usize = 0;
    let ghost c = m.caras();
    let ghost ren = remap@;
    assert(c.take(0) =~= Seq::<Seq<u32>>::empty());
    assert(bucles(faces@) =~= Seq::<Seq<u32>>::empty());
    while fi < m.faces.len()
        invariant
            c == m.caras(),
            ren == remap@,
            ren.len() == m.positions@.len(),
            indices_en_rango(m),
            fi <= m.faces@.len(),
            bucles(faces@) == caras_soldadas(c.take(fi as int), ren),
            prov@ == prov_soldada(c.take(fi as int), ren, m.prov.face_origin@),
        decreases m.faces@.len() - fi,
    {
        let f = &m.faces[fi].verts;
        proof {
            assert(c[fi as int] == f@);
            assert(c.take(fi + 1).drop_last() =~= c.take(fi as int));
            assert(c.take(fi + 1).last() == f@);
        }
        let b = soldar_bucle(f, &remap);
        if b.len() >= 3 {
            let ghost antes = faces@;
            faces.push(Face { verts: b });
            assert(bucles(faces@) =~= bucles(antes).push(bucle_soldado(f@, ren)));
            let origen = if fi < m.prov.face_origin.len() {
                m.prov.face_origin[fi]
            } else {
                None
            };
            prov.push(origen);
        }
        fi = fi + 1;
    }
    assert(c.take(m.faces@.len() as int) =~= c);
    let r = Mesh {
        positions: posiciones,
        normals: normales,
        uvs: Vec::new(),
        faces,
        prov: ProvenanceMap { face_origin: prov },
    };
    r
}

/// Los triángulos de un teselado como bucles de cara.
pub open spec fn triangulos(idx: Seq<u32>) -> Seq<Seq<u32>> {
    Seq::new(idx.len() / 3, |i: int| seq![idx[3 * i], idx[3 * i + 1], idx[3 * i + 2]])
}

/// Cruza del dominio exacto al discreto.
///
/// Es unidireccional: no hay inversa. Lo que sí cruza intacto es la
/// identidad: cada triángulo llega etiquetado con la cara que lo originó. El
/// teselado trae vértices duplicados por cara; se sueldan con las claves dadas
/// (las posiciones cuantizadas) para que las caras compartan vértices.
pub fn to_mesh_con_claves(t: &Tessellation, claves: &Vec<Clave>) -> (r: Result<Mesh, MeshError>)
    requires
        claves@.len() == t.positions@.len(),
        t.positions@.len() < u32::MAX,
    ensures
        t.defecto() matches Some(d) ==> r == Err::<Mesh, MeshError>(
            MeshError::Corrupta(Corrupcion::Teselado(d)),
        ),
        t.defecto() is None ==> match r {
            Ok(m) => soldada_de(
                t.positions@,
                t.normals@,
                triangulos(t.indices@),
                Seq::new(t.indices@.len() / 3, |i: int| Some(t.face_of_triangle@[i])),
                claves@,
                &m,
            ) && m.valida(),
            Err(e) => e is Corrupta,
        },
{
    match t.validate() {
        Ok(()) => {},
        Err(d) => {
            return Err(MeshError::Corrupta(Corrupcion::Teselado(d)));
        },
    }
    let ntri = t.triangle_count();
    let nidx = t.indices.len();
    let mut faces: Vec<Face> = Vec::new();
    let mut prov: Vec<Option<StableId>> = Vec::new();
    let mut i: usize = 0;
    let ghost c = triangulos(t.indices@);
    proof {
        crate::kernel::lema_sin_indice_fuera(t.indices@, t.positions@.len() as u32);
        assert((t.positions@.len() as u32) as int == t.positions@.len());
    }
    while i < ntri
        invariant
            ntri == t.indices@.len() / 3,
            nidx == t.indices@.len(),
            t.face_of_triangle@.len() == ntri,
            c == triangulos(t.indices@),
            i <= ntri,
            bucles(faces@) == c.take(i as int),
            prov@ == Seq::new(i as nat, |j: int| Some(t.face_of_triangle@[j])),
            forall|j: int| 0 <= j < i ==> forall|q: int|
                0 <= q < (#[trigger] faces@[j]).verts@.len() ==> faces@[j].verts@[q]
                    < t.positions@.len(),
            forall|j: int| 0 <= j < t.indices@.len() ==> t.indices@[j] < t.positions@.len(),
        decreases ntri - i,
    {
        assert(3 * i + 2 < nidx) by (nonlinear_arith)
            requires
                i < ntri,
                ntri == nidx / 3,
        ;
        let b0: usize = 3 * i;
        let tri = vec![t.indices[b0], t.indices[b0 + 1], t.indices[b0 + 2]];
        let ghost antes = faces@;
        faces.push(Face { verts: tri });
        prov.push(Some(t.face_of_triangle[i]));
        proof {
            assert(bucles(faces@) =~= bucles(antes).push(c[i as int]));
            assert(c.take(i + 1) =~= c.take(i as int).push(c[i as int]));
        }
        i = i + 1;
        assert(prov@ =~= Seq::new(i as nat, |j: int| Some(t.face_of_triangle@[j])));
    }
    assert(c.take(ntri as int) =~= c);
    let base = Mesh {
        positions: crate::mesh::copia_vec(&t.positions),
        normals: crate::mesh::copia_vec(&t.normals),
        uvs: Vec::new(),
        faces,
        prov: ProvenanceMap { face_origin: prov },
    };
    let m = soldar_por_claves(&base, claves);
    match m.validate() {
        Ok(()) => Ok(m),
        Err(e) => Err(e),
    }
}


// ---------------------------------------------------------------------------
// Soldar dos veces
// ---------------------------------------------------------------------------

/// Ningún par de elementos seguidos es igual.
pub open spec fn sin_seguidos(s: Seq<u32>) -> bool {
    forall|i: int, j: int| 0 <= i && i + 1 == j && j < s.len() ==> #[trigger] s[i] != #[trigger] s[j]
}

proof fn lema_sin_rachas(s: Seq<u32>, n: int)
    ensures
        sin_seguidos(sin_rachas(s)),
        s.len() > 0 ==> sin_rachas(s).len() > 0 && sin_rachas(s).last() == s.last(),
        (forall|i: int| 0 <= i < s.len() ==> s[i] < n) ==> forall|i: int|
            0 <= i < sin_rachas(s).len() ==> sin_rachas(s)[i] < n,
        sin_seguidos(s) ==> sin_rachas(s) == s,
    decreases s.len(),
{
    if s.len() > 0 {
        let p = s.drop_last();
        lema_sin_rachas(p, n);
        let d = sin_rachas(p);
        if (forall|i: int| 0 <= i < s.len() ==> s[i] < n) {
            assert forall|i: int| 0 <= i < p.len() implies p[i] < n by {
                assert(p[i] == s[i]);
            }
        }
        if sin_seguidos(s) {
            assert forall|i: int, j: int| 0 <= i && i + 1 == j && j < p.len() implies #[trigger] p[i] != #[trigger] p[j] by {
                assert(p[i] == s[i] && p[j] == s[j]);
            }
            if p.len() > 0 {
                assert(d.last() == s[s.len() - 2]);
            }
            assert(p.push(s.last()) =~= s);
        }
    }
}

/// Soldar con la identidad un bucle ya soldado no lo cambia.
proof fn lema_bucle_acotado(f: Seq<u32>, r: Seq<u32>, n: int)
    requires
        forall|j: int| 0 <= j < f.len() ==> f[j] < r.len(),
        forall|v: int| 0 <= v < r.len() ==> (r[v] as int) < n,
    ensures
        forall|j: int| 0 <= j < bucle_soldado(f, r).len() ==> (#[trigger] bucle_soldado(f, r)[j] as int) < n,
{
    let m = f.map_values(|v: u32| r[v as int]);
    assert forall|i: int| 0 <= i < m.len() implies m[i] < n by {
        assert(m[i] == r[f[i] as int]);
    }
    lema_sin_rachas(m, n);
}

proof fn lema_soldado_fijo(b: Seq<u32>, id: Seq<u32>)
    requires
        forall|j: int| 0 <= j < b.len() ==> (b[j] as int) < id.len(),
        forall|v: int| 0 <= v < id.len() ==> id[v] == v,
        sin_seguidos(b),
        b.len() <= 1 || b[0] != b.last(),
    ensures
        bucle_soldado(b, id) == b,
{
    let m = b.map_values(|v: u32| id[v as int]);
    assert(m =~= b);
    lema_sin_rachas(b, 0);
}

/// Un bucle soldado no tiene vértices seguidos iguales ni se cierra sobre sí
/// mismo.
proof fn lema_soldado_limpio(f: Seq<u32>, r: Seq<u32>)
    requires
        forall|j: int| 0 <= j < f.len() ==> f[j] < r.len(),
    ensures
        sin_seguidos(bucle_soldado(f, r)),
        bucle_soldado(f, r).len() <= 1 || bucle_soldado(f, r)[0] != bucle_soldado(f, r).last(),
{
    let m = f.map_values(|v: u32| r[v as int]);
    lema_sin_rachas(m, 0);
    let d = sin_rachas(m);
    if d.len() > 1 && d[0] == d.last() {
        let e = d.drop_last();
        assert forall|i: int, j: int| 0 <= i && i + 1 == j && j < e.len() implies #[trigger] e[i] != #[trigger] e[j] by {
            assert(e[i] == d[i] && e[j] == d[j]);
        }
        if e.len() > 1 {
            assert(e.last() == d[d.len() - 2]);
            assert(d[d.len() - 2] != d[d.len() - 1]);
        }
    }
}

/// Las claves únicas no se repiten.
proof fn lema_unicas_distintas(s: Seq<Clave>)
    ensures
        unicas(s).no_duplicates(),
    decreases s.len(),
{
    if s.len() > 0 {
        lema_unicas_distintas(s.drop_last());
        lema_unicas(s.drop_last());
    }
}

/// Con claves distintas, cada vértice sobrevive y conserva su índice.
proof fn lema_distintas(s: Seq<Clave>)
    requires
        s.no_duplicates(),
    ensures
        unicas(s) == s,
        representantes(s) == Seq::new(s.len(), |j: int| j),
        renumeracion(s) == Seq::new(s.len(), |j: int| j as u32),
    decreases s.len(),
{
    if s.len() > 0 {
        let p = s.drop_last();
        assert(p.no_duplicates());
        lema_distintas(p);
        assert(!p.contains(s.last())) by {
            if p.contains(s.last()) {
                let i = choose|i: int| 0 <= i < p.len() && p[i] == s.last();
                assert(s[i] == s[s.len() - 1]);
            }
        }
        assert(p.push(s.last()) =~= s);
        assert(representantes(s) =~= Seq::new(s.len(), |j: int| j));
        assert forall|j: int| 0 <= j < s.len() implies #[trigger] primera(s, s[j]) == j by {
            lema_primera(s, s[j]);
            assert(s.contains(s[j]));
            if primera(s, s[j]) != j {
                assert(s[primera(s, s[j])] == s[j]);
            }
        }
        assert(renumeracion(s) =~= Seq::new(s.len(), |j: int| j as u32));
    }
}

/// Soldar es idempotente: las claves de los vértices que sobreviven son
/// todas distintas, así que soldar otra vez no funde ninguno, no renumera
/// nada y deja cada bucle soldado como estaba.
pub proof fn ley_soldar_dos_veces(k: Seq<Clave>, f: Seq<u32>)
    requires
        k.len() < u32::MAX,
        forall|j: int| 0 <= j < f.len() ==> f[j] < k.len(),
    ensures
        ({
            let r = representantes(k);
            let ks = Seq::new(r.len(), |i: int| k[r[i]]);
            &&& ks.no_duplicates()
            &&& representantes(ks) == Seq::new(ks.len(), |j: int| j)
            &&& renumeracion(ks) == Seq::new(ks.len(), |j: int| j as u32)
            &&& bucle_soldado(bucle_soldado(f, renumeracion(k)), renumeracion(ks)) == bucle_soldado(
                f,
                renumeracion(k),
            )
        }),
{
    let r = representantes(k);
    let ks = Seq::new(r.len(), |i: int| k[r[i]]);
    lema_unicas(k);
    lema_unicas_distintas(k);
    assert(ks =~= unicas(k));
    lema_distintas(ks);
    let ren = renumeracion(k);
    assert forall|v: int| 0 <= v < ren.len() implies (ren[v] as int) < ks.len() by {
        assert(k.contains(k[v]));
        assert(unicas(k).contains(k[v]));
        lema_primera(unicas(k), k[v]);
    }
    lema_bucle_acotado(f, ren, ks.len() as int);
    lema_soldado_limpio(f, ren);
    let b = bucle_soldado(f, ren);
    lema_soldado_fijo(b, renumeracion(ks));
}

} // verus!
