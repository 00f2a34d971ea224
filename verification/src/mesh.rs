//! La malla editable, su validación y su adyacencia.
//!
//! Se guarda lo mínimo —posiciones y bucles de cara— y todo lo demás (aristas,
//! adyacencia) se **deriva** cuando hace falta. Las posiciones son vectores por
//! sus bits: este módulo nunca hace aritmética con ellas, solo las mueve.

use vstd::prelude::*;

use crate::ids::{Binding, StableId};
use crate::kernel::DefectoDeTeselado;
use crate::vector::{DVec2, DVec3};

verus! {

/// Una cara: un bucle de índices a `positions`, antihorario visto desde fuera.
#[derive(Clone, Debug, Default)]
pub struct Face {
    pub verts: Vec<u32>,
}

/// De qué entidad del dominio exacto viene cada cara. `None` = procedencia
/// perdida.
#[derive(Clone, Debug, Default)]
pub struct ProvenanceMap {
    pub face_origin: Vec<Option<StableId>>,
}

/// Malla poligonal editable.
#[derive(Clone, Debug, Default)]
pub struct Mesh {
    pub positions: Vec<DVec3>,
    pub normals: Vec<DVec3>,
    pub uvs: Vec<DVec2>,
    pub faces: Vec<Face>,
    pub prov: ProvenanceMap,
}

/// Qué invariante estructural incumple una malla.
#[derive(Clone, Copy, Debug, PartialEq, Eq, Structural)]
pub enum Corrupcion {
    /// Hay normales, pero no una por posición.
    NormalesDescuadradas,
    /// Hay UVs, pero no una por posición.
    UvsDescuadradas,
    /// El mapa de procedencia no tiene una entrada por cara.
    ProcedenciaDescuadrada { entradas: usize, caras: usize },
    /// La cara `cara` tiene menos de tres vértices.
    PocosVertices { cara: usize, n: usize },
    /// La cara `cara` referencia el vértice `vertice`, y solo hay `n`.
    FueraDeRango { cara: usize, vertice: u32, n: u32 },
    /// La cara `cara` repite un vértice en su bucle.
    VerticeRepetido { cara: usize },
    /// La media arista `(a, b)` aparece más de una vez: orientación incoherente.
    MediaArista { a: u32, b: u32 },
    /// El teselado del que se partía ya estaba mal formado.
    Teselado(DefectoDeTeselado),
}

/// Errores del pilar de malla.
#[derive(Clone, Debug)]
pub enum MeshError {
    Corrupta(Corrupcion),
    Modificador { modificador: &'static str, detalle: String },
    Parametro { modificador: &'static str, detalle: String },
    /// El modificador perdió procedencia en tantas caras de tantas.
    ProcedenciaPerdida(&'static str, usize, usize),
}

// ---------------------------------------------------------------------------
// Modelo
// ---------------------------------------------------------------------------

/// Los bucles de cara como secuencias.
pub open spec fn bucles(faces: Seq<Face>) -> Seq<Seq<u32>> {
    Seq::new(faces.len(), |i: int| faces[i].verts@)
}

/// Las medias aristas de un bucle, en orden: `(v[i], v[i+1 mod n])`.
pub open spec fn medias_de_bucle(f: Seq<u32>) -> Seq<(u32, u32)> {
    Seq::new(f.len(), |i: int| (f[i], f[(i + 1) % (f.len() as int)]))
}

/// Todas las medias aristas de la malla, cara a cara y en orden.
pub open spec fn medias(c: Seq<Seq<u32>>) -> Seq<(u32, u32)>
    decreases c.len(),
{
    if c.len() == 0 {
        Seq::empty()
    } else {
        medias(c.drop_last()) + medias_de_bucle(c.last())
    }
}

/// Arista sin orientación.
pub open spec fn sin_orientar(p: (u32, u32)) -> (u32, u32) {
    if p.0 <= p.1 {
        p
    } else {
        (p.1, p.0)
    }
}

/// Conjunto de aristas sin orientación de la malla.
pub open spec fn aristas(c: Seq<Seq<u32>>) -> Set<(u32, u32)> {
    sin_orientar_todas(medias(c)).to_set()
}

/// Cada media arista, sin orientación.
pub open spec fn sin_orientar_todas(h: Seq<(u32, u32)>) -> Seq<(u32, u32)> {
    h.map_values(|p: (u32, u32)| sin_orientar(p))
}

pub open spec fn tiene_repetido(f: Seq<u32>) -> bool {
    exists|i: int, j: int| 0 <= i < j < f.len() && f[i] == f[j]
}

/// Primer índice desde `k` cuyo vértice no está por debajo de `n`.
pub open spec fn primer_fuera(f: Seq<u32>, n: u32, k: int) -> int
    decreases f.len() - k,
{
    if k >= f.len() {
        f.len() as int
    } else if f[k] >= n {
        k
    } else {
        primer_fuera(f, n, k + 1)
    }
}

/// El defecto de la cara `i`, si lo tiene, en el orden en que se comprueba.
pub open spec fn defecto_de_cara(f: Seq<u32>, i: int, n: u32) -> Option<Corrupcion> {
    if f.len() < 3 {
        Some(Corrupcion::PocosVertices { cara: i as usize, n: f.len() as usize })
    } else if primer_fuera(f, n, 0) < f.len() {
        Some(Corrupcion::FueraDeRango { cara: i as usize, vertice: f[primer_fuera(f, n, 0)], n })
    } else if tiene_repetido(f) {
        Some(Corrupcion::VerticeRepetido { cara: i as usize })
    } else {
        None
    }
}

/// El primer defecto de cara, recorriendo las caras desde `k`.
pub open spec fn primer_defecto(c: Seq<Seq<u32>>, n: u32, k: int) -> Option<Corrupcion>
    decreases c.len() - k,
{
    if k >= c.len() || k < 0 {
        None
    } else {
        match defecto_de_cara(c[k], k, n) {
            Some(d) => Some(d),
            None => primer_defecto(c, n, k + 1),
        }
    }
}

/// Las medias aristas de un prefijo crecen cara a cara.
pub proof fn lema_medias_take(c: Seq<Seq<u32>>, k: int)
    requires
        0 <= k < c.len(),
    ensures
        medias(c.take(k + 1)) == medias(c.take(k)) + medias_de_bucle(c[k]),
{
    assert(c.take(k + 1).drop_last() =~= c.take(k));
    assert(c.take(k + 1).last() == c[k]);
}

proof fn lema_primer_fuera(f: Seq<u32>, n: u32, k: int)
    requires
        0 <= k <= f.len(),
        forall|j: int| 0 <= j < k ==> f[j] < n,
    ensures
        primer_fuera(f, n, 0) == primer_fuera(f, n, k),
    decreases k,
{
    if k > 0 {
        lema_primer_fuera(f, n, k - 1);
    }
}

/// Defecto de una cara, calculado.
fn defecto_de_cara_exec(f: &Vec<u32>, cara: usize, n: u32) -> (r: Option<Corrupcion>)
    ensures
        r == defecto_de_cara(f@, cara as int, n),
{
    let len = f.len();
    if len < 3 {
        return Some(Corrupcion::PocosVertices { cara, n: len });
    }
    let mut k: usize = 0;
    while k < len
        invariant
            len == f@.len(),
            len >= 3,
            k <= len,
            forall|j: int| 0 <= j < k ==> f@[j] < n,
        decreases len - k,
    {
        if f[k] >= n {
            proof {
                lema_primer_fuera(f@, n, k as int);
                assert(primer_fuera(f@, n, k as int) == k);
            }
            return Some(Corrupcion::FueraDeRango { cara, vertice: f[k], n });
        }
        k = k + 1;
    }
    proof {
        lema_primer_fuera(f@, n, len as int);
    }
    let mut i: usize = 0;
    while i < len
        invariant
            len == f@.len(),
            len >= 3,
            i <= len,
            forall|a: int, b: int| 0 <= a < b < len && a < i ==> f@[a] != f@[b],
            primer_fuera(f@, n, 0) == len,
        decreases len - i,
    {
        let mut j: usize = i + 1;
        while j < len
            invariant
                len == f@.len(),
                len >= 3,
                i < len,
                i + 1 <= j <= len,
                forall|a: int, b: int| 0 <= a < b < len && a < i ==> f@[a] != f@[b],
                forall|b: int| i < b < j ==> f@[i as int] != f@[b],
                primer_fuera(f@, n, 0) == len,
            decreases len - j,
        {
            if f[i] == f[j] {
                assert(tiene_repetido(f@)) by {
                    assert(0 <= i < j < f@.len() && f@[i as int] == f@[j as int]);
                }
                return Some(Corrupcion::VerticeRepetido { cara });
            }
            j = j + 1;
        }
        i = i + 1;
    }
    None
}

/// Busca dos posiciones con el mismo valor.
fn buscar_repetido(s: &Vec<(u32, u32)>) -> (r: Option<(u32, u32)>)
    ensures
        r is None <==> s@.no_duplicates(),
        r matches Some(p) ==> exists|i: int, j: int|
            0 <= i < j < s@.len() && s@[i] == p && s@[j] == p,
{
    let len = s.len();
    let mut i: usize = 0;
    while i < len
        invariant
            len == s@.len(),
            i <= len,
            forall|a: int, b: int| 0 <= a < b < len && a < i ==> s@[a] != s@[b],
        decreases len - i,
    {
        let mut j: usize = i + 1;
        while j < len
            invariant
                len == s@.len(),
                i < len,
                i + 1 <= j <= len,
                forall|a: int, b: int| 0 <= a < b < len && a < i ==> s@[a] != s@[b],
                forall|b: int| i < b < j ==> s@[i as int] != s@[b],
            decreases len - j,
        {
            let (a, b) = s[i];
            let (c, d) = s[j];
            if a == c && b == d {
                assert(!s@.no_duplicates()) by {
                    assert(s@[i as int] == s@[j as int]);
                }
                return Some((a, b));
            }
            j = j + 1;
        }
        i = i + 1;
    }
    assert(s@.no_duplicates()) by {
        assert forall|a: int, b: int| 0 <= a < s@.len() && 0 <= b < s@.len() && a != b implies s@[a] != s@[b] by {
            if a > b {
                assert(s@[b] != s@[a]);
            }
        }
    }
    None
}


/// ¿Está `e` en `v`?
fn contiene_par(v: &Vec<(u32, u32)>, e: (u32, u32)) -> (r: bool)
    ensures
        r == v@.contains(e),
{
    let mut i: usize = 0;
    while i < v.len()
        invariant
            i <= v@.len(),
            forall|j: int| 0 <= j < i ==> v@[j] != e,
        decreases v@.len() - i,
    {
        let (a, b) = v[i];
        if a == e.0 && b == e.1 {
            assert(v@[i as int] == e);
            return true;
        }
        i = i + 1;
    }
    false
}

/// Las posiciones de `s` cuyo origen es `id`, en orden creciente.
pub open spec fn posiciones_de(s: Seq<Option<StableId>>, id: StableId) -> Seq<u32>
    decreases s.len(),
{
    if s.len() == 0 {
        Seq::empty()
    } else {
        let resto = posiciones_de(s.drop_last(), id);
        if s.last() == Some(id) {
            resto.push((s.len() - 1) as u32)
        } else {
            resto
        }
    }
}

impl ProvenanceMap {
    /// `n` caras, todas sin procedencia.
    pub fn con_capacidad(n: usize) -> (r: ProvenanceMap)
        ensures
            r.face_origin@ == Seq::new(n as nat, |i: int| None::<StableId>),
    {
        let mut v: Vec<Option<StableId>> = Vec::new();
        let mut i: usize = 0;
        while i < n
            invariant
                i <= n,
                v@ == Seq::new(i as nat, |k: int| None::<StableId>),
            decreases n - i,
        {
            v.push(None);
            i = i + 1;
        }
        ProvenanceMap { face_origin: v }
    }

    /// Las caras que vienen de `id`.
    pub fn caras_de(&self, id: StableId) -> (r: Vec<u32>)
        ensures
            r@ == posiciones_de(self.face_origin@, id),
    {
        let mut out: Vec<u32> = Vec::new();
        let mut i: usize = 0;
        assert(self.face_origin@.take(0) =~= Seq::<Option<StableId>>::empty());
        while i < self.face_origin.len()
            invariant
                i <= self.face_origin@.len(),
                out@ == posiciones_de(self.face_origin@.take(i as int), id),
            decreases self.face_origin@.len() - i,
        {
            let ghost pre = self.face_origin@.take(i + 1);
            assert(pre.drop_last() =~= self.face_origin@.take(i as int));
            assert(pre.last() == self.face_origin@[i as int]);
            match self.face_origin[i] {
                Some(o) => {
                    if o.origin.0 == id.origin.0 && o.class == id.class && o.mark == id.mark {
                        out.push(i as u32);
                    }
                },
                None => {},
            }
            i = i + 1;
        }
        assert(self.face_origin@.take(self.face_origin@.len() as int) =~= self.face_origin@);
        out
    }
}


/// Copia elemento a elemento de un vector de valores `Copy`.
pub fn copia_vec<T: Copy>(v: &Vec<T>) -> (r: Vec<T>)
    ensures
        r@ == v@,
{
    let mut out: Vec<T> = Vec::new();
    let mut i: usize = 0;
    while i < v.len()
        invariant
            i <= v@.len(),
            out@ == v@.take(i as int),
        decreases v@.len() - i,
    {
        out.push(v[i]);
        i = i + 1;
        assert(out@ =~= v@.take(i as int));
    }
    assert(v@.take(v@.len() as int) =~= v@);
    out
}

/// Las caras vistas como bucles: la parte de la malla que no son datos.
pub open spec fn mismas_caras(a: Seq<Face>, b: Seq<Face>) -> bool {
    bucles(a) == bucles(b)
}

impl Mesh {
    /// Dos mallas con el mismo contenido.
    pub open spec fn igual_a(&self, o: &Mesh) -> bool {
        &&& self.positions@ == o.positions@
        &&& self.normals@ == o.normals@
        &&& self.uvs@ == o.uvs@
        &&& self.caras() == o.caras()
        &&& self.prov.face_origin@ == o.prov.face_origin@
    }

    /// Copia profunda, con su contenido garantizado.
    pub fn copia(&self) -> (r: Mesh)
        ensures
            r.igual_a(self),
    {
        let mut faces: Vec<Face> = Vec::new();
        let mut i: usize = 0;
        while i < self.faces.len()
            invariant
                i <= self.faces@.len(),
                faces@.len() == i,
                forall|k: int| 0 <= k < i ==> faces@[k].verts@ == self.faces@[k].verts@,
            decreases self.faces@.len() - i,
        {
            faces.push(Face { verts: copia_vec(&self.faces[i].verts) });
            i = i + 1;
        }
        let r = Mesh {
            positions: copia_vec(&self.positions),
            normals: copia_vec(&self.normals),
            uvs: copia_vec(&self.uvs),
            faces,
            prov: ProvenanceMap { face_origin: copia_vec(&self.prov.face_origin) },
        };
        assert(r.caras() =~= self.caras());
        r
    }
}

impl Mesh {
    pub open spec fn caras(&self) -> Seq<Seq<u32>> {
        bucles(self.faces@)
    }

    /// El vértice máximo admitido, como lo cuenta `validate`.
    pub open spec fn tope(&self) -> u32 {
        self.positions@.len() as u32
    }

    /// Los defectos que se comprueban antes de mirar la orientación.
    pub open spec fn defecto_previo(&self) -> Option<Corrupcion> {
        if self.normals@.len() != 0 && self.normals@.len() != self.positions@.len() {
            Some(Corrupcion::NormalesDescuadradas)
        } else if self.uvs@.len() != 0 && self.uvs@.len() != self.positions@.len() {
            Some(Corrupcion::UvsDescuadradas)
        } else if self.prov.face_origin@.len() != self.faces@.len() {
            Some(
                Corrupcion::ProcedenciaDescuadrada {
                    entradas: self.prov.face_origin@.len() as usize,
                    caras: self.faces@.len() as usize,
                },
            )
        } else {
            primer_defecto(self.caras(), self.tope(), 0)
        }
    }

    /// La malla cumple todas sus invariantes estructurales.
    pub open spec fn valida(&self) -> bool {
        self.defecto_previo() is None && medias(self.caras()).no_duplicates()
    }

    /// Todas las medias aristas, cara a cara y en orden.
    pub fn medias_aristas(&self) -> (r: Vec<(u32, u32)>)
        ensures
            r@ == medias(self.caras()),
    {
        let mut out: Vec<(u32, u32)> = Vec::new();
        let mut fi: usize = 0;
        assert(self.caras().take(0) =~= Seq::<Seq<u32>>::empty());
        while fi < self.faces.len()
            invariant
                fi <= self.faces@.len(),
                out@ == medias(self.caras().take(fi as int)),
            decreases self.faces@.len() - fi,
        {
            let f = &self.faces[fi].verts;
            let n = f.len();
            let ghost antes = out@;
            let mut i: usize = 0;
            assert(medias_de_bucle(f@).take(0) =~= Seq::<(u32, u32)>::empty());
            while i < n
                invariant
                    n == f@.len(),
                    i <= n,
                    out@ == antes + medias_de_bucle(f@).take(i as int),
                decreases n - i,
            {
                let sig = (i + 1) % n;
                out.push((f[i], f[sig]));
                proof {
                    assert(medias_de_bucle(f@).take(i + 1) =~= medias_de_bucle(f@).take(i as int).push(
                        (f@[i as int], f@[sig as int]),
                    ));
                }
                i = i + 1;
            }
            proof {
                assert(medias_de_bucle(f@).take(n as int) =~= medias_de_bucle(f@));
                assert(self.caras()[fi as int] == f@);
                lema_medias_take(self.caras(), fi as int);
            }
            fi = fi + 1;
        }
        assert(self.caras().take(self.faces@.len() as int) =~= self.caras());
        out
    }

    /// Invariantes estructurales.
    ///
    /// Se comprueba de verdad: una malla corrupta produce fallos a distancia,
    /// tres modificadores más abajo.
    pub fn validate(&self) -> (r: Result<(), MeshError>)
        ensures
            r is Ok <==> self.valida(),
            self.defecto_previo() matches Some(d) ==> r == Err::<(), MeshError>(MeshError::Corrupta(d)),
            self.defecto_previo() is None && !medias(self.caras()).no_duplicates() ==> (
            r matches Err(MeshError::Corrupta(Corrupcion::MediaArista { a, b })) && exists|i: int, j: int|
                0 <= i < j < medias(self.caras()).len() && medias(self.caras())[i] == (a, b)
                    && medias(self.caras())[j] == (a, b)),
    {
        if self.normals.len() != 0 && self.normals.len() != self.positions.len() {
            return Err(MeshError::Corrupta(Corrupcion::NormalesDescuadradas));
        }
        if self.uvs.len() != 0 && self.uvs.len() != self.positions.len() {
            return Err(MeshError::Corrupta(Corrupcion::UvsDescuadradas));
        }
        if self.prov.face_origin.len() != self.faces.len() {
            return Err(
                MeshError::Corrupta(
                    Corrupcion::ProcedenciaDescuadrada {
                        entradas: self.prov.face_origin.len(),
                        caras: self.faces.len(),
                    },
                ),
            );
        }
        let n = self.positions.len() as u32;
        let mut fi: usize = 0;
        while fi < self.faces.len()
            invariant
                fi <= self.faces@.len(),
                n == self.tope(),
                self.defecto_previo() == primer_defecto(self.caras(), n, fi as int),
            decreases self.faces@.len() - fi,
        {
            assert(self.caras()[fi as int] == self.faces@[fi as int].verts@);
            if let Some(d) = defecto_de_cara_exec(&self.faces[fi].verts, fi, n) {
                return Err(MeshError::Corrupta(d));
            }
            fi = fi + 1;
        }
        let hs = self.medias_aristas();
        match buscar_repetido(&hs) {
            Some(p) => Err(MeshError::Corrupta(Corrupcion::MediaArista { a: p.0, b: p.1 })),
            None => Ok(()),
        }
    }

    /// Aristas únicas, sin orientación.
    pub fn edge_count(&self) -> (r: usize)
        ensures
            r == aristas(self.caras()).len(),
    {
        let hs = self.medias_aristas();
        let mut unicas: Vec<(u32, u32)> = Vec::new();
        let mut k: usize = 0;
        assert(sin_orientar_todas(hs@.take(0)) =~= Seq::<(u32, u32)>::empty());
        assert(unicas@.to_set() =~= Set::<(u32, u32)>::empty());
        assert(Seq::<(u32, u32)>::empty().to_set() =~= Set::<(u32, u32)>::empty());
        while k < hs.len()
            invariant
                k <= hs@.len(),
                unicas@.no_duplicates(),
                unicas@.to_set() == sin_orientar_todas(hs@.take(k as int)).to_set(),
            decreases hs@.len() - k,
        {
            let (a, b) = hs[k];
            let e = if a <= b { (a, b) } else { (b, a) };
            proof {
                assert(hs@[k as int] == (a, b));
                assert(e == sin_orientar(hs@[k as int]));
                assert(sin_orientar_todas(hs@.take(k + 1)) =~= sin_orientar_todas(
                    hs@.take(k as int),
                ).push(e));
                sin_orientar_todas(hs@.take(k as int)).lemma_push_to_set_commute(e);
            }
            if !contiene_par(&unicas, e) {
                proof {
                    unicas@.lemma_push_to_set_commute(e);
                }
                unicas.push(e);
            } else {
                proof {
                    assert(unicas@.to_set().contains(e));
                    assert(unicas@.to_set().insert(e) =~= unicas@.to_set());
                }
            }
            k = k + 1;
        }
        proof {
            assert(hs@.take(hs@.len() as int) =~= hs@);
            unicas@.unique_seq_to_set();
        }
        unicas.len()
    }

    /// Característica de Euler `V − E + F`.
    pub fn euler(&self) -> (r: i64)
        requires
            self.positions@.len() + aristas(self.caras()).len() + self.faces@.len() <= i64::MAX,
        ensures
            r == self.positions@.len() - aristas(self.caras()).len() + self.faces@.len(),
    {
        let v = self.vertex_count() as i64;
        let e = self.edge_count() as i64;
        let f = self.face_count() as i64;
        v - e + f
    }

    pub fn face_count(&self) -> (r: usize)
        ensures
            r == self.faces@.len(),
    {
        self.faces.len()
    }

    pub fn vertex_count(&self) -> (r: usize)
        ensures
            r == self.positions@.len(),
    {
        self.positions.len()
    }
}


// ---------------------------------------------------------------------------
// Re-vinculación
// ---------------------------------------------------------------------------

/// Resultado de re-vincular una referencia tras un cambio aguas arriba.
#[derive(Clone, Debug)]
pub struct Rebind {
    pub id: StableId,
    pub binding: Binding<u32>,
    /// Caras que llevan esa procedencia en la malla nueva.
    pub faces: Vec<u32>,
}

/// Cómo queda una referencia: vinculada a la primera cara con su procedencia,
/// o rota si no queda ninguna.
pub open spec fn revinculada(id: StableId, p: Seq<Option<StableId>>, r: Rebind) -> bool {
    let caras = posiciones_de(p, id);
    &&& r.id == id
    &&& r.faces@ == caras
    &&& r.binding == (if caras.len() > 0 {
        Binding::Bound(caras[0])
    } else {
        Binding::<u32>::Broken
    })
}

/// Re-vincula una selección hecha sobre una malla anterior.
///
/// Lo que no resuelve sale `Broken`: nunca se re-vincula en silencio a la
/// candidata más parecida.
pub fn rebind(seleccion: &[StableId], nueva: &Mesh) -> (r: Vec<Rebind>)
    ensures
        r@.len() == seleccion@.len(),
        forall|i: int| 0 <= i < r@.len() ==> revinculada(
            seleccion@[i],
            nueva.prov.face_origin@,
            #[trigger] r@[i],
        ),
{
    let mut out: Vec<Rebind> = Vec::new();
    let mut i: usize = 0;
    while i < seleccion.len()
        invariant
            i <= seleccion@.len(),
            out@.len() == i,
            forall|k: int| 0 <= k < i ==> revinculada(
                seleccion@[k],
                nueva.prov.face_origin@,
                #[trigger] out@[k],
            ),
        decreases seleccion@.len() - i,
    {
        let id = seleccion[i];
        let faces = nueva.prov.caras_de(id);
        let binding = if faces.len() > 0 {
            Binding::Bound(faces[0])
        } else {
            Binding::Broken
        };
        out.push(Rebind { id, binding, faces });
        i = i + 1;
    }
    out
}


/// Una cara bien formada sobre `n` posiciones: al menos tres vértices, todos
/// existentes y ninguno repetido.
pub open spec fn cara_bien(f: Seq<u32>, n: int) -> bool {
    &&& f.len() >= 3
    &&& forall|j: int| 0 <= j < f.len() ==> f[j] < n
    &&& forall|a: int, b: int| 0 <= a < b < f.len() ==> f[a] != f[b]
}

proof fn lema_primer_fuera_desde(f: Seq<u32>, n: u32, k: int)
    requires
        0 <= k <= f.len(),
    ensures
        k <= primer_fuera(f, n, k) <= f.len(),
        primer_fuera(f, n, k) < f.len() ==> f[primer_fuera(f, n, k)] >= n,
        primer_fuera(f, n, k) == f.len() ==> forall|j: int| k <= j < f.len() ==> f[j] < n,
    decreases f.len() - k,
{
    if k < f.len() && f[k] < n {
        lema_primer_fuera_desde(f, n, k + 1);
    }
}

proof fn lema_primer_defecto(c: Seq<Seq<u32>>, n: u32, k: int)
    requires
        0 <= k <= c.len(),
    ensures
        primer_defecto(c, n, k) is None <==> forall|i: int| k <= i < c.len() ==> #[trigger] defecto_de_cara(
            c[i],
            i,
            n,
        ) is None,
    decreases c.len() - k,
{
    if k < c.len() {
        lema_primer_defecto(c, n, k + 1);
    }
}

/// Una malla es válida si y solo si: las normales y las UV, si las hay, van
/// una por posición; hay una procedencia por cara; cada cara tiene al menos
/// tres vértices, todos existentes y distintos; y ninguna media arista
/// aparece dos veces.
pub proof fn ley_validez(m: &Mesh)
    requires
        m.positions@.len() <= u32::MAX,
    ensures
        m.valida() <==> {
            &&& (m.normals@.len() == 0 || m.normals@.len() == m.positions@.len())
            &&& (m.uvs@.len() == 0 || m.uvs@.len() == m.positions@.len())
            &&& m.prov.face_origin@.len() == m.faces@.len()
            &&& forall|i: int| 0 <= i < m.faces@.len() ==> #[trigger] cara_bien(m.faces@[i].verts@, m.positions@.len() as int)
            &&& medias(m.caras()).no_duplicates()
        },
{
    let c = m.caras();
    let n = m.tope();
    lema_primer_defecto(c, n, 0);
    assert forall|i: int| 0 <= i < m.faces@.len() implies (#[trigger] cara_bien(m.faces@[i].verts@, m.positions@.len() as int)
        <==> defecto_de_cara(c[i], i, n) is None) by {
        let f = c[i];
        assert(f == m.faces@[i].verts@);
        lema_primer_fuera_desde(f, n, 0);
    }
    assert(c.len() == m.faces@.len());
    let todas = forall|i: int| 0 <= i < m.faces@.len() ==> #[trigger] cara_bien(m.faces@[i].verts@, m.positions@.len() as int);
    if todas {
        assert forall|i: int| 0 <= i < c.len() implies #[trigger] defecto_de_cara(c[i], i, n) is None by {
            assert(cara_bien(m.faces@[i].verts@, m.positions@.len() as int));
        }
    }
    if primer_defecto(c, n, 0) is None {
        assert forall|i: int| 0 <= i < m.faces@.len() implies #[trigger] cara_bien(m.faces@[i].verts@, m.positions@.len() as int) by {
            assert(defecto_de_cara(c[i], i, n) is None);
        }
    }
}

} // verus!
