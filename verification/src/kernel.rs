//! El contrato de datos del kernel geométrico: teselado, topología, croquis.
//!
//! El kernel en sí (coma flotante, OpenCASCADE) vive fuera de la biblioteca;
//! aquí está lo que se comprueba de lo que devuelve.

use vstd::prelude::*;

use crate::ids::{StableId, TopoClass};
use crate::vector::{Aabb, DVec2, DVec3};

verus! {

/// Handle opaco a una forma del kernel.
#[derive(Clone, Copy, PartialEq, Eq, Structural, Hash, PartialOrd, Ord, Debug)]
pub struct ShapeId(pub u64);

/// Errores del kernel. Las magnitudes van por los bits de su `f64`.
#[derive(Clone, Debug)]
pub enum KernelError {
    InvalidInput { detail: String },
    OperationFailed { op: &'static str, detail: String },
    Degenerate { hint: String },
    ToleranceExceeded { required_bits: u64, achieved_bits: u64 },
    UnresolvedReference(StableId),
    UnknownShape(ShapeId),
    Timeout,
    KernelPanic { backtrace: String },
    Unsupported(&'static str),
}

/// Parámetros de teselado, por los bits de sus `f64`.
#[derive(Clone, Copy, Debug)]
pub struct TessellationParams {
    pub chord_mm_bits: u64,
    pub angular_deg_bits: u64,
}

/// Rotación a la izquierda de 64 bits.
pub open spec fn rotar_izquierda(a: u64, n: u64) -> u64 {
    (a << n) | (a >> ((64 - n) as u64))
}

impl TessellationParams {
    /// Clave de caché: los bits de la cuerda rotados 17, mezclados con los del
    /// ángulo.
    pub fn cache_key(&self) -> (r: u64)
        ensures
            r == rotar_izquierda(self.chord_mm_bits, 17) ^ self.angular_deg_bits,
    {
        let a = self.chord_mm_bits;
        ((a << 17u64) | (a >> 47u64)) ^ self.angular_deg_bits
    }
}

/// De dónde viene una entidad topológica.
#[derive(Clone, Copy, PartialEq, Eq, Structural, Debug)]
pub enum TopoProvenance {
    SweptFromProfileEdge { edge_index: u32 },
    Cap { start: bool },
    Blend { of: StableId },
    Inherited { from: StableId },
    SplitFrom { original: StableId, piece: u32 },
    Primitive { index: u32 },
}

/// Clase de una arista.
#[derive(Clone, Copy, PartialEq, Eq, Structural, Debug)]
pub enum EdgeKind {
    Sharp,
    Boundary,
    Smooth,
    Seam,
    Degenerate,
}

impl EdgeKind {
    /// Las aristas vivas y las de borde se dibujan; las suaves, las costuras
    /// y las degeneradas no.
    pub fn se_dibuja(self) -> (r: bool)
        ensures
            r == (self is Sharp || self is Boundary),
    {
        match self {
            EdgeKind::Sharp | EdgeKind::Boundary => true,
            _ => false,
        }
    }
}

/// Polilínea de una arista, para el visor.
#[derive(Clone, Debug)]
pub struct EdgePolyline {
    pub id: StableId,
    pub kind: EdgeKind,
    pub points: Vec<DVec3>,
}

/// Teselado de una forma: caché derivada, nunca editable.
#[derive(Clone, Debug, Default)]
pub struct Tessellation {
    pub positions: Vec<DVec3>,
    pub normals: Vec<DVec3>,
    /// Triples de índices a `positions`.
    pub indices: Vec<u32>,
    /// La cara de origen de cada triángulo.
    pub face_of_triangle: Vec<StableId>,
    pub edges: Vec<EdgePolyline>,
    pub bbox: Aabb,
}

/// El primer índice desde `k` que no está por debajo de `n`.
pub open spec fn primer_indice_fuera(s: Seq<u32>, n: u32, k: int) -> int
    decreases s.len() - k,
{
    if k >= s.len() {
        s.len() as int
    } else if s[k] >= n {
        k
    } else {
        primer_indice_fuera(s, n, k + 1)
    }
}

pub proof fn lema_indice_fuera(s: Seq<u32>, n: u32, k: int)
    requires
        0 <= k <= s.len(),
        forall|j: int| 0 <= j < k ==> s[j] < n,
    ensures
        primer_indice_fuera(s, n, 0) == primer_indice_fuera(s, n, k),
    decreases k,
{
    if k > 0 {
        lema_indice_fuera(s, n, k - 1);
    }
}

/// Sin índices fuera de rango, todos están por debajo de `n`.
pub proof fn lema_sin_indice_fuera(s: Seq<u32>, n: u32)
    ensures
        primer_indice_fuera(s, n, 0) >= s.len() ==> forall|j: int| 0 <= j < s.len() ==> s[j] < n,
{
    if primer_indice_fuera(s, n, 0) >= s.len() {
        assert forall|j: int| 0 <= j < s.len() implies s[j] < n by {
            lema_prefijo_dentro(s, n, 0, j);
        }
    }
}

proof fn lema_prefijo_dentro(s: Seq<u32>, n: u32, k: int, j: int)
    requires
        0 <= k <= j < s.len(),
        primer_indice_fuera(s, n, k) >= s.len(),
    ensures
        s[j] < n,
    decreases j - k,
{
    if k < j {
        lema_prefijo_dentro(s, n, k + 1, j);
    }
}

/// Busca el primer índice fuera de rango.
pub fn buscar_fuera(s: &Vec<u32>, n: u32) -> (r: Option<u32>)
    ensures
        r is None <==> primer_indice_fuera(s@, n, 0) == s@.len(),
        r matches Some(v) ==> primer_indice_fuera(s@, n, 0) < s@.len() && v == s@[primer_indice_fuera(
            s@,
            n,
            0,
        )],
{
    let mut k: usize = 0;
    while k < s.len()
        invariant
            k <= s@.len(),
            forall|j: int| 0 <= j < k ==> s@[j] < n,
        decreases s@.len() - k,
    {
        if s[k] >= n {
            proof {
                lema_indice_fuera(s@, n, k as int);
            }
            return Some(s[k]);
        }
        k = k + 1;
    }
    proof {
        lema_indice_fuera(s@, n, k as int);
    }
    None
}

/// Qué incumple un teselado.
#[derive(Clone, Copy, PartialEq, Eq, Structural, Debug)]
pub enum DefectoDeTeselado {
    /// El número de índices no es múltiplo de tres.
    IndicesSueltos { indices: usize },
    /// No hay una cara de origen por triángulo.
    ProcedenciaIncompleta { triangulos: usize, ids: usize },
    /// Hay normales, pero no una por posición.
    NormalesDescuadradas,
    /// Un índice apunta fuera de las posiciones.
    IndiceFuera { indice: u32, vertices: u32 },
}

impl Tessellation {
    pub fn triangle_count(&self) -> (r: usize)
        ensures
            r == self.indices@.len() / 3,
    {
        self.indices.len() / 3
    }

    /// La cara de la que viene un triángulo.
    pub fn face_of(&self, triangle: usize) -> (r: Option<StableId>)
        ensures
            r == (if triangle < self.face_of_triangle@.len() {
                Some(self.face_of_triangle@[triangle as int])
            } else {
                None
            }),
    {
        if triangle < self.face_of_triangle.len() {
            Some(self.face_of_triangle[triangle])
        } else {
            None
        }
    }

    /// El primer defecto, en el orden en que se comprueba.
    pub open spec fn defecto(&self) -> Option<DefectoDeTeselado> {
        let n = self.positions@.len() as u32;
        let k = primer_indice_fuera(self.indices@, n, 0);
        if self.indices@.len() % 3 != 0 {
            Some(DefectoDeTeselado::IndicesSueltos { indices: self.indices@.len() as usize })
        } else if self.face_of_triangle@.len() != self.indices@.len() / 3 {
            Some(
                DefectoDeTeselado::ProcedenciaIncompleta {
                    triangulos: (self.indices@.len() / 3) as usize,
                    ids: self.face_of_triangle@.len() as usize,
                },
            )
        } else if self.normals@.len() != 0 && self.normals@.len() != self.positions@.len() {
            Some(DefectoDeTeselado::NormalesDescuadradas)
        } else if k < self.indices@.len() {
            Some(DefectoDeTeselado::IndiceFuera { indice: self.indices@[k], vertices: n })
        } else {
            None
        }
    }

    /// Invariantes de un teselado: triángulos enteros, una cara de origen por
    /// triángulo, normales cuadradas e índices en rango.
    pub fn validate(&self) -> (r: Result<(), DefectoDeTeselado>)
        ensures
            r is Ok <==> self.defecto() is None,
            self.defecto() matches Some(d) ==> r == Err::<(), DefectoDeTeselado>(d),
    {
        if self.indices.len() % 3 != 0 {
            return Err(DefectoDeTeselado::IndicesSueltos { indices: self.indices.len() });
        }
        if self.face_of_triangle.len() != self.triangle_count() {
            return Err(
                DefectoDeTeselado::ProcedenciaIncompleta {
                    triangulos: self.triangle_count(),
                    ids: self.face_of_triangle.len(),
                },
            );
        }
        if self.normals.len() != 0 && self.normals.len() != self.positions.len() {
            return Err(DefectoDeTeselado::NormalesDescuadradas);
        }
        let n = #[verifier::truncate] (self.positions.len() as u32);
        match buscar_fuera(&self.indices, n) {
            Some(mal) => Err(DefectoDeTeselado::IndiceFuera { indice: mal, vertices: n }),
            None => Ok(()),
        }
    }
}

/// Huella cuantizada de una entidad, para re-vincular por geometría.
#[derive(Clone, Copy, Debug, PartialEq, Eq, Hash)]
pub struct GeometrySignature {
    pub centroid_q: [i64; 3],
    pub normal_q: [i64; 3],
    pub measure_q: i64,
    pub class: TopoClass,
}

/// Una entidad topológica con su procedencia y su huella.
#[derive(Clone, Debug)]
pub struct TopoEntity {
    pub id: StableId,
    pub provenance: TopoProvenance,
    pub signature: GeometrySignature,
}

/// Topología de una forma.
#[derive(Clone, Debug, Default)]
pub struct TopologySummary {
    pub faces: Vec<TopoEntity>,
    pub edges: Vec<TopoEntity>,
    pub vertices: Vec<TopoEntity>,
    pub is_solid: bool,
    pub is_closed: bool,
}

/// Resultado de validar una forma.
#[derive(Clone, Debug, Default)]
pub struct ValidationReport {
    pub valid: bool,
    pub problems: Vec<String>,
}

/// Operación booleana.
#[derive(Clone, Copy, PartialEq, Eq, Structural, Debug)]
pub enum BoolOp {
    Union,
    Difference,
    Intersection,
}

// ---------------------------------------------------------------------------
// Croquis
// ---------------------------------------------------------------------------

#[derive(Clone, Copy, PartialEq, Eq, Structural, Hash, PartialOrd, Ord, Debug)]
pub struct PointId(pub u32);

#[derive(Clone, Copy, PartialEq, Eq, Structural, Hash, PartialOrd, Ord, Debug)]
pub struct DimId(pub u32);

#[derive(Clone, Copy, PartialEq, Eq, Structural, Debug)]
pub enum SketchEntity {
    Line { a: PointId, b: PointId },
    Circle { center: PointId, rim: PointId },
    Arc { center: PointId, start: PointId, end: PointId },
}

/// Restricciones geométricas de un croquis.
#[derive(Clone, Copy, PartialEq, Eq, Debug)]
pub enum Constraint {
    Coincident(PointId, PointId),
    Fixed(PointId),
    Horizontal(PointId, PointId),
    Vertical(PointId, PointId),
    Distance { a: PointId, b: PointId, dim: DimId },
    Radius { center: PointId, rim: PointId, dim: DimId },
    Parallel { a: (PointId, PointId), b: (PointId, PointId) },
    Perpendicular { a: (PointId, PointId), b: (PointId, PointId) },
    EqualLength { a: (PointId, PointId), b: (PointId, PointId) },
    Angle { a: (PointId, PointId), b: (PointId, PointId), dim: DimId },
    Symmetric { a: PointId, b: PointId, axis: (PointId, PointId) },
}

/// Ecuaciones escalares que impone cada restricción.
pub open spec fn ecuaciones(c: Constraint) -> nat {
    match c {
        Constraint::Coincident(..) => 2,
        Constraint::Fixed(_) => 2,
        Constraint::Symmetric { .. } => 2,
        _ => 1,
    }
}

impl Constraint {
    /// Ecuaciones escalares que impone: dos las que fijan un punto entero,
    /// una las demás.
    pub fn equation_count(&self) -> (r: usize)
        ensures
            r == ecuaciones(*self),
    {
        match self {
            Constraint::Coincident(..) => 2,
            Constraint::Fixed(_) => 2,
            Constraint::Horizontal(..) | Constraint::Vertical(..) => 1,
            Constraint::Distance { .. } => 1,
            Constraint::Radius { .. } => 1,
            Constraint::Parallel { .. } | Constraint::Perpendicular { .. } => 1,
            Constraint::EqualLength { .. } => 1,
            Constraint::Angle { .. } => 1,
            Constraint::Symmetric { .. } => 2,
        }
    }
}

/// Suma de ecuaciones de una lista de restricciones.
pub open spec fn suma_ecuaciones(s: Seq<Constraint>) -> nat
    decreases s.len(),
{
    if s.len() == 0 {
        0
    } else {
        suma_ecuaciones(s.drop_last()) + ecuaciones(s.last())
    }
}

proof fn lema_suma_acotada(s: Seq<Constraint>)
    ensures
        suma_ecuaciones(s) <= 2 * s.len(),
    decreases s.len(),
{
    if s.len() > 0 {
        lema_suma_acotada(s.drop_last());
    }
}

/// Un croquis: puntos, entidades, restricciones y cotas (por sus bits).
#[derive(Clone, Debug, Default)]
pub struct SketchModel {
    pub points: Vec<DVec2>,
    pub entities: Vec<SketchEntity>,
    pub constraints: Vec<Constraint>,
    pub dimensions: Vec<u64>,
}

impl SketchModel {
    /// Añade un punto y devuelve su id: su posición en la lista.
    pub fn add_point(&mut self, p: DVec2) -> (r: PointId)
        requires
            old(self).points@.len() < u32::MAX,
        ensures
            final(self).points@ == old(self).points@.push(p),
            final(self).entities == old(self).entities,
            final(self).constraints == old(self).constraints,
            final(self).dimensions == old(self).dimensions,
            r.0 == old(self).points@.len(),
    {
        self.points.push(p);
        PointId((self.points.len() - 1) as u32)
    }

    /// Añade una cota (por sus bits) y devuelve su id.
    pub fn add_dimension(&mut self, value_bits: u64) -> (r: DimId)
        requires
            old(self).dimensions@.len() < u32::MAX,
        ensures
            final(self).dimensions@ == old(self).dimensions@.push(value_bits),
            final(self).points == old(self).points,
            final(self).entities == old(self).entities,
            final(self).constraints == old(self).constraints,
            r.0 == old(self).dimensions@.len(),
    {
        self.dimensions.push(value_bits);
        DimId((self.dimensions.len() - 1) as u32)
    }

    pub fn point(&self, id: PointId) -> (r: Option<DVec2>)
        ensures
            r == (if (id.0 as int) < self.points@.len() {
                Some(self.points@[id.0 as int])
            } else {
                None
            }),
    {
        if (id.0 as usize) < self.points.len() {
            Some(self.points[id.0 as usize])
        } else {
            None
        }
    }

    /// Los bits de una cota.
    pub fn dimension(&self, id: DimId) -> (r: Option<u64>)
        ensures
            r == (if (id.0 as int) < self.dimensions@.len() {
                Some(self.dimensions@[id.0 as int])
            } else {
                None
            }),
    {
        if (id.0 as usize) < self.dimensions.len() {
            Some(self.dimensions[id.0 as usize])
        } else {
            None
        }
    }

    /// Cambia una cota. Devuelve si existía.
    pub fn set_dimension(&mut self, id: DimId, v_bits: u64) -> (r: bool)
        ensures
            r == ((id.0 as int) < old(self).dimensions@.len()),
            r ==> final(self).dimensions@ == old(self).dimensions@.update(id.0 as int, v_bits),
            !r ==> final(self).dimensions@ == old(self).dimensions@,
            final(self).points == old(self).points,
            final(self).entities == old(self).entities,
            final(self).constraints == old(self).constraints,
    {
        if (id.0 as usize) < self.dimensions.len() {
            self.dimensions.set(id.0 as usize, v_bits);
            true
        } else {
            false
        }
    }

    /// Grados de libertad nominales: dos por punto menos las ecuaciones de
    /// las restricciones. Negativo = sobre-restringido en el papel.
    pub fn nominal_dof(&self) -> (r: i64)
        requires
            2 * self.points@.len() <= i64::MAX,
            2 * self.constraints@.len() <= i64::MAX,
        ensures
            r == 2 * self.points@.len() - suma_ecuaciones(self.constraints@),
    {
        let vars = 2 * (self.points.len() as i64);
        let mut eqs: i64 = 0;
        let mut i: usize = 0;
        assert(self.constraints@.take(0) =~= Seq::<Constraint>::empty());
        while i < self.constraints.len()
            invariant
                i <= self.constraints@.len(),
                2 * self.constraints@.len() <= i64::MAX,
                eqs == suma_ecuaciones(self.constraints@.take(i as int)),
            decreases self.constraints@.len() - i,
        {
            proof {
                assert(self.constraints@.take(i + 1).drop_last() =~= self.constraints@.take(i as int));
                lema_suma_acotada(self.constraints@.take(i + 1));
            }
            eqs = eqs + self.constraints[i].equation_count() as i64;
            i = i + 1;
        }
        assert(self.constraints@.take(self.constraints@.len() as int) =~= self.constraints@);
        vars - eqs
    }
}

/// Resultado de resolver un croquis.
#[derive(Clone, Debug)]
pub enum SolveStatus {
    /// Resuelto.
    Solved,
    UnderConstrained { dof: usize },
    OverConstrained { conflicting: Vec<usize> },
    NoConvergence { residual_bits: u64, iterations: u32 },
}

impl SolveStatus {
    /// Resuelto o con holgura: la geometría se puede usar.
    pub fn usable(&self) -> (r: bool)
        ensures
            r == (*self is Solved || *self is UnderConstrained),
    {
        match self {
            SolveStatus::Solved | SolveStatus::UnderConstrained { .. } => true,
            _ => false,
        }
    }
}


/// Cuántas ecuaciones escalares impone cada restricción de un croquis: las
/// que atan un punto entero (a otro, a su sitio o a su simétrico) quitan sus
/// dos grados de libertad; las de dirección, distancia, radio, paralelismo,
/// perpendicularidad, igualdad y ángulo quitan uno.
pub proof fn ley_ecuaciones_por_restriccion(p: PointId, q: PointId, e: (PointId, PointId), g: (PointId, PointId), d: DimId)
    ensures
        ecuaciones(Constraint::Coincident(p, q)) == 2,
        ecuaciones(Constraint::Fixed(p)) == 2,
        ecuaciones(Constraint::Symmetric { a: p, b: q, axis: e }) == 2,
        ecuaciones(Constraint::Horizontal(p, q)) == 1,
        ecuaciones(Constraint::Vertical(p, q)) == 1,
        ecuaciones(Constraint::Distance { a: p, b: q, dim: d }) == 1,
        ecuaciones(Constraint::Radius { center: p, rim: q, dim: d }) == 1,
        ecuaciones(Constraint::Parallel { a: e, b: g }) == 1,
        ecuaciones(Constraint::Perpendicular { a: e, b: g }) == 1,
        ecuaciones(Constraint::EqualLength { a: e, b: g }) == 1,
        ecuaciones(Constraint::Angle { a: e, b: g, dim: d }) == 1,
{
}

/// Añadir una restricción a un croquis suma sus ecuaciones a las que ya
/// había: hacer coincidir dos puntos quita dos grados de libertad, fijar una
/// dirección uno.
pub proof fn ley_ecuaciones_al_anadir(s: Seq<Constraint>, p: PointId, q: PointId)
    ensures
        suma_ecuaciones(s.push(Constraint::Coincident(p, q))) == suma_ecuaciones(s) + 2,
        suma_ecuaciones(s.push(Constraint::Fixed(p))) == suma_ecuaciones(s) + 2,
        suma_ecuaciones(s.push(Constraint::Horizontal(p, q))) == suma_ecuaciones(s) + 1,
        suma_ecuaciones(s.push(Constraint::Vertical(p, q))) == suma_ecuaciones(s) + 1,
{
    assert(s.push(Constraint::Coincident(p, q)).drop_last() =~= s);
    assert(s.push(Constraint::Fixed(p)).drop_last() =~= s);
    assert(s.push(Constraint::Horizontal(p, q)).drop_last() =~= s);
    assert(s.push(Constraint::Vertical(p, q)).drop_last() =~= s);
}

} // verus!
