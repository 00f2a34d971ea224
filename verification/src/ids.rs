//! Identidades del documento y de la topología.

use vstd::prelude::*;

verus! {

/// Una versión del documento. Monótona dentro de una sesión.
#[derive(Clone, Copy, PartialEq, Eq, Structural, Hash, PartialOrd, Ord, Debug)]
pub struct VersionId(pub u64);

/// Clase de una entidad topológica.
#[derive(Clone, Copy, PartialEq, Eq, Structural, Hash, PartialOrd, Ord, Debug)]
pub enum TopoClass {
    Face,
    Edge,
    Vertex,
}

/// Un nodo del árbol de features. El valor es el ULID de 128 bits.
#[derive(Clone, Copy, PartialEq, Eq, Structural, Hash, PartialOrd, Ord, Debug)]
pub struct FeatureId(pub u128);

/// Una entidad de la escena. El valor es el ULID de 128 bits.
#[derive(Clone, Copy, PartialEq, Eq, Structural, Hash, PartialOrd, Ord, Debug)]
pub struct EntityId(pub u128);

impl FeatureId {
    /// Determinista, para tests y para documentos generados.
    pub fn from_u128(v: u128) -> (r: FeatureId)
        ensures
            r.0 == v,
    {
        FeatureId(v)
    }
}

impl EntityId {
    /// Determinista, para tests y para documentos generados.
    pub fn from_u128(v: u128) -> (r: EntityId)
        ensures
            r.0 == v,
    {
        EntityId(v)
    }
}

/// Referencia estable a una sub-entidad topológica.
#[derive(Clone, Copy, PartialEq, Eq, Structural, Hash, PartialOrd, Ord, Debug)]
pub struct StableId {
    pub origin: FeatureId,
    pub class: TopoClass,
    pub mark: u64,
}

/// Estado de resolución de una referencia tras un recálculo.
///
/// `Broken` es un estado de primera clase y se muestra en la interfaz. Nunca se
/// re-vincula en silencio a la candidata más parecida.
///
/// La confianza de `Rebound` es un `f32` guardado por su patrón de bits IEEE-754.
#[derive(Clone, Copy, PartialEq, Eq, Structural, Debug)]
pub enum Binding<T> {
    Bound(T),
    /// Resuelto por firma geométrica tras un cambio de topología.
    Rebound { value: T, confidence_bits: u32 },
    Broken,
}

impl<T: Copy> Binding<T> {
    pub open spec fn spec_value(self) -> Option<T> {
        match self {
            Binding::Bound(v) => Some(v),
            Binding::Rebound { value, .. } => Some(value),
            Binding::Broken => None,
        }
    }

    pub fn value(&self) -> (r: Option<T>)
        ensures
            r == self.spec_value(),
    {
        match self {
            Binding::Bound(v) => Some(*v),
            Binding::Rebound { value, .. } => Some(*value),
            Binding::Broken => None,
        }
    }

    pub fn is_broken(&self) -> (r: bool)
        ensures
            r == (*self is Broken),
            r == (self.spec_value() is None),
    {
        match self {
            Binding::Broken => true,
            _ => false,
        }
    }
}

} // verus!
