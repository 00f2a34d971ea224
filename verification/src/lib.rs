//! FORGE: núcleo verificado del entorno de modelado.

pub mod ids;
pub mod vector;
pub mod doc;
pub mod mesh;
pub mod hash;
pub mod modifiers;
pub mod texto;
pub mod orden;
pub mod consulta;
pub mod activos;
pub mod aplicacion;
pub mod diario;
pub mod recorrido;
pub mod kernel;
pub mod interop;
pub mod material;
pub mod analisis;
pub mod adyacencia;
pub mod soldadura;
pub mod copias;
pub mod glb;
pub mod gltf;
pub mod subdivision;
pub mod obj;
pub mod wgsl;
pub mod rejilla;
pub mod poliedro;
