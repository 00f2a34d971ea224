//! Tipos del almacén de activos: identidades, metadatos, reloj e informes.
//!
//! El almacén en sí (índice SQLite, diario en disco, blobs) es E/S y vive
//! fuera de la biblioteca; aquí está lo que decide.

use vstd::prelude::*;
use vstd::string::StringSliceAdditionalSpecFns;

use crate::consulta::{normalizado, normalizar};
use crate::orden::{creciente, insertar_unico, vistas};
use crate::texto::{anadir, de_caracteres};

verus! {

// ---------------------------------------------------------------------------
// Identidades
// ---------------------------------------------------------------------------

/// El valor de una cifra del alfabeto de Crockford que usa ULID
/// (`0123456789ABCDEFGHJKMNPQRSTVWXYZ`, sin I, L, O ni U), en mayúscula o en
/// minúscula.
pub open spec fn cifra_crockford(c: u8) -> Option<int> {
    let m = if 97 <= c <= 122 {
        c - 32
    } else {
        c as int
    };
    if 48 <= c <= 57 {
        Some(c - 48)
    } else if 65 <= m <= 72 {
        Some(m - 55)
    } else if m == 74 || m == 75 {
        Some(m - 56)
    } else if m == 77 || m == 78 {
        Some(m - 57)
    } else if 80 <= m <= 84 {
        Some(m - 58)
    } else if 86 <= m <= 90 {
        Some(m - 59)
    } else {
        None
    }
}

/// Las cifras de `b` leídas en base 32, cinco bits cada una, quedándose con
/// los 128 bits bajos; nada si alguna no es una cifra.
pub open spec fn valor_crockford(b: Seq<u8>) -> Option<int>
    decreases b.len(),
{
    if b.len() == 0 {
        Some(0)
    } else {
        match (valor_crockford(b.drop_last()), cifra_crockford(b.last())) {
            (Some(v), Some(d)) => Some((v * 32) % (u128::MAX as int + 1) + d),
            _ => None,
        }
    }
}

/// El ULID que escribe el texto de bytes `b`: 26 cifras de Crockford.
pub open spec fn ulid_de_texto(b: Seq<u8>) -> Option<u128> {
    if b.len() != 26 {
        None
    } else {
        match valor_crockford(b) {
            Some(v) => Some(v as u128),
            None => None,
        }
    }
}

/// Lee un ULID de texto (`ulid::Ulid::from_string`). El contrato dice que el
/// resultado es el valor que calcula `ulid_de_texto`, que un texto que no mide 26
/// bytes se rechaza por su longitud y que uno que sí los mide se rechaza por
/// un carácter; el error sale como lo escribe su `Display`.
#[verifier::external_body]
fn leer_ulid(s: &str) -> (r: Result<u128, String>)
    ensures
        r is Ok <==> ulid_de_texto(s.spec_bytes()) is Some,
        r matches Ok(v) ==> ulid_de_texto(s.spec_bytes()) == Some(v),
        r is Err ==> r->Err_0@ == (if s.spec_bytes().len() != 26 {
            "invalid length"@
        } else {
            "invalid character"@
        }),
        s.spec_bytes().len() != 26 ==> r is Err,
{
    match ulid::Ulid::from_string(s) {
        Ok(u) => Ok(u.0),
        Err(e) => Err(e.to_string()),
    }
}

/// La forma de depuración de un texto: entre comillas y con los caracteres
/// especiales escapados.
pub uninterp spec fn depurado(s: Seq<char>) -> Seq<char>;

/// `<str as Debug>::fmt`. El contrato dice que el resultado es el que nombra
/// `depurado`.
#[verifier::external_body]
fn escribir_depurado(s: &str) -> (r: String)
    ensures
        r@ == depurado(s@),
{
    format!("{s:?}")
}

/// El mensaje de un id ilegible: el texto, depurado, y por qué no se lee.
pub open spec fn mensaje_id_ilegible(s: Seq<char>, por_que: Seq<char>) -> Seq<char> {
    "id "@ + depurado(s) + ": "@ + por_que
}

/// Identidad de un activo: un ULID, ordenable por tiempo.
#[derive(Clone, Copy, PartialEq, Eq, Structural, Hash, PartialOrd, Ord, Debug)]
pub struct AssetId(pub u128);

/// Versión de un activo. Empieza en 1 y crece de uno en uno por activo.
#[derive(Clone, Copy, PartialEq, Eq, Structural, Hash, PartialOrd, Ord, Debug)]
pub struct VersionId(pub u64);

/// Errores del almacén que la biblioteca sabe producir.
#[derive(Clone, Debug)]
pub enum AssetError {
    EsquemaFuturo { encontrada: u32, soportada: u32 },
    Desconocido(AssetId),
    VersionDesconocida { id: AssetId, version: VersionId },
    Ciclo { de: AssetId, a: AssetId },
    RegistroIlegible(String),
    IndiceCorrupto(String),
}

impl AssetId {
    /// Determinista, para tests.
    pub fn from_u128(v: u128) -> (r: AssetId)
        ensures
            r.0 == v,
    {
        AssetId(v)
    }

    /// Lee un id de su forma textual. Uno que no se lee es un índice
    /// corrupto, y el mensaje dice qué texto era y por qué no se lee.
    pub fn parse(s: &str) -> (r: Result<AssetId, AssetError>)
        ensures
            r is Ok <==> ulid_de_texto(s.spec_bytes()) is Some,
            r matches Ok(id) ==> ulid_de_texto(s.spec_bytes()) == Some(id.0),
            r is Err ==> r->Err_0 is IndiceCorrupto,
            s.spec_bytes().len() != 26 ==> (r matches Err(AssetError::IndiceCorrupto(m)) && m@
                == mensaje_id_ilegible(s@, "invalid length"@)),
            s.spec_bytes().len() == 26 && r is Err ==> (r matches Err(AssetError::IndiceCorrupto(m))
                && m@ == mensaje_id_ilegible(s@, "invalid character"@)),
    {
        match leer_ulid(s) {
            Ok(v) => Ok(AssetId(v)),
            Err(e) => {
                let mut out: Vec<char> = Vec::new();
                anadir(&mut out, "id ");
                let d = escribir_depurado(s);
                anadir(&mut out, d.as_str());
                anadir(&mut out, ": ");
                anadir(&mut out, e.as_str());
                Err(AssetError::IndiceCorrupto(de_caracteres(&out)))
            },
        }
    }
}

// ---------------------------------------------------------------------------
// Tipos de activo
// ---------------------------------------------------------------------------

/// Qué clase de activo es. Se guarda como entero en el índice y como texto en
/// el diario.
#[derive(Clone, Copy, PartialEq, Eq, Structural, Hash, PartialOrd, Ord, Debug)]
pub enum AssetType {
    Modelo,
    Textura,
    Material,
    Referencia,
    Documento,
    Nota,
}

/// El código estable de cada tipo en el índice.
pub open spec fn codigo_de(t: AssetType) -> u8 {
    match t {
        AssetType::Modelo => 0,
        AssetType::Textura => 1,
        AssetType::Material => 2,
        AssetType::Referencia => 3,
        AssetType::Documento => 4,
        AssetType::Nota => 5,
    }
}

/// El tipo de cada código, si lo hay.
pub open spec fn tipo_de_codigo(c: u8) -> Option<AssetType> {
    if c == 0 {
        Some(AssetType::Modelo)
    } else if c == 1 {
        Some(AssetType::Textura)
    } else if c == 2 {
        Some(AssetType::Material)
    } else if c == 3 {
        Some(AssetType::Referencia)
    } else if c == 4 {
        Some(AssetType::Documento)
    } else if c == 5 {
        Some(AssetType::Nota)
    } else {
        None
    }
}

/// El nombre de cada tipo en el diario.
pub open spec fn nombre_de_tipo(t: AssetType) -> Seq<char> {
    match t {
        AssetType::Modelo => "modelo"@,
        AssetType::Textura => "textura"@,
        AssetType::Material => "material"@,
        AssetType::Referencia => "referencia"@,
        AssetType::Documento => "documento"@,
        AssetType::Nota => "nota"@,
    }
}

impl AssetType {
    /// Código estable en el índice. No reordenar: cambiarlo obligaría a una
    /// migración de esquema.
    pub fn code(self) -> (r: u8)
        ensures
            r == codigo_de(self),
    {
        match self {
            AssetType::Modelo => 0,
            AssetType::Textura => 1,
            AssetType::Material => 2,
            AssetType::Referencia => 3,
            AssetType::Documento => 4,
            AssetType::Nota => 5,
        }
    }

    pub fn from_code(c: u8) -> (r: Option<AssetType>)
        ensures
            r == tipo_de_codigo(c),
    {
        match c {
            0 => Some(AssetType::Modelo),
            1 => Some(AssetType::Textura),
            2 => Some(AssetType::Material),
            3 => Some(AssetType::Referencia),
            4 => Some(AssetType::Documento),
            5 => Some(AssetType::Nota),
            _ => None,
        }
    }

    pub fn as_str(self) -> (r: &'static str)
        ensures
            r@ == nombre_de_tipo(self),
    {
        match self {
            AssetType::Modelo => "modelo",
            AssetType::Textura => "textura",
            AssetType::Material => "material",
            AssetType::Referencia => "referencia",
            AssetType::Documento => "documento",
            AssetType::Nota => "nota",
        }
    }

    /// Todos los tipos, en el orden de sus códigos.
    pub fn todos() -> (r: [AssetType; 6])
        ensures
            forall|i: int| 0 <= i < 6 ==> codigo_de(#[trigger] r@[i]) == i,
    {
        [
            AssetType::Modelo,
            AssetType::Textura,
            AssetType::Material,
            AssetType::Referencia,
            AssetType::Documento,
            AssetType::Nota,
        ]
    }
}

/// Código y tipo se deshacen el uno al otro: todo tipo vuelve de su código, y
/// todo código con tipo vuelve a sí mismo. Solo los códigos 0 a 5 tienen tipo.
pub proof fn ley_codigo_ida_y_vuelta(t: AssetType, c: u8)
    ensures
        tipo_de_codigo(codigo_de(t)) == Some(t),
        tipo_de_codigo(c) is Some <==> c < 6,
        tipo_de_codigo(c) matches Some(u) ==> codigo_de(u) == c,
{
}

// ---------------------------------------------------------------------------
// Metadatos
// ---------------------------------------------------------------------------

/// Lo que el usuario escribe sobre un activo. Las etiquetas son un conjunto:
/// se guardan ordenadas y sin repetir.
#[derive(Clone, Debug)]
pub struct AssetMeta {
    pub name: String,
    pub kind: AssetType,
    pub tags: Vec<String>,
    pub notes: String,
}

/// Una lista de cadenas como conjunto ordenado: creciente y con los mismos
/// elementos que `origen`.
pub open spec fn conjunto_ordenado_de(r: Seq<String>, origen: Seq<Seq<char>>) -> bool {
    creciente(vistas(r)) && vistas(r).to_set() == origen.to_set()
}

/// El conjunto ordenado de unas cadenas.
pub fn conjunto_ordenado(v: Vec<String>) -> (r: Vec<String>)
    ensures
        conjunto_ordenado_de(r@, vistas(v@)),
{
    let mut out: Vec<String> = Vec::new();
    let mut i: usize = 0;
    assert(vistas(out@) =~= Seq::<Seq<char>>::empty());
    assert(vistas(v@).take(0) =~= Seq::<Seq<char>>::empty());
    while i < v.len()
        invariant
            i <= v@.len(),
            creciente(vistas(out@)),
            vistas(out@).to_set() == vistas(v@).take(i as int).to_set(),
        decreases v@.len() - i,
    {
        let s = v[i].clone();
        insertar_unico(&mut out, s);
        proof {
            assert(vistas(v@).take(i + 1) =~= vistas(v@).take(i as int).push(v@[i as int]@));
            vistas(v@).take(i as int).lemma_push_to_set_commute(v@[i as int]@);
        }
        i = i + 1;
    }
    assert(vistas(v@).take(v@.len() as int) =~= vistas(v@));
    out
}

impl AssetMeta {
    pub fn new(name: &str, kind: AssetType) -> (r: AssetMeta)
        ensures
            r.name@ == name@,
            r.kind == kind,
            r.tags@.len() == 0,
            r.notes@.len() == 0,
    {
        AssetMeta { name: String::from_str(name), kind, tags: Vec::new(), notes: String::new() }
    }

    /// Sustituye las etiquetas por el conjunto de `tags`.
    pub fn with_tags(self, tags: Vec<String>) -> (r: AssetMeta)
        ensures
            r.name == self.name,
            r.kind == self.kind,
            r.notes == self.notes,
            conjunto_ordenado_de(r.tags@, vistas(tags@)),
    {
        let AssetMeta { name, kind, tags: _, notes } = self;
        AssetMeta { name, kind, tags: conjunto_ordenado(tags), notes }
    }

    pub fn with_notes(self, n: &str) -> (r: AssetMeta)
        ensures
            r.name == self.name,
            r.kind == self.kind,
            r.tags == self.tags,
            r.notes@ == n@,
    {
        let AssetMeta { name, kind, tags, notes: _ } = self;
        AssetMeta { name, kind, tags, notes: String::from_str(n) }
    }

    /// Deja las etiquetas en forma canónica: normalizadas, sin vacías, como
    /// conjunto ordenado.
    pub fn canonica(self) -> (r: AssetMeta)
        ensures
            r.name == self.name,
            r.kind == self.kind,
            r.notes == self.notes,
            creciente(vistas(r.tags@)),
            forall|x: Seq<char>| #[trigger]
                vistas(r.tags@).to_set().contains(x) <==> (x.len() > 0 && exists|i: int|
                    0 <= i < self.tags@.len() && normalizado(self.tags@[i]@) == x),
    {
        let AssetMeta { name, kind, tags, notes } = self;
        let mut out: Vec<String> = Vec::new();
        let mut i: usize = 0;
        while i < tags.len()
            invariant
                i <= tags@.len(),
                creciente(vistas(out@)),
                forall|x: Seq<char>| #[trigger]
                    vistas(out@).to_set().contains(x) <==> (x.len() > 0 && exists|k: int|
                        0 <= k < i && normalizado(tags@[k]@) == x),
            decreases tags@.len() - i,
        {
            let t = normalizar(tags[i].as_str());
            let ghost previo = vistas(out@).to_set();
            if !t.as_str().is_empty() {
                insertar_unico(&mut out, t);
            }
            proof {
                assert forall|x: Seq<char>| #[trigger]
                    vistas(out@).to_set().contains(x) <==> (x.len() > 0 && exists|k: int|
                        0 <= k < i + 1 && normalizado(tags@[k]@) == x) by {
                    if x.len() > 0 && exists|k: int| 0 <= k < i + 1 && normalizado(tags@[k]@) == x {
                        let k = choose|k: int| 0 <= k < i + 1 && normalizado(tags@[k]@) == x;
                        if k < i {
                            assert(previo.contains(x));
                        }
                    }
                    if previo.contains(x) {
                        let k = choose|k: int| 0 <= k < i && normalizado(tags@[k]@) == x;
                        assert(0 <= k < i + 1 && normalizado(tags@[k]@) == x);
                    }
                }
            }
            i = i + 1;
        }
        AssetMeta { name, kind, tags: out, notes }
    }
}

// ---------------------------------------------------------------------------
// Reloj
// ---------------------------------------------------------------------------

/// De dónde salen las fechas. Se inyecta para que los tests de rango de fechas
/// puedan afirmar recuentos exactos.
pub trait Clock {
    fn now_ms(&self) -> i64;
}

/// Reloj gobernado a mano.
pub struct FixedClock(pub i64);

impl FixedClock {
    pub fn new(ms: i64) -> (r: FixedClock)
        ensures
            r.0 == ms,
    {
        FixedClock(ms)
    }

    pub fn set(&mut self, ms: i64)
        ensures
            final(self).0 == ms,
    {
        self.0 = ms;
    }

    /// Adelanta el reloj y devuelve el valor nuevo.
    pub fn advance(&mut self, ms: i64) -> (r: i64)
        requires
            i64::MIN <= old(self).0 + ms <= i64::MAX,
        ensures
            r == old(self).0 + ms,
            final(self).0 == r,
    {
        self.0 = self.0 + ms;
        self.0
    }
}

impl Clock for FixedClock {
    fn now_ms(&self) -> (r: i64)
        ensures
            r == self.0,
    {
        self.0
    }
}

// ---------------------------------------------------------------------------
// Informes y diario
// ---------------------------------------------------------------------------

/// Qué hizo la recolección de basura.
#[derive(Clone, Copy, Debug, Default, PartialEq, Eq, Structural)]
pub struct GcReport {
    pub examined: u64,
    pub removed: u64,
    pub kept: u64,
    pub freed_bytes: u64,
}

/// Cuánto se compromete cada escritura del diario antes de devolver el control.
#[derive(Clone, Copy, PartialEq, Eq, Structural, Debug)]
pub enum Durability {
    /// Sincroniza tras cada registro. Es el valor por defecto.
    PerWrite,
    /// Sin sincronizar: solo para cargas masivas.
    Deferred,
}

impl Default for Durability {
    fn default() -> (r: Durability)
        ensures
            r == Durability::PerWrite,
    {
        Durability::PerWrite
    }
}

/// Un hecho del diario. Reproducirlos en orden reconstruye el índice.
#[derive(Clone, Debug)]
pub enum Registro {
    Importado {
        id: String,
        version: u64,
        hash: String,
        tam: u64,
        origen: String,
        meta: AssetMeta,
        ts: i64,
    },
    Vigente { id: String, version: u64, ts: i64 },
    Meta { id: String, meta: AssetMeta, ts: i64 },
    Etiqueta { id: String, etiqueta: String, pon: bool, ts: i64 },
    Miniatura { id: String, hash: Option<String>, ts: i64 },
    Dependencia { de: String, a: String, pon: bool, ts: i64 },
    Borrado { id: String, ts: i64 },
}

/// Lo que se leyó del diario a partir de un desplazamiento.
pub struct Lectura {
    pub registros: Vec<Registro>,
    /// Líneas completas que no se pudieron interpretar.
    pub ilegibles: u64,
    /// Bytes de la cola sin salto de línea: una escritura interrumpida.
    pub cola_incompleta: u64,
    /// Desplazamiento tras la última línea completa.
    pub offset: u64,
}

/// Qué encontró la apertura del índice.
#[derive(Clone, Copy, PartialEq, Eq, Structural, Debug)]
pub enum Estado {
    /// No había índice: se creó vacío.
    Creado,
    /// El índice ya estaba en la versión de esta build.
    AlDia,
}

} // verus!
