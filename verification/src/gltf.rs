//! Lectura de un `.glb` de una malla: del contenedor y las partes del
//! documento JSON que importan, a los números de la malla.
//!
//! El documento JSON lo lee `serde_json`; de él se toman los campos que la
//! lectura consulta ([`DocumentoGltf`]), cada uno ausente si no estaba o no
//! era del tipo que se espera. Los números reales salen como los bits de su
//! `f32`; convertirlos (ejes, unidades) es cosa de quien llama.

use vstd::prelude::*;

use crate::glb::{
    indices_de, leer_indices, leer_u32, separar_glb, trozo_json, trozos_de, trozo_json_de, u32_le, DefectoDeGlb,
    DefectoDeIndices, COMPONENT_UINT, COMPONENT_USHORT,
};

verus! {

/// Tipo de componente `f32`.
pub const COMPONENT_FLOAT: u64 = 5126;

/// Una vista del buffer: `byteOffset` y `byteLength`.
#[derive(Clone, Copy, Debug)]
pub struct VistaGltf {
    pub byte_offset: Option<u64>,
    pub byte_length: Option<u64>,
}

/// Un accesor: `bufferView`, `componentType` y `count`.
#[derive(Clone, Copy, Debug)]
pub struct AccesorGltf {
    pub buffer_view: Option<u64>,
    pub component_type: Option<u64>,
    pub count: Option<u64>,
}

/// Los atributos de la primitiva que se leen.
#[derive(Clone, Copy, Debug)]
pub struct AtributosGltf {
    pub position: Option<u64>,
    pub normal: Option<u64>,
    pub texcoord_0: Option<u64>,
}

/// La primera primitiva de la primera malla.
#[derive(Clone, Copy, Debug)]
pub struct PrimitivaGltf {
    /// `attributes`, si es un objeto.
    pub attributes: Option<AtributosGltf>,
    pub indices: Option<u64>,
}

/// Lo que la lectura consulta del documento JSON.
#[derive(Clone, Debug)]
pub struct DocumentoGltf {
    /// `accessors`, si es un array.
    pub accessors: Option<Vec<AccesorGltf>>,
    /// `bufferViews`, si es un array.
    pub buffer_views: Option<Vec<VistaGltf>>,
    /// `meshes[0].primitives[0]`, si `primitives` es un array no vacío.
    pub primitiva: Option<PrimitivaGltf>,
    /// `meshes[0].name`, si es un texto.
    pub nombre: Option<String>,
}

/// Por qué no se pudo leer un `.glb`.
#[derive(Clone, Debug)]
pub enum DefectoDeGltf {
    Contenedor(DefectoDeGlb),
    /// El documento JSON no se entiende; el mensaje del lector.
    Json(String),
    AccessorsNoEsArray,
    BufferViewsNoEsArray,
    SinPrimitives,
    SinAttributes,
    SinIndices,
    SinPosition,
    /// El accesor del atributo no tiene `bufferView`.
    SinBufferView(&'static str),
    BufferViewFuera,
    SinByteLength,
    SinComponentType,
    SinCount,
    NoEsFloat32,
    /// Faltan bytes para los datos del atributo.
    Truncado(&'static str),
    Indices(DefectoDeIndices),
    /// El documento apunta a un accesor que no existe.
    AccesorFuera { indice: u64 },
}

/// La malla leída: nombre, posiciones y normales de tres en tres, UV de dos
/// en dos (bits de `f32`), e índices.
#[derive(Clone, Debug)]
pub struct SopaCruda {
    pub name: String,
    pub positions: Vec<u32>,
    pub normals: Vec<u32>,
    pub uvs: Vec<u32>,
    pub indices: Vec<u32>,
}

/// Una malla leída, como valor.
pub type SopaCrudaV = (Seq<char>, Seq<u32>, Seq<u32>, Seq<u32>, Seq<u32>);

pub open spec fn sopa_v(s: SopaCruda) -> SopaCrudaV {
    (s.name@, s.positions@, s.normals@, s.uvs@, s.indices@)
}

/// La vista de un accesor: desplazamiento, longitud, tipo de componente y
/// número de elementos, o el primer campo que falta.
pub open spec fn vista_de(a: AccesorGltf, vs: Seq<VistaGltf>, que: &'static str) -> Result<
    (int, int, u64, int),
    DefectoDeGltf,
> {
    match a.buffer_view {
        None => Err(DefectoDeGltf::SinBufferView(que)),
        Some(i) => if (i as usize) >= vs.len() {
            Err(DefectoDeGltf::BufferViewFuera)
        } else {
            let v = vs[(i as usize) as int];
            match v.byte_length {
                None => Err(DefectoDeGltf::SinByteLength),
                Some(l) => match a.component_type {
                    None => Err(DefectoDeGltf::SinComponentType),
                    Some(t) => match a.count {
                        None => Err(DefectoDeGltf::SinCount),
                        Some(c) => Ok(
                            (
                                (match v.byte_offset {
                                    Some(o) => o,
                                    None => 0,
                                }) as usize as int,
                                l as usize as int,
                                t,
                                c as usize as int,
                            ),
                        ),
                    },
                },
            }
        },
    }
}

/// Los `n · count` valores de 32 bits de la vista `[off, off + len)` de
/// `buf`, si caben.
pub open spec fn valores_f32(buf: Seq<u8>, off: int, len: int, count: int, n: int) -> Option<Seq<u32>> {
    if off + len > buf.len() || 4 * n * count > len {
        None
    } else {
        Some(Seq::new((n * count) as nat, |q: int| u32_le(buf, off + 4 * q) as u32))
    }
}

/// Los datos del atributo del accesor `i`, de `n` componentes `f32`.
pub open spec fn atributo(
    buf: Seq<u8>,
    acc: Seq<AccesorGltf>,
    vs: Seq<VistaGltf>,
    i: u64,
    que: &'static str,
    n: int,
) -> Result<Seq<u32>, DefectoDeGltf> {
    if (i as usize) >= acc.len() {
        Err(DefectoDeGltf::AccesorFuera { indice: i })
    } else {
        match vista_de(acc[(i as usize) as int], vs, que) {
            Err(e) => Err(e),
            Ok((off, len, t, c)) => if t != COMPONENT_FLOAT {
                Err(DefectoDeGltf::NoEsFloat32)
            } else {
                match valores_f32(buf, off, len, c, n) {
                    None => Err(DefectoDeGltf::Truncado(que)),
                    Some(s) => Ok(s),
                }
            },
        }
    }
}

/// Un atributo que puede no estar: sin él, ningún dato.
pub open spec fn atributo_opcional(
    buf: Seq<u8>,
    acc: Seq<AccesorGltf>,
    vs: Seq<VistaGltf>,
    i: Option<u64>,
    que: &'static str,
    n: int,
) -> Result<Seq<u32>, DefectoDeGltf> {
    match i {
        None => Ok(Seq::empty()),
        Some(i) => atributo(buf, acc, vs, i, que, n),
    }
}

/// Los índices del accesor `i`.
pub open spec fn indices_gltf(buf: Seq<u8>, acc: Seq<AccesorGltf>, vs: Seq<VistaGltf>, i: u64) -> Result<
    Seq<u32>,
    DefectoDeGltf,
> {
    if (i as usize) >= acc.len() {
        Err(DefectoDeGltf::AccesorFuera { indice: i })
    } else {
        match vista_de(acc[(i as usize) as int], vs, "indices") {
            Err(e) => Err(e),
            Ok((off, len, t, c)) => if off + len > buf.len() {
                Err(DefectoDeGltf::Indices(DefectoDeIndices::Truncados))
            } else {
                let datos = buf.subrange(off, off + len);
                if t == COMPONENT_USHORT {
                    if 2 * c > len {
                        Err(DefectoDeGltf::Indices(DefectoDeIndices::Truncados))
                    } else {
                        Ok(indices_de(datos, 2, c))
                    }
                } else if t == COMPONENT_UINT {
                    if 4 * c > len {
                        Err(DefectoDeGltf::Indices(DefectoDeIndices::Truncados))
                    } else {
                        Ok(indices_de(datos, 4, c))
                    }
                } else {
                    Err(DefectoDeGltf::Indices(DefectoDeIndices::TipoNoSoportado))
                }
            },
        }
    }
}

/// Un documento como valor: accesores, vistas, primitiva y nombre.
pub type DocumentoV = (Option<Seq<AccesorGltf>>, Option<Seq<VistaGltf>>, Option<PrimitivaGltf>, Option<Seq<char>>);

pub open spec fn documento_v(d: DocumentoGltf) -> DocumentoV {
    (
        match d.accessors {
            Some(a) => Some(a@),
            None => None,
        },
        match d.buffer_views {
            Some(v) => Some(v@),
            None => None,
        },
        d.primitiva,
        match d.nombre {
            Some(n) => Some(n@),
            None => None,
        },
    )
}

/// La malla de un documento sobre el buffer `buf`: primero se exigen los
/// arrays de accesores y vistas, la primitiva, sus atributos, sus índices y
/// la posición; luego se leen posiciones, normales, UV e índices, en ese
/// orden, y el primer fallo manda.
pub open spec fn malla_de(buf: Seq<u8>, doc: DocumentoV) -> Result<SopaCrudaV, DefectoDeGltf> {
    match doc.0 {
        None => Err(DefectoDeGltf::AccessorsNoEsArray),
        Some(acc) => match doc.1 {
            None => Err(DefectoDeGltf::BufferViewsNoEsArray),
            Some(vs) => match doc.2 {
                None => Err(DefectoDeGltf::SinPrimitives),
                Some(p) => match p.attributes {
                    None => Err(DefectoDeGltf::SinAttributes),
                    Some(at) => match p.indices {
                        None => Err(DefectoDeGltf::SinIndices),
                        Some(ii) => match at.position {
                            None => Err(DefectoDeGltf::SinPosition),
                            Some(pi) => match atributo(buf, acc, vs, pi, "POSITION", 3) {
                                Err(e) => Err(e),
                                Ok(pos) => match atributo_opcional(buf, acc, vs, at.normal, "NORMAL", 3) {
                                    Err(e) => Err(e),
                                    Ok(nor) => match atributo_opcional(
                                        buf,
                                        acc,
                                        vs,
                                        at.texcoord_0,
                                        "TEXCOORD_0",
                                        2,
                                    ) {
                                        Err(e) => Err(e),
                                        Ok(uv) => match indices_gltf(buf, acc, vs, ii) {
                                            Err(e) => Err(e),
                                            Ok(idx) => Ok(
                                                (
                                                    match doc.3 {
                                                        Some(s) => s,
                                                        None => "malla"@,
                                                    },
                                                    pos,
                                                    nor,
                                                    uv,
                                                    idx,
                                                ),
                                            ),
                                        },
                                    },
                                },
                            },
                        },
                    },
                },
            },
        },
    }
}

/// Un defecto del trozo binario, que se detecta después del JSON.
pub open spec fn defecto_de_bin(d: DefectoDeGlb) -> bool {
    d is CabeceraBinTruncada || d is SegundoNoEsBin || d is BinTruncado
}

/// Por qué no se pudo leer un `.glb`, como valor: el mensaje del lector de
/// JSON, o cualquier otro defecto.
pub enum ErrorLectura {
    Json(Seq<char>),
    Otro(DefectoDeGltf),
}

pub open spec fn error_v(e: DefectoDeGltf) -> ErrorLectura {
    match e {
        DefectoDeGltf::Json(m) => ErrorLectura::Json(m@),
        otro => ErrorLectura::Otro(otro),
    }
}

pub open spec fn sin_json(r: Result<SopaCrudaV, DefectoDeGltf>) -> Result<SopaCrudaV, ErrorLectura> {
    match r {
        Ok(v) => Ok(v),
        Err(e) => Err(ErrorLectura::Otro(e)),
    }
}

/// La lectura de `b`, con `json` lo que dio leer su trozo JSON (si se pudo
/// encontrar): los defectos del contenedor mandan, salvo los del trozo
/// binario si el JSON tampoco se entiende; luego el JSON; luego la malla.
pub open spec fn lectura_glb(b: Seq<u8>, json: Option<Result<DocumentoV, Seq<char>>>) -> Result<
    SopaCrudaV,
    ErrorLectura,
> {
    match trozos_de(b) {
        Err(d) => if defecto_de_bin(d) && json matches Some(Err(m)) {
            Err(ErrorLectura::Json(json->Some_0->Err_0))
        } else {
            Err(ErrorLectura::Otro(DefectoDeGltf::Contenedor(d)))
        },
        Ok((_, bin)) => match json {
            Some(Err(m)) => Err(ErrorLectura::Json(m)),
            Some(Ok(doc)) => sin_json(malla_de(b.subrange(bin.0, bin.1), doc)),
            None => Err(ErrorLectura::Otro(DefectoDeGltf::Contenedor(DefectoDeGlb::JsonTruncado))),
        },
    }
}

/// Lo que dio leer un documento, como valor.
pub open spec fn json_v(json: Option<Result<DocumentoGltf, String>>) -> Option<Result<DocumentoV, Seq<char>>> {
    match json {
        None => None,
        Some(Ok(d)) => Some(Ok(documento_v(d))),
        Some(Err(m)) => Some(Err(m@)),
    }
}

fn vista_exec(a: &AccesorGltf, vs: &Vec<VistaGltf>, que: &'static str) -> (r: Result<
    (usize, usize, u64, usize),
    DefectoDeGltf,
>)
    ensures
        match (r, vista_de(*a, vs@, que)) {
            (Ok(x), Ok(y)) => x.0 == y.0 && x.1 == y.1 && x.2 == y.2 && x.3 == y.3,
            (Err(e), Err(f)) => e == f,
            _ => false,
        },
{
    let i = match a.buffer_view {
        None => {
            return Err(DefectoDeGltf::SinBufferView(que));
        },
        Some(i) => i as usize,
    };
    if i >= vs.len() {
        return Err(DefectoDeGltf::BufferViewFuera);
    }
    let v = vs[i];
    let l = match v.byte_length {
        None => {
            return Err(DefectoDeGltf::SinByteLength);
        },
        Some(l) => l as usize,
    };
    let t = match a.component_type {
        None => {
            return Err(DefectoDeGltf::SinComponentType);
        },
        Some(t) => t,
    };
    let c = match a.count {
        None => {
            return Err(DefectoDeGltf::SinCount);
        },
        Some(c) => c as usize,
    };
    let o = match v.byte_offset {
        Some(o) => o as usize,
        None => 0,
    };
    Ok((o, l, t, c))
}

fn leer_valores(buf: &Vec<u8>, off: usize, len: usize, count: usize, n: usize) -> (r: Option<Vec<u32>>)
    requires
        1 <= n <= 3,
    ensures
        match (r, valores_f32(buf@, off as int, len as int, count as int, n as int)) {
            (Some(v), Some(s)) => v@ == s,
            (None, None) => true,
            _ => false,
        },
{
    if len > buf.len() || off > buf.len() - len {
        return None;
    }
    let d = 4 * n;
    if count > len / d {
        proof {
            assert(d * count > len) by (nonlinear_arith)
                requires
                    count > len / d,
                    d > 0,
            ;
            assert(4 * n * count > len) by (nonlinear_arith)
                requires
                    d * count > len,
                    d == 4 * n,
            ;
        }
        return None;
    }
    proof {
        assert(d * count <= len) by (nonlinear_arith)
            requires
                count <= len / d,
                d > 0,
        ;
        assert(4 * n * count <= len) by (nonlinear_arith)
            requires
                d * count <= len,
                d == 4 * n,
        ;
        assert(4 * (n * count) <= len) by (nonlinear_arith)
            requires
                4 * n * count <= len,
        ;
    }
    let total = n * count;
    let ghost s = Seq::new(total as nat, |q: int| u32_le(buf@, off + 4 * q) as u32);
    let nb = buf.len();
    let mut out: Vec<u32> = Vec::new();
    let mut q: usize = 0;
    while q < total
        invariant
            nb == buf@.len(),
            off + len <= buf@.len(),
            4 * total <= len,
            q <= total,
            s == Seq::new(total as nat, |q: int| u32_le(buf@, off + 4 * q) as u32),
            out@ == s.take(q as int),
        decreases total - q,
    {
        let x = leer_u32(buf.as_slice(), off + 4 * q);
        out.push(x);
        q = q + 1;
        assert(out@ =~= s.take(q as int));
    }
    assert(s.take(total as int) =~= s);
    Some(out)
}

fn atributo_exec(
    buf: &Vec<u8>,
    acc: &Vec<AccesorGltf>,
    vs: &Vec<VistaGltf>,
    i: u64,
    que: &'static str,
    n: usize,
) -> (r: Result<Vec<u32>, DefectoDeGltf>)
    requires
        1 <= n <= 3,
    ensures
        match (r, atributo(buf@, acc@, vs@, i, que, n as int)) {
            (Ok(v), Ok(s)) => v@ == s,
            (Err(e), Err(f)) => e == f,
            _ => false,
        },
{
    let k = i as usize;
    if k >= acc.len() {
        return Err(DefectoDeGltf::AccesorFuera { indice: i });
    }
    let (off, len, t, c) = match vista_exec(&acc[k], vs, que) {
        Ok(x) => x,
        Err(e) => {
            return Err(e);
        },
    };
    if t != COMPONENT_FLOAT {
        return Err(DefectoDeGltf::NoEsFloat32);
    }
    match leer_valores(buf, off, len, c, n) {
        None => Err(DefectoDeGltf::Truncado(que)),
        Some(v) => Ok(v),
    }
}

fn atributo_opcional_exec(
    buf: &Vec<u8>,
    acc: &Vec<AccesorGltf>,
    vs: &Vec<VistaGltf>,
    i: Option<u64>,
    que: &'static str,
    n: usize,
) -> (r: Result<Vec<u32>, DefectoDeGltf>)
    requires
        1 <= n <= 3,
    ensures
        match (r, atributo_opcional(buf@, acc@, vs@, i, que, n as int)) {
            (Ok(v), Ok(s)) => v@ == s,
            (Err(e), Err(f)) => e == f,
            _ => false,
        },
{
    match i {
        None => Ok(Vec::new()),
        Some(i) => atributo_exec(buf, acc, vs, i, que, n),
    }
}

fn indices_exec(buf: &Vec<u8>, acc: &Vec<AccesorGltf>, vs: &Vec<VistaGltf>, i: u64) -> (r: Result<
    Vec<u32>,
    DefectoDeGltf,
>)
    ensures
        match (r, indices_gltf(buf@, acc@, vs@, i)) {
            (Ok(v), Ok(s)) => v@ == s,
            (Err(e), Err(f)) => e == f,
            _ => false,
        },
{
    let k = i as usize;
    if k >= acc.len() {
        return Err(DefectoDeGltf::AccesorFuera { indice: i });
    }
    let (off, len, t, c) = match vista_exec(&acc[k], vs, "indices") {
        Ok(x) => x,
        Err(e) => {
            return Err(e);
        },
    };
    match leer_indices(buf.as_slice(), off, len, t, c) {
        Ok(v) => Ok(v),
        Err(d) => Err(DefectoDeGltf::Indices(d)),
    }
}

fn copiar_tramo(b: &[u8], ini: usize, fin: usize) -> (r: Vec<u8>)
    requires
        ini <= fin <= b@.len(),
    ensures
        r@ == b@.subrange(ini as int, fin as int),
{
    let mut out: Vec<u8> = Vec::new();
    let mut k: usize = ini;
    while k < fin
        invariant
            ini <= k <= fin <= b@.len(),
            out@ == b@.subrange(ini as int, k as int),
        decreases fin - k,
    {
        out.push(b[k]);
        k = k + 1;
        assert(out@ =~= b@.subrange(ini as int, k as int));
    }
    out
}

/// Lee la malla de un `.glb`, con `json` lo que dio leer su trozo JSON, o
/// nada si no se pudo encontrar.
pub fn leer_glb(bytes: &[u8], json: Option<Result<DocumentoGltf, String>>) -> (r: Result<
    SopaCruda,
    DefectoDeGltf,
>)
    requires
        json is Some <==> trozo_json_de(bytes@) is Ok,
    ensures
        match (r, lectura_glb(bytes@, json_v(json))) {
            (Ok(s), Ok(v)) => sopa_v(s) == v,
            (Err(e), Err(f)) => error_v(e) == f,
            _ => false,
        },
{
    let ((_j0, _j1), (b0, b1)) = match separar_glb(bytes) {
        Ok(t) => t,
        Err(d) => {
            let bin = match d {
                DefectoDeGlb::CabeceraBinTruncada => true,
                DefectoDeGlb::SegundoNoEsBin => true,
                DefectoDeGlb::BinTruncado => true,
                _ => false,
            };
            if bin {
                if let Some(Err(m)) = json {
                    return Err(DefectoDeGltf::Json(m));
                }
            }
            return Err(DefectoDeGltf::Contenedor(d));
        },
    };
    let doc = match json {
        Some(Ok(doc)) => doc,
        Some(Err(m)) => {
            return Err(DefectoDeGltf::Json(m));
        },
        None => {
            return Err(DefectoDeGltf::Contenedor(DefectoDeGlb::JsonTruncado));
        },
    };
    let buf = copiar_tramo(bytes, b0, b1);
    let ghost gbuf = bytes@.subrange(b0 as int, b1 as int);
    assert(buf@ == gbuf);
    let acc = match &doc.accessors {
        None => {
            return Err(DefectoDeGltf::AccessorsNoEsArray);
        },
        Some(a) => a,
    };
    let vs = match &doc.buffer_views {
        None => {
            return Err(DefectoDeGltf::BufferViewsNoEsArray);
        },
        Some(v) => v,
    };
    let p = match doc.primitiva {
        None => {
            return Err(DefectoDeGltf::SinPrimitives);
        },
        Some(p) => p,
    };
    let at = match p.attributes {
        None => {
            return Err(DefectoDeGltf::SinAttributes);
        },
        Some(at) => at,
    };
    let ii = match p.indices {
        None => {
            return Err(DefectoDeGltf::SinIndices);
        },
        Some(ii) => ii,
    };
    let pi = match at.position {
        None => {
            return Err(DefectoDeGltf::SinPosition);
        },
        Some(pi) => pi,
    };
    let positions = match atributo_exec(&buf, acc, vs, pi, "POSITION", 3) {
        Ok(v) => v,
        Err(e) => {
            return Err(e);
        },
    };
    let normals = match atributo_opcional_exec(&buf, acc, vs, at.normal, "NORMAL", 3) {
        Ok(v) => v,
        Err(e) => {
            return Err(e);
        },
    };
    let uvs = match atributo_opcional_exec(&buf, acc, vs, at.texcoord_0, "TEXCOORD_0", 2) {
        Ok(v) => v,
        Err(e) => {
            return Err(e);
        },
    };
    let indices = match indices_exec(&buf, acc, vs, ii) {
        Ok(v) => v,
        Err(e) => {
            return Err(e);
        },
    };
    let name = match &doc.nombre {
        Some(s) => s.clone(),
        None => String::from_str("malla"),
    };
    Ok(SopaCruda { name, positions, normals, uvs, indices })
}


// ---------------------------------------------------------------------------
// El documento JSON
// ---------------------------------------------------------------------------

/// El mensaje con que `serde_json` rechaza `b` como JSON, si lo rechaza.
pub uninterp spec fn error_json(b: Seq<u8>) -> Option<Seq<char>>;

/// `accessors` del JSON `b`, si lo es y es un array: de cada elemento, su
/// `bufferView`, `componentType` y `count` si son enteros sin signo.
pub uninterp spec fn accesores_json(b: Seq<u8>) -> Option<Seq<AccesorGltf>>;

/// `bufferViews` del JSON `b`, si lo es y es un array: de cada elemento, su
/// `byteOffset` y `byteLength` si son enteros sin signo.
pub uninterp spec fn vistas_json(b: Seq<u8>) -> Option<Seq<VistaGltf>>;

/// `meshes[0].primitives[0]` del JSON `b`, si lo es y `primitives` es un
/// array no vacío: `attributes` si es un objeto (con `POSITION`, `NORMAL` y
/// `TEXCOORD_0` si son enteros sin signo) e `indices` si lo es.
pub uninterp spec fn primitiva_json(b: Seq<u8>) -> Option<PrimitivaGltf>;

/// `meshes[0].name` del JSON `b`, si lo es y es un texto.
pub uninterp spec fn nombre_json(b: Seq<u8>) -> Option<Seq<char>>;

/// Lee `b` con `serde_json::from_slice::<Value>`. El contrato dice que el
/// resultado es el mensaje de error que nombra `error_json`, o nada si `b`
/// es JSON.
#[verifier::external_body]
fn probar_json(b: &[u8]) -> (r: Option<String>)
    ensures
        match (r, error_json(b@)) {
            (Some(m), Some(n)) => m@ == n,
            (None, None) => true,
            _ => false,
        },
{
    serde_json::from_slice::<serde_json::Value>(b).err().map(|e| e.to_string())
}

/// `serde_json::from_slice::<Value>` y los campos de cada accesor. El
/// contrato dice que el resultado es el que nombra `accesores_json`.
#[verifier::external_body]
fn accesores_de(b: &[u8]) -> (r: Option<Vec<AccesorGltf>>)
    ensures
        match (r, accesores_json(b@)) {
            (Some(v), Some(s)) => v@ == s,
            (None, None) => true,
            _ => false,
        },
{
    let v: serde_json::Value = serde_json::from_slice(b).ok()?;
    let u = |x: &serde_json::Value, k: &str| x[k].as_u64();
    let a = v["accessors"].as_array()?;
    Some(a.iter().map(|x| AccesorGltf { buffer_view: u(x, "bufferView"), component_type: u(x, "componentType"), count: u(x, "count") }).collect())
}

/// `serde_json::from_slice::<Value>` y los campos de cada vista. El contrato
/// dice que el resultado es el que nombra `vistas_json`.
#[verifier::external_body]
fn vistas_de(b: &[u8]) -> (r: Option<Vec<VistaGltf>>)
    ensures
        match (r, vistas_json(b@)) {
            (Some(v), Some(s)) => v@ == s,
            (None, None) => true,
            _ => false,
        },
{
    let v: serde_json::Value = serde_json::from_slice(b).ok()?;
    let a = v["bufferViews"].as_array()?;
    Some(a.iter().map(|x| VistaGltf { byte_offset: x["byteOffset"].as_u64(), byte_length: x["byteLength"].as_u64() }).collect())
}

/// `serde_json::from_slice::<Value>` y la primera primitiva. El contrato dice
/// que el resultado es el que nombra `primitiva_json`.
#[verifier::external_body]
fn primitiva_de(b: &[u8]) -> (r: Option<PrimitivaGltf>)
    ensures
        r == primitiva_json(b@),
{
    let v: serde_json::Value = serde_json::from_slice(b).ok()?;
    let p = v["meshes"][0]["primitives"].as_array()?.first()?;
    let u = |k: &str| p["attributes"].get(k).and_then(|x| x.as_u64());
    let attributes = p["attributes"].as_object().map(|_| AtributosGltf { position: u("POSITION"), normal: u("NORMAL"), texcoord_0: u("TEXCOORD_0") });
    Some(PrimitivaGltf { attributes, indices: p["indices"].as_u64() })
}

/// `serde_json::from_slice::<Value>` y el nombre de la primera malla. El
/// contrato dice que el resultado es el que nombra `nombre_json`.
#[verifier::external_body]
fn nombre_de(b: &[u8]) -> (r: Option<String>)
    ensures
        match (r, nombre_json(b@)) {
            (Some(v), Some(s)) => v@ == s,
            (None, None) => true,
            _ => false,
        },
{
    let v: serde_json::Value = serde_json::from_slice(b).ok()?;
    v["meshes"][0]["name"].as_str().map(String::from)
}

/// El documento que da leer `b` como JSON, o el mensaje con que se rechaza.
pub open spec fn documento_de(b: Seq<u8>) -> Result<DocumentoV, Seq<char>> {
    match error_json(b) {
        Some(m) => Err(m),
        None => Ok((accesores_json(b), vistas_json(b), primitiva_json(b), nombre_json(b))),
    }
}

/// Lee el documento JSON `b`.
pub fn leer_documento(b: &[u8]) -> (r: Result<DocumentoGltf, String>)
    ensures
        match (r, documento_de(b@)) {
            (Ok(d), Ok(e)) => documento_v(d) == e,
            (Err(m), Err(n)) => m@ == n,
            _ => false,
        },
{
    if let Some(m) = probar_json(b) {
        return Err(m);
    }
    let accessors = accesores_de(b);
    let buffer_views = vistas_de(b);
    let primitiva = primitiva_de(b);
    let nombre = nombre_de(b);
    let d = DocumentoGltf { accessors, buffer_views, primitiva, nombre };
    assert(documento_v(d) == documento_de(b@)->Ok_0);
    Ok(d)
}

/// Lo que da leer el trozo JSON de `b`, si se encuentra.
pub open spec fn json_de(b: Seq<u8>) -> Option<Result<DocumentoV, Seq<char>>> {
    match trozo_json_de(b) {
        Ok((i, f)) => Some(documento_de(b.subrange(i, f))),
        Err(_) => None,
    }
}

/// Lee la malla de un `.glb`: el contenedor, su documento JSON y los datos
/// de posiciones, normales, UV e índices.
pub fn leer_glb_de_bytes(bytes: &[u8]) -> (r: Result<SopaCruda, DefectoDeGltf>)
    ensures
        match (r, lectura_glb(bytes@, json_de(bytes@))) {
            (Ok(s), Ok(v)) => sopa_v(s) == v,
            (Err(e), Err(f)) => error_v(e) == f,
            _ => false,
        },
{
    let json = match trozo_json(bytes) {
        Ok((i, f)) => {
            let t = copiar_tramo(bytes, i, f);
            Some(leer_documento(t.as_slice()))
        },
        Err(_) => None,
    };
    assert(json_v(json) == json_de(bytes@));
    leer_glb(bytes, json)
}

} // verus!
