//! El contenedor binario de glTF (`.glb`): cabecera, trozo JSON y trozo BIN.
//!
//! Aquí está el formato del contenedor y la lectura de índices; el documento
//! JSON lo escribe y lo lee una biblioteca de JSON, fuera.

use vstd::prelude::*;

use crate::interop::InteropError;

verus! {

/// "glTF" en little-endian.
pub const GLB_MAGIC: u32 = 0x4654_6C67;
pub const GLB_VERSION: u32 = 2;
/// "JSON".
pub const CHUNK_JSON: u32 = 0x4E4F_534A;
/// "BIN\0".
pub const CHUNK_BIN: u32 = 0x004E_4942;
/// Tipo de componente de índices `u16`.
pub const COMPONENT_USHORT: u64 = 5123;
/// Tipo de componente de índices `u32`.
pub const COMPONENT_UINT: u64 = 5125;

/// El `u32` little-endian que empieza en `o`.
pub open spec fn u32_le(b: Seq<u8>, o: int) -> int {
    b[o] + 256 * b[o + 1] + 65536 * b[o + 2] + 16777216 * b[o + 3]
}

/// El `u16` little-endian que empieza en `o`.
pub open spec fn u16_le(b: Seq<u8>, o: int) -> int {
    b[o] + 256 * b[o + 1]
}

/// Los cuatro bytes little-endian de `x`.
pub open spec fn bytes_u32(x: u32) -> Seq<u8> {
    seq![
        (x % 256) as u8,
        ((x / 256) % 256) as u8,
        ((x / 65536) % 256) as u8,
        ((x / 16777216) % 256) as u8,
    ]
}

pub proof fn lema_u32_ida_y_vuelta(x: u32)
    ensures
        u32_le(bytes_u32(x), 0) == x,
{
    let b = bytes_u32(x);
    assert(b[0] + 256 * b[1] + 65536 * b[2] + 16777216 * b[3] == x) by (nonlinear_arith)
        requires
            b[0] == x % 256,
            b[1] == (x / 256) % 256,
            b[2] == (x / 65536) % 256,
            b[3] == (x / 16777216) % 256,
            0 <= x < 0x1_0000_0000,
    ;
}

/// Lee el `u32` little-endian que empieza en `o`.
pub fn leer_u32(b: &[u8], o: usize) -> (r: u32)
    requires
        o + 4 <= b@.len(),
    ensures
        r == u32_le(b@, o as int),
{
    (b[o] as u32) + 256 * (b[o + 1] as u32) + 65536 * (b[o + 2] as u32) + 16777216 * (b[o + 3] as u32)
}

fn poner_u32(out: &mut Vec<u8>, x: u32)
    ensures
        final(out)@ == old(out)@ + bytes_u32(x),
{
    out.push((x % 256) as u8);
    out.push(((x / 256) % 256) as u8);
    out.push(((x / 65536) % 256) as u8);
    out.push(((x / 16777216) % 256) as u8);
    assert(final(out)@ =~= old(out)@ + bytes_u32(x));
}

/// `s` rellenado con `relleno` hasta un múltiplo de 4.
pub open spec fn rellenado(s: Seq<u8>, relleno: u8) -> Seq<u8> {
    s + Seq::new(((4 - s.len() % 4) % 4) as nat, |i: int| relleno)
}

fn rellenar(v: &Vec<u8>, relleno: u8) -> (r: Vec<u8>)
    ensures
        r@ == rellenado(v@, relleno),
{
    let mut out = crate::mesh::copia_vec(v);
    let ghost base = v@;
    while out.len() % 4 != 0
        invariant
            base == v@,
            out@.len() >= base.len(),
            out@.len() <= base.len() + 3,
            out@ == base + Seq::new((out@.len() - base.len()) as nat, |i: int| relleno),
            out@.len() % 4 != 0 ==> out@.len() - base.len() < (4 - base.len() % 4) % 4,
            out@.len() % 4 == 0 ==> out@.len() - base.len() == (4 - base.len() % 4) % 4,
        decreases 4 - (out@.len() - base.len()),
    {
        out.push(relleno);
        assert(out@ =~= base + Seq::new((out@.len() - base.len()) as nat, |i: int| relleno));
    }
    out
}

/// El `.glb` de un documento JSON y un buffer binario: cabecera de 12 bytes,
/// trozo JSON rellenado con espacios y, si hay datos, trozo BIN rellenado con
/// ceros. La longitud total se escribe como `u32`.
pub open spec fn glb_de(json: Seq<u8>, bin: Seq<u8>) -> Seq<u8> {
    let j = rellenado(json, 0x20);
    let b = rellenado(bin, 0);
    let total = 12 + 8 + j.len() + if b.len() == 0 {
        0
    } else {
        8 + b.len()
    };
    bytes_u32(GLB_MAGIC) + bytes_u32(GLB_VERSION) + bytes_u32(total as u32) + bytes_u32(
        j.len() as u32,
    ) + bytes_u32(CHUNK_JSON) + j + if b.len() == 0 {
        Seq::empty()
    } else {
        bytes_u32(b.len() as u32) + bytes_u32(CHUNK_BIN) + b
    }
}

/// Empaqueta el documento JSON y el buffer binario en un `.glb`.
pub fn empaquetar_glb(json: &Vec<u8>, bin: &Vec<u8>) -> (r: Vec<u8>)
    requires
        json@.len() + bin@.len() + 40 <= usize::MAX,
    ensures
        r@ == glb_de(json@, bin@),
{
    let j = rellenar(json, 0x20);
    let b = rellenar(bin, 0);
    let total: usize = 12 + 8 + j.len() + if b.len() == 0 {
        0
    } else {
        8 + b.len()
    };
    let mut out: Vec<u8> = Vec::new();
    poner_u32(&mut out, GLB_MAGIC);
    poner_u32(&mut out, GLB_VERSION);
    poner_u32(&mut out, #[verifier::truncate] (total as u32));
    poner_u32(&mut out, #[verifier::truncate] (j.len() as u32));
    poner_u32(&mut out, CHUNK_JSON);
    let mut i: usize = 0;
    let ghost cab = out@;
    while i < j.len()
        invariant
            i <= j@.len(),
            out@ == cab + j@.take(i as int),
        decreases j@.len() - i,
    {
        out.push(j[i]);
        i = i + 1;
        assert(out@ =~= cab + j@.take(i as int));
    }
    assert(j@.take(j@.len() as int) =~= j@);
    if b.len() > 0 {
        poner_u32(&mut out, #[verifier::truncate] (b.len() as u32));
        poner_u32(&mut out, CHUNK_BIN);
        let ghost cab2 = out@;
        let mut k: usize = 0;
        while k < b.len()
            invariant
                k <= b@.len(),
                out@ == cab2 + b@.take(k as int),
            decreases b@.len() - k,
        {
            out.push(b[k]);
            k = k + 1;
            assert(out@ =~= cab2 + b@.take(k as int));
        }
        assert(b@.take(b@.len() as int) =~= b@);
    }
    assert(out@ =~= glb_de(json@, bin@));
    out
}

/// Por qué no se pudo abrir un contenedor.
#[derive(Clone, Copy, PartialEq, Eq, Structural, Debug)]
pub enum DefectoDeGlb {
    DemasiadoCorto,
    MagicIncorrecto,
    VersionIncorrecta,
    LongitudIncoherente,
    PrimeroNoEsJson,
    JsonTruncado,
    CabeceraBinTruncada,
    SegundoNoEsBin,
    BinTruncado,
}

/// Dónde están los dos trozos de un contenedor, o qué le falta.
pub open spec fn trozos_de(b: Seq<u8>) -> Result<((int, int), (int, int)), DefectoDeGlb> {
    if b.len() < 20 {
        Err(DefectoDeGlb::DemasiadoCorto)
    } else if u32_le(b, 0) != GLB_MAGIC {
        Err(DefectoDeGlb::MagicIncorrecto)
    } else if u32_le(b, 4) != GLB_VERSION {
        Err(DefectoDeGlb::VersionIncorrecta)
    } else if u32_le(b, 8) != b.len() {
        Err(DefectoDeGlb::LongitudIncoherente)
    } else if u32_le(b, 16) != CHUNK_JSON {
        Err(DefectoDeGlb::PrimeroNoEsJson)
    } else if 20 + u32_le(b, 12) > b.len() {
        Err(DefectoDeGlb::JsonTruncado)
    } else {
        let fin_json = 20 + u32_le(b, 12);
        if fin_json + 8 > b.len() {
            Err(DefectoDeGlb::CabeceraBinTruncada)
        } else if u32_le(b, fin_json + 4) != CHUNK_BIN {
            Err(DefectoDeGlb::SegundoNoEsBin)
        } else if fin_json + 8 + u32_le(b, fin_json) > b.len() {
            Err(DefectoDeGlb::BinTruncado)
        } else {
            Ok(((20, fin_json), (fin_json + 8, fin_json + 8 + u32_le(b, fin_json))))
        }
    }
}

/// Valida la cabecera y los dos trozos de un `.glb`, y devuelve dónde empieza
/// y acaba cada uno.
pub fn separar_glb(b: &[u8]) -> (r: Result<((usize, usize), (usize, usize)), DefectoDeGlb>)
    ensures
        match (r, trozos_de(b@)) {
            (Ok((j, x)), Ok((js, xs))) => j.0 == js.0 && j.1 == js.1 && x.0 == xs.0 && x.1 == xs.1,
            (Err(e), Err(es)) => e == es,
            _ => false,
        },
{
    let n = b.len();
    if n < 20 {
        return Err(DefectoDeGlb::DemasiadoCorto);
    }
    if leer_u32(b, 0) != GLB_MAGIC {
        return Err(DefectoDeGlb::MagicIncorrecto);
    }
    if leer_u32(b, 4) != GLB_VERSION {
        return Err(DefectoDeGlb::VersionIncorrecta);
    }
    if leer_u32(b, 8) as usize != n {
        return Err(DefectoDeGlb::LongitudIncoherente);
    }
    let json_len = leer_u32(b, 12) as usize;
    if leer_u32(b, 16) != CHUNK_JSON {
        return Err(DefectoDeGlb::PrimeroNoEsJson);
    }
    if json_len > n - 20 {
        return Err(DefectoDeGlb::JsonTruncado);
    }
    let fin_json = 20 + json_len;
    if 8 > n - fin_json {
        return Err(DefectoDeGlb::CabeceraBinTruncada);
    }
    let bin_len = leer_u32(b, fin_json) as usize;
    if leer_u32(b, fin_json + 4) != CHUNK_BIN {
        return Err(DefectoDeGlb::SegundoNoEsBin);
    }
    let ini_bin = fin_json + 8;
    if bin_len > n - ini_bin {
        return Err(DefectoDeGlb::BinTruncado);
    }
    Ok(((20, fin_json), (ini_bin, ini_bin + bin_len)))
}

/// Leer un `u32` dentro de la segunda parte de una concatenación.
proof fn lema_u32_en_cola(s: Seq<u8>, t: Seq<u8>, o: int)
    requires
        0 <= o,
        o + 4 <= t.len(),
    ensures
        u32_le(s + t, s.len() + o) == u32_le(t, o),
{
    assert((s + t)[s.len() + o] == t[o]);
    assert((s + t)[s.len() + o + 1] == t[o + 1]);
    assert((s + t)[s.len() + o + 2] == t[o + 2]);
    assert((s + t)[s.len() + o + 3] == t[o + 3]);
}

/// Leer un `u32` dentro de la primera parte de una concatenación.
proof fn lema_u32_en_cabeza(s: Seq<u8>, t: Seq<u8>, o: int)
    requires
        0 <= o,
        o + 4 <= s.len(),
    ensures
        u32_le(s + t, o) == u32_le(s, o),
{
    assert((s + t)[o] == s[o]);
    assert((s + t)[o + 1] == s[o + 1]);
    assert((s + t)[o + 2] == s[o + 2]);
    assert((s + t)[o + 3] == s[o + 3]);
}

/// La cabecera de 20 bytes: cinco palabras.
pub open spec fn cabecera(w0: u32, w1: u32, w2: u32, w3: u32, w4: u32) -> Seq<u8> {
    bytes_u32(w0) + bytes_u32(w1) + bytes_u32(w2) + bytes_u32(w3) + bytes_u32(w4)
}

proof fn lema_cabecera(w0: u32, w1: u32, w2: u32, w3: u32, w4: u32, resto: Seq<u8>)
    ensures
        ({
            let g = cabecera(w0, w1, w2, w3, w4) + resto;
            &&& u32_le(g, 0) == w0
            &&& u32_le(g, 4) == w1
            &&& u32_le(g, 8) == w2
            &&& u32_le(g, 12) == w3
            &&& u32_le(g, 16) == w4
        }),
{
    let c = cabecera(w0, w1, w2, w3, w4);
    assert(c.len() == 20);
    let a0 = bytes_u32(w0);
    let a1 = a0 + bytes_u32(w1);
    let a2 = a1 + bytes_u32(w2);
    let a3 = a2 + bytes_u32(w3);
    lema_u32_ida_y_vuelta(w0);
    lema_u32_ida_y_vuelta(w1);
    lema_u32_ida_y_vuelta(w2);
    lema_u32_ida_y_vuelta(w3);
    lema_u32_ida_y_vuelta(w4);
    lema_u32_en_cola(Seq::empty(), a0, 0);
    assert(Seq::<u8>::empty() + a0 =~= a0);
    lema_u32_en_cabeza(a0, bytes_u32(w1) + bytes_u32(w2) + bytes_u32(w3) + bytes_u32(w4) + resto, 0);
    assert(c + resto =~= a0 + (bytes_u32(w1) + bytes_u32(w2) + bytes_u32(w3) + bytes_u32(w4) + resto));
    lema_u32_en_cola(a0, bytes_u32(w1) + bytes_u32(w2) + bytes_u32(w3) + bytes_u32(w4) + resto, 0);
    lema_u32_en_cabeza(bytes_u32(w1), bytes_u32(w2) + bytes_u32(w3) + bytes_u32(w4) + resto, 0);
    assert(c + resto =~= a1 + (bytes_u32(w2) + bytes_u32(w3) + bytes_u32(w4) + resto));
    lema_u32_en_cola(a1, bytes_u32(w2) + bytes_u32(w3) + bytes_u32(w4) + resto, 0);
    lema_u32_en_cabeza(bytes_u32(w2), bytes_u32(w3) + bytes_u32(w4) + resto, 0);
    assert(c + resto =~= a2 + (bytes_u32(w3) + bytes_u32(w4) + resto));
    lema_u32_en_cola(a2, bytes_u32(w3) + bytes_u32(w4) + resto, 0);
    lema_u32_en_cabeza(bytes_u32(w3), bytes_u32(w4) + resto, 0);
    assert(c + resto =~= a3 + (bytes_u32(w4) + resto));
    lema_u32_en_cola(a3, bytes_u32(w4) + resto, 0);
    lema_u32_en_cabeza(bytes_u32(w4), resto, 0);
}

/// Dónde está el JSON de un contenedor, mirando solo lo necesario para
/// encontrarlo: para inspeccionar un archivo sin leerlo entero.
pub open spec fn trozo_json_de(b: Seq<u8>) -> Result<(int, int), DefectoDeGlb> {
    if b.len() < 20 {
        Err(DefectoDeGlb::DemasiadoCorto)
    } else if u32_le(b, 0) != GLB_MAGIC {
        Err(DefectoDeGlb::MagicIncorrecto)
    } else if u32_le(b, 16) != CHUNK_JSON {
        Err(DefectoDeGlb::PrimeroNoEsJson)
    } else if 20 + u32_le(b, 12) > b.len() {
        Err(DefectoDeGlb::JsonTruncado)
    } else {
        Ok((20, 20 + u32_le(b, 12)))
    }
}

pub fn trozo_json(b: &[u8]) -> (r: Result<(usize, usize), DefectoDeGlb>)
    ensures
        match (r, trozo_json_de(b@)) {
            (Ok(j), Ok(js)) => j.0 == js.0 && j.1 == js.1,
            (Err(e), Err(es)) => e == es,
            _ => false,
        },
{
    let n = b.len();
    if n < 20 {
        return Err(DefectoDeGlb::DemasiadoCorto);
    }
    if leer_u32(b, 0) != GLB_MAGIC {
        return Err(DefectoDeGlb::MagicIncorrecto);
    }
    let json_len = leer_u32(b, 12) as usize;
    if leer_u32(b, 16) != CHUNK_JSON {
        return Err(DefectoDeGlb::PrimeroNoEsJson);
    }
    if json_len > n - 20 {
        return Err(DefectoDeGlb::JsonTruncado);
    }
    Ok((20, 20 + json_len))
}

/// Un `.glb` empaquetado con datos binarios se vuelve a abrir, y sus trozos
/// son el JSON y el buffer rellenados.
pub proof fn ley_glb_ida_y_vuelta(json: Seq<u8>, bin: Seq<u8>)
    requires
        bin.len() > 0,
        glb_de(json, bin).len() <= u32::MAX,
    ensures
        ({
            let g = glb_de(json, bin);
            let j = rellenado(json, 0x20);
            let b = rellenado(bin, 0);
            let jl = j.len() as int;
            let bl = b.len() as int;
            trozos_de(g) == Ok::<((int, int), (int, int)), DefectoDeGlb>(
                ((20, 20 + jl), (28 + jl, 28 + jl + bl)),
            ) && g.subrange(20, 20 + jl) == j && g.subrange(28 + jl, 28 + jl + bl) == b
        }),
{
    let g = glb_de(json, bin);
    let j = rellenado(json, 0x20);
    let b = rellenado(bin, 0);
    let jl = j.len() as int;
    let bl = b.len() as int;
    let total = 28 + jl + bl;
    let cab = cabecera(GLB_MAGIC, GLB_VERSION, total as u32, jl as u32, CHUNK_JSON);
    let cola = bytes_u32(bl as u32) + bytes_u32(CHUNK_BIN) + b;
    assert(g =~= cab + (j + cola));
    assert(g.len() == total);
    lema_cabecera(GLB_MAGIC, GLB_VERSION, total as u32, jl as u32, CHUNK_JSON, j + cola);
    assert(cab.len() == 20);
    assert(g =~= (cab + j) + cola);
    lema_u32_ida_y_vuelta(bl as u32);
    lema_u32_ida_y_vuelta(CHUNK_BIN);
    lema_u32_en_cabeza(bytes_u32(bl as u32), bytes_u32(CHUNK_BIN) + b, 0);
    assert(cola =~= bytes_u32(bl as u32) + (bytes_u32(CHUNK_BIN) + b));
    lema_u32_en_cola(cab + j, cola, 0);
    lema_u32_en_cola(bytes_u32(bl as u32), bytes_u32(CHUNK_BIN) + b, 0);
    lema_u32_en_cabeza(bytes_u32(CHUNK_BIN), b, 0);
    lema_u32_en_cola(cab + j, cola, 4);
    assert(g.subrange(20, 20 + jl) =~= j);
    assert(g.subrange(28 + jl, 28 + jl + bl) =~= b);
}

/// Por qué no se pudieron leer los índices.
#[derive(Clone, Copy, PartialEq, Eq, Structural, Debug)]
pub enum DefectoDeIndices {
    /// La vista pide bytes fuera del buffer, o faltan bytes para `count`.
    Truncados,
    /// Tipo de componente distinto de `u16` y `u32`.
    TipoNoSoportado,
}

/// Los índices decodificados de una vista: `count` enteros de `ancho` bytes.
pub open spec fn indices_de(datos: Seq<u8>, ancho: int, count: int) -> Seq<u32> {
    Seq::new(
        count as nat,
        |i: int|
            if ancho == 2 {
                u16_le(datos, 2 * i) as u32
            } else {
                u32_le(datos, 4 * i) as u32
            },
    )
}

/// Lee los índices de una vista del buffer binario.
///
/// `offset` y `longitud` delimitan la vista dentro del buffer; `componente`
/// dice si son `u16` o `u32`; `count` cuántos hay.
pub fn leer_indices(buffer: &[u8], offset: usize, longitud: usize, componente: u64, count: usize) -> (r:
    Result<Vec<u32>, DefectoDeIndices>)
    ensures
        (offset as int + longitud > buffer@.len()) ==> r == Err::<Vec<u32>, DefectoDeIndices>(
            DefectoDeIndices::Truncados,
        ),
        (offset as int + longitud <= buffer@.len()) ==> {
            let datos = buffer@.subrange(offset as int, offset + longitud);
            if componente == COMPONENT_USHORT {
                if 2 * count > longitud {
                    r == Err::<Vec<u32>, DefectoDeIndices>(DefectoDeIndices::Truncados)
                } else {
                    r matches Ok(v) && v@ == indices_de(datos, 2, count as int)
                }
            } else if componente == COMPONENT_UINT {
                if 4 * count > longitud {
                    r == Err::<Vec<u32>, DefectoDeIndices>(DefectoDeIndices::Truncados)
                } else {
                    r matches Ok(v) && v@ == indices_de(datos, 4, count as int)
                }
            } else {
                r == Err::<Vec<u32>, DefectoDeIndices>(DefectoDeIndices::TipoNoSoportado)
            }
        },
{
    if longitud > buffer.len() || offset > buffer.len() - longitud {
        return Err(DefectoDeIndices::Truncados);
    }
    let ghost datos = buffer@.subrange(offset as int, offset + longitud);
    let ancho: usize = if componente == COMPONENT_USHORT {
        2
    } else if componente == COMPONENT_UINT {
        4
    } else {
        return Err(DefectoDeIndices::TipoNoSoportado);
    };
    let nb = buffer.len();
    let mut out: Vec<u32> = Vec::new();
    let mut i: usize = 0;
    let mut rel: usize = 0;
    while i < count
        invariant
            ancho == 2 || ancho == 4,
            (ancho == 2) == (componente == COMPONENT_USHORT),
            ancho == 4 ==> componente == COMPONENT_UINT,
            offset + longitud <= buffer@.len(),
            nb == buffer@.len(),
            datos == buffer@.subrange(offset as int, offset + longitud),
            i <= count,
            rel == ancho * i,
            out@ == indices_de(datos, ancho as int, count as int).take(i as int),
            rel <= longitud,
        decreases count - i,
    {
        if ancho > longitud - rel {
            proof {
                assert(ancho * count > longitud) by (nonlinear_arith)
                    requires
                        ancho * i + ancho > longitud,
                        i < count,
                        ancho > 0,
                ;
            }
            return Err(DefectoDeIndices::Truncados);
        }
        let off = offset + rel;
        let v = if ancho == 2 {
            (buffer[off] as u32) + 256 * (buffer[off + 1] as u32)
        } else {
            leer_u32(buffer, off)
        };
        proof {
            assert(datos[rel as int] == buffer@[off as int]);
            assert(datos[rel + 1] == buffer@[off + 1]);
            if ancho == 4 {
                assert(datos[rel + 2] == buffer@[off + 2]);
                assert(datos[rel + 3] == buffer@[off + 3]);
            }
        }
        out.push(v);
        assert(out@ =~= indices_de(datos, ancho as int, count as int).take(i + 1));
        assert(ancho * (i + 1) == ancho * i + ancho) by (nonlinear_arith);
        i = i + 1;
        rel = rel + ancho;
    }
    proof {
        assert(indices_de(datos, ancho as int, count as int).take(count as int) =~= indices_de(
            datos,
            ancho as int,
            count as int,
        ));
    }
    Ok(out)
}


} // verus!
