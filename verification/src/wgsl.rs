//! El texto WGSL de un grafo de material ya analizado.
//!
//! El texto sale como una lista de trozos: texto fijo, números de nodo y
//! literales `f32` por sus bits. Quien imprime escribe cada literal con el
//! formato `Debug` de `f32`, que siempre lleva punto decimal (WGSL lo exige
//! para reconocer un literal de coma flotante), y `componer` junta el resto.
//!
//! Determinista por construcción: se recorre el orden del análisis, que es una
//! lista, nunca una colección cuyo orden de iteración pueda variar. Sin eso,
//! generar el mismo grafo dos veces no daría el mismo texto y no habría caché
//! de shaders posible.

use vstd::prelude::*;

use crate::analisis::{
    analisis_de, analizar, buscar_nodo, completo, fallo_de, ids_unicos, indice_nodo, lema_analisis_completo,
    lema_analisis_igual, lema_permutacion, ley_orden_topologico, mismos_nodos, piezas_clave, piezas_de_clave,
    vistas_piezas, Analisis, Entrada, Pieza,
};
use crate::material::{salida_de, tipo_salida, tipos_de_entradas, MaterialError, MaterialGraph, Node, NodeKind, SocketType, Value, WgslGenerator};
use crate::texto::{anadir, de_caracteres, decimal, empujar_decimal};

verus! {

/// Un trozo del texto WGSL.
#[derive(Clone, Copy, Debug)]
pub enum Trozo {
    /// Texto fijo.
    Texto(&'static str),
    /// Un número de nodo, que se escribe en decimal.
    Numero(u32),
    /// Un literal `f32`, por sus bits.
    Literal(u32),
}

/// Un trozo como valor: lo que se escribe, o los bits del literal.
pub enum TrozoV {
    Texto(Seq<char>),
    Literal(u32),
}

pub open spec fn trozo_v(t: Trozo) -> TrozoV {
    match t {
        Trozo::Texto(s) => TrozoV::Texto(s@),
        Trozo::Numero(n) => TrozoV::Texto(decimal(n as nat)),
        Trozo::Literal(b) => TrozoV::Literal(b),
    }
}

pub open spec fn vistas_trozos(ts: Seq<Trozo>) -> Seq<TrozoV> {
    Seq::new(ts.len(), |i: int| trozo_v(ts[i]))
}

/// Un trozo de texto.
pub open spec fn tx(s: Seq<char>) -> Seq<TrozoV> {
    seq![TrozoV::Texto(s)]
}

/// El principio del módulo: la estructura de salida y la cabecera de la
/// función, hasta el paréntesis de los parámetros.
pub const CABECERA: &'static str = "// Generado por forge-material. No editar a mano.\nstruct SurfaceProperties {\n    base_color: vec3<f32>,\n    metallic: f32,\n    roughness: f32,\n    emissive: vec3<f32>,\n}\n\nfn material_surface(";

/// El literal WGSL de un valor. `Vec3` y `Color` dan el mismo `vec3<f32>`: en
/// WGSL no hay tipo de color aparte.
pub open spec fn valor_t(v: Value) -> Seq<TrozoV> {
    match v {
        Value::Float(x) => seq![TrozoV::Literal(x)],
        Value::Vec2(x, y) => tx("vec2<f32>("@) + seq![TrozoV::Literal(x)] + tx(", "@) + seq![TrozoV::Literal(y)] + tx(
            ")"@,
        ),
        Value::Vec3(x, y, z) | Value::Color(x, y, z) => tx("vec3<f32>("@) + seq![TrozoV::Literal(x)] + tx(", "@)
            + seq![TrozoV::Literal(y)] + tx(", "@) + seq![TrozoV::Literal(z)] + tx(")"@),
    }
}

/// Una entrada resuelta dentro de una expresión: la variable del nodo del que
/// viene, o el literal de su valor por defecto.
pub open spec fn ref_t(e: Entrada) -> Seq<TrozoV> {
    match e {
        Entrada::Nodo(id) => tx("n"@) + tx(decimal(id as nat)),
        Entrada::Literal(v) => valor_t(v),
    }
}

/// Una parte de la plantilla de una expresión: texto fijo o la entrada
/// número tal.
pub enum Parte {
    Fija(Seq<char>),
    Entrada(int),
}

/// La plantilla de la expresión de cada clase de nodo (la de `Constant` es su
/// valor, aparte).
///
/// `clamp` y `pow` de WGSL no tienen sobrecarga vector-escalar, así que sus
/// argumentos escalares se ensanchan con el constructor de un argumento;
/// `mix` sí la tiene. La base de `pow` se recorta a `[0, +inf)`: con base
/// negativa y exponente no entero el resultado no está definido. El damero
/// toma `abs` antes del módulo para que una coordenada negativa no rompa la
/// alternancia.
pub open spec fn plantilla(k: NodeKind) -> Seq<Parte> {
    match k {
        NodeKind::TexCoord => seq![Parte::Fija("uv"@)],
        NodeKind::Normal => seq![Parte::Fija("normal"@)],
        NodeKind::Position => seq![Parte::Fija("position"@)],
        NodeKind::Add => seq![Parte::Entrada(0), Parte::Fija(" + "@), Parte::Entrada(1)],
        NodeKind::Multiply => seq![Parte::Entrada(0), Parte::Fija(" * "@), Parte::Entrada(1)],
        NodeKind::Mix => seq![
            Parte::Fija("mix("@),
            Parte::Entrada(0),
            Parte::Fija(", "@),
            Parte::Entrada(1),
            Parte::Fija(", "@),
            Parte::Entrada(2),
            Parte::Fija(")"@),
        ],
        NodeKind::Clamp => seq![
            Parte::Fija("clamp("@),
            Parte::Entrada(0),
            Parte::Fija(", vec3<f32>("@),
            Parte::Entrada(1),
            Parte::Fija("), vec3<f32>("@),
            Parte::Entrada(2),
            Parte::Fija("))"@),
        ],
        NodeKind::Power => seq![
            Parte::Fija("pow(max("@),
            Parte::Entrada(0),
            Parte::Fija(", vec3<f32>(0.0)), vec3<f32>("@),
            Parte::Entrada(1),
            Parte::Fija("))"@),
        ],
        NodeKind::DotProduct => seq![
            Parte::Fija("dot("@),
            Parte::Entrada(0),
            Parte::Fija(", "@),
            Parte::Entrada(1),
            Parte::Fija(")"@),
        ],
        NodeKind::Remap => seq![
            Parte::Fija("("@),
            Parte::Entrada(3),
            Parte::Fija(" + ("@),
            Parte::Entrada(0),
            Parte::Fija(" - "@),
            Parte::Entrada(1),
            Parte::Fija(") * ("@),
            Parte::Entrada(4),
            Parte::Fija(" - "@),
            Parte::Entrada(3),
            Parte::Fija(") / ("@),
            Parte::Entrada(2),
            Parte::Fija(" - "@),
            Parte::Entrada(1),
            Parte::Fija("))"@),
        ],
        NodeKind::Checker => seq![
            Parte::Fija("f32((abs(i32(floor("@),
            Parte::Entrada(0),
            Parte::Fija(".x * "@),
            Parte::Entrada(1),
            Parte::Fija("))) + abs(i32(floor("@),
            Parte::Entrada(0),
            Parte::Fija(".y * "@),
            Parte::Entrada(1),
            Parte::Fija(")))) % 2)"@),
        ],
        NodeKind::Gradient => seq![Parte::Fija("clamp("@), Parte::Entrada(0), Parte::Fija(".y, 0.0, 1.0)"@)],
        NodeKind::StandardSurface => seq![
            Parte::Fija("SurfaceProperties("@),
            Parte::Entrada(0),
            Parte::Fija(", "@),
            Parte::Entrada(1),
            Parte::Fija(", "@),
            Parte::Entrada(2),
            Parte::Fija(", "@),
            Parte::Entrada(3),
            Parte::Fija(")"@),
        ],
        NodeKind::Constant => Seq::empty(),
    }
}

pub open spec fn parte_t(p: Parte, es: Seq<Entrada>) -> Seq<TrozoV> {
    match p {
        Parte::Fija(s) => tx(s),
        Parte::Entrada(i) => ref_t(es[i]),
    }
}

/// Las primeras `k` partes de una plantilla, escritas.
pub open spec fn partes_t(ps: Seq<Parte>, es: Seq<Entrada>, k: int) -> Seq<TrozoV>
    decreases k,
{
    if k <= 0 {
        Seq::empty()
    } else {
        partes_t(ps, es, k - 1) + parte_t(ps[k - 1], es)
    }
}

/// La expresión de un nodo, dadas sus entradas resueltas.
pub open spec fn expr_t(n: Node, es: Seq<Entrada>) -> Seq<TrozoV> {
    if n.kind == NodeKind::Constant {
        valor_t(n.constant->0)
    } else {
        partes_t(plantilla(n.kind), es, plantilla(n.kind).len() as int)
    }
}

/// El tipo WGSL de la salida de un tipo de conexión.
pub open spec fn wgsl_de(t: SocketType) -> Seq<char> {
    match t {
        SocketType::Float => "f32"@,
        SocketType::Vec2 => "vec2<f32>"@,
        _ => "vec3<f32>"@,
    }
}

/// El tipo declarado en el `let` de un nodo: el de su salida, salvo la salida
/// del material, que es la estructura `SurfaceProperties`.
pub open spec fn tipo_decl(n: Node) -> Seq<char> {
    if n.kind == NodeKind::StandardSurface {
        "SurfaceProperties"@
    } else {
        wgsl_de(salida_de(n))
    }
}

/// El nodo de `g` con id `id` (el último, si hay varios).
pub open spec fn nodo_de(g: MaterialGraph, id: u32) -> Node {
    g.nodes@[indice_nodo(g.nodes@, id)]
}

/// La línea `let` de un nodo.
pub open spec fn linea_t(g: MaterialGraph, id: u32, es: Seq<Entrada>) -> Seq<TrozoV> {
    tx("    let n"@) + tx(decimal(id as nat)) + tx(": "@) + tx(tipo_decl(nodo_de(g, id))) + tx(" = "@) + expr_t(
        nodo_de(g, id),
        es,
    ) + tx(";\n"@)
}

/// Las líneas de los `k` primeros nodos del orden.
pub open spec fn lineas_t(g: MaterialGraph, orden: Seq<u32>, es: Seq<Seq<Entrada>>, k: int) -> Seq<TrozoV>
    decreases k,
{
    if k <= 0 {
        Seq::empty()
    } else {
        lineas_t(g, orden, es, k - 1) + linea_t(g, orden[k - 1], es[k - 1])
    }
}

/// ¿Usa el orden algún nodo de la clase `k`?
pub open spec fn usa(g: MaterialGraph, orden: Seq<u32>, k: NodeKind) -> bool {
    exists|i: int| 0 <= i < orden.len() && #[trigger] nodo_de(g, orden[i]).kind == k
}

/// Los parámetros de la función generada: solo los que lee de verdad algún
/// nodo usado.
pub open spec fn lista_parametros(uv: bool, normal: bool, position: bool) -> Seq<Seq<char>> {
    (if uv {
        seq!["uv: vec2<f32>"@]
    } else {
        Seq::empty()
    }) + (if normal {
        seq!["normal: vec3<f32>"@]
    } else {
        Seq::empty()
    }) + (if position {
        seq!["position: vec3<f32>"@]
    } else {
        Seq::empty()
    })
}

/// Una lista separada por comas.
pub open spec fn unidos_t(ps: Seq<Seq<char>>) -> Seq<TrozoV>
    decreases ps.len(),
{
    if ps.len() == 0 {
        Seq::empty()
    } else if ps.len() == 1 {
        tx(ps[0])
    } else {
        unidos_t(ps.drop_last()) + tx(", "@) + tx(ps.last())
    }
}

/// El módulo WGSL entero de un análisis (`orden`, `es`) de `g`: la cabecera,
/// un `let` por nodo en orden topológico y el `return` de la salida.
pub open spec fn trozos_de(g: MaterialGraph, orden: Seq<u32>, es: Seq<Seq<Entrada>>) -> Seq<TrozoV> {
    tx(CABECERA@) + unidos_t(
        lista_parametros(
            usa(g, orden, NodeKind::TexCoord),
            usa(g, orden, NodeKind::Normal),
            usa(g, orden, NodeKind::Position),
        ),
    ) + tx(") -> SurfaceProperties {\n"@) + lineas_t(g, orden, es, orden.len() as int) + tx("    return n"@) + tx(
        decimal(g.output->0 as nat),
    ) + tx(";\n}\n"@)
}

/// Los bits de los literales, en el orden en que aparecen.
pub open spec fn literales_de(ts: Seq<TrozoV>) -> Seq<u32>
    decreases ts.len(),
{
    if ts.len() == 0 {
        Seq::empty()
    } else {
        literales_de(ts.drop_last()) + match ts.last() {
            TrozoV::Literal(b) => seq![b],
            TrozoV::Texto(_) => Seq::empty(),
        }
    }
}

/// El texto de los trozos, con el `j`-ésimo literal escrito como `lits[j]`.
pub open spec fn componer_t(ts: Seq<TrozoV>, lits: Seq<Seq<char>>) -> Seq<char>
    decreases ts.len(),
{
    if ts.len() == 0 {
        Seq::empty()
    } else {
        componer_t(ts.drop_last(), lits) + match ts.last() {
            TrozoV::Texto(s) => s,
            TrozoV::Literal(_) => lits[literales_de(ts.drop_last()).len() as int],
        }
    }
}

// ---------------------------------------------------------------------------
// Escritura
// ---------------------------------------------------------------------------

fn pon(out: &mut Vec<Trozo>, t: Trozo)
    ensures
        vistas_trozos(final(out)@) == vistas_trozos(old(out)@) + seq![trozo_v(t)],
{
    let ghost antes = vistas_trozos(out@);
    out.push(t);
    assert(vistas_trozos(out@) =~= antes + seq![trozo_v(t)]);
}

fn emitir_valor(out: &mut Vec<Trozo>, v: Value)
    ensures
        vistas_trozos(final(out)@) == vistas_trozos(old(out)@) + valor_t(v),
{
    let ghost antes = vistas_trozos(out@);
    match v {
        Value::Float(x) => {
            pon(out, Trozo::Literal(x));
        },
        Value::Vec2(x, y) => {
            pon(out, Trozo::Texto("vec2<f32>("));
            pon(out, Trozo::Literal(x));
            pon(out, Trozo::Texto(", "));
            pon(out, Trozo::Literal(y));
            pon(out, Trozo::Texto(")"));
        },
        Value::Vec3(x, y, z) | Value::Color(x, y, z) => {
            pon(out, Trozo::Texto("vec3<f32>("));
            pon(out, Trozo::Literal(x));
            pon(out, Trozo::Texto(", "));
            pon(out, Trozo::Literal(y));
            pon(out, Trozo::Texto(", "));
            pon(out, Trozo::Literal(z));
            pon(out, Trozo::Texto(")"));
        },
    }
    assert(vistas_trozos(out@) =~= antes + valor_t(v));
}

fn emitir_ref(out: &mut Vec<Trozo>, e: Entrada)
    ensures
        vistas_trozos(final(out)@) == vistas_trozos(old(out)@) + ref_t(e),
{
    let ghost antes = vistas_trozos(out@);
    match e {
        Entrada::Nodo(id) => {
            pon(out, Trozo::Texto("n"));
            pon(out, Trozo::Numero(id));
            assert(vistas_trozos(out@) =~= antes + ref_t(e));
        },
        Entrada::Literal(v) => {
            emitir_valor(out, v);
        },
    }
}

/// Una parte de plantilla, en ejecución.
#[derive(Clone, Copy)]
enum ParteE {
    Fija(&'static str),
    Entrada(usize),
}

spec fn parte_v(p: ParteE) -> Parte {
    match p {
        ParteE::Fija(s) => Parte::Fija(s@),
        ParteE::Entrada(i) => Parte::Entrada(i as int),
    }
}

spec fn vistas_partes(ps: Seq<ParteE>) -> Seq<Parte> {
    Seq::new(ps.len(), |i: int| parte_v(ps[i]))
}

proof fn lema_plantilla(k: NodeKind)
    ensures
        forall|j: int|
            0 <= j < plantilla(k).len() && (#[trigger] plantilla(k)[j]) is Entrada ==> 0 <= plantilla(k)[j]->Entrada_0
                < tipos_de_entradas(k).len(),
{
}

fn f(s: &'static str) -> (r: ParteE)
    ensures
        parte_v(r) == Parte::Fija(s@),
{
    ParteE::Fija(s)
}

fn e(i: usize) -> (r: ParteE)
    ensures
        parte_v(r) == Parte::Entrada(i as int),
{
    ParteE::Entrada(i)
}

fn plantilla_exec(k: NodeKind) -> (r: Vec<ParteE>)
    ensures
        vistas_partes(r@) == plantilla(k),
{
    let r: Vec<ParteE> = match k {
        NodeKind::TexCoord => vec![f("uv")],
        NodeKind::Normal => vec![f("normal")],
        NodeKind::Position => vec![f("position")],
        NodeKind::Add => vec![e(0), f(" + "), e(1)],
        NodeKind::Multiply => vec![e(0), f(" * "), e(1)],
        NodeKind::Mix => vec![f("mix("), e(0), f(", "), e(1), f(", "), e(2), f(")")],
        NodeKind::Clamp => vec![f("clamp("), e(0), f(", vec3<f32>("), e(1), f("), vec3<f32>("), e(2), f("))")],
        NodeKind::Power => vec![f("pow(max("), e(0), f(", vec3<f32>(0.0)), vec3<f32>("), e(1), f("))")],
        NodeKind::DotProduct => vec![f("dot("), e(0), f(", "), e(1), f(")")],
        NodeKind::Remap => vec![
            f("("),
            e(3),
            f(" + ("),
            e(0),
            f(" - "),
            e(1),
            f(") * ("),
            e(4),
            f(" - "),
            e(3),
            f(") / ("),
            e(2),
            f(" - "),
            e(1),
            f("))"),
        ],
        NodeKind::Checker => vec![
            f("f32((abs(i32(floor("),
            e(0),
            f(".x * "),
            e(1),
            f("))) + abs(i32(floor("),
            e(0),
            f(".y * "),
            e(1),
            f(")))) % 2)"),
        ],
        NodeKind::Gradient => vec![f("clamp("), e(0), f(".y, 0.0, 1.0)")],
        NodeKind::StandardSurface => vec![
            f("SurfaceProperties("),
            e(0),
            f(", "),
            e(1),
            f(", "),
            e(2),
            f(", "),
            e(3),
            f(")"),
        ],
        NodeKind::Constant => Vec::new(),
    };
    assert(vistas_partes(r@) =~= plantilla(k));
    r
}

fn emitir_expr(out: &mut Vec<Trozo>, nodo: &Node, es: &Vec<Entrada>)
    requires
        es@.len() == tipos_de_entradas(nodo.kind).len(),
        nodo.kind == NodeKind::Constant ==> nodo.constant is Some,
    ensures
        vistas_trozos(final(out)@) == vistas_trozos(old(out)@) + expr_t(*nodo, es@),
{
    if nodo.kind == NodeKind::Constant {
        emitir_valor(out, nodo.constant.unwrap());
        return;
    }
    let ghost antes = vistas_trozos(out@);
    let ghost pl = plantilla(nodo.kind);
    proof {
        lema_plantilla(nodo.kind);
    }
    let ps = plantilla_exec(nodo.kind);
    let mut j: usize = 0;
    while j < ps.len()
        invariant
            j <= ps@.len(),
            vistas_partes(ps@) == pl,
            pl == plantilla(nodo.kind),
            es@.len() == tipos_de_entradas(nodo.kind).len(),
            forall|q: int| 0 <= q < pl.len() && (#[trigger] pl[q]) is Entrada ==> 0 <= pl[q]->Entrada_0 < es@.len(),
            vistas_trozos(out@) == antes + partes_t(pl, es@, j as int),
        decreases ps@.len() - j,
    {
        assert(pl[j as int] == parte_v(ps@[j as int]));
        match ps[j] {
            ParteE::Fija(s) => {
                pon(out, Trozo::Texto(s));
            },
            ParteE::Entrada(i) => {
                emitir_ref(out, es[i]);
            },
        }
        j = j + 1;
    }
}

/// El tipo declarado en el `let` de un nodo.
fn tipo_wgsl_declarado(nodo: &Node) -> (r: &'static str)
    ensures
        r@ == tipo_decl(*nodo),
{
    if nodo.kind == NodeKind::StandardSurface {
        "SurfaceProperties"
    } else {
        tipo_salida(nodo).wgsl()
    }
}

/// Los trozos del módulo WGSL de un análisis de `g`.
pub fn trozos_wgsl(g: &MaterialGraph, a: &Analisis) -> (r: Vec<Trozo>)
    requires
        g.output is Some,
        completo(*g, a.orden@, Seq::new(a.entradas@.len(), |i: int| a.entradas@[i]@)),
    ensures
        vistas_trozos(r@) == trozos_de(*g, a.orden@, Seq::new(a.entradas@.len(), |i: int| a.entradas@[i]@)),
{
    let ghost es = Seq::new(a.entradas@.len(), |i: int| a.entradas@[i]@);
    let ghost orden = a.orden@;
    let mut out: Vec<Trozo> = Vec::new();
    pon(&mut out, Trozo::Texto(CABECERA));
    // Qué parámetros necesita de verdad el subconjunto de nodos usado.
    let mut uv = false;
    let mut normal = false;
    let mut position = false;
    let mut k: usize = 0;
    while k < a.orden.len()
        invariant
            k <= orden.len(),
            orden == a.orden@,
            es == Seq::new(a.entradas@.len(), |i: int| a.entradas@[i]@),
            completo(*g, orden, es),
            uv == exists|i: int| 0 <= i < k && #[trigger] nodo_de(*g, orden[i]).kind == NodeKind::TexCoord,
            normal == exists|i: int| 0 <= i < k && #[trigger] nodo_de(*g, orden[i]).kind == NodeKind::Normal,
            position == exists|i: int| 0 <= i < k && #[trigger] nodo_de(*g, orden[i]).kind == NodeKind::Position,
        decreases orden.len() - k,
    {
        assert(indice_nodo(g.nodes@, orden[k as int]) >= 0);
        let j = buscar_nodo(&g.nodes, a.orden[k]).unwrap();
        let clase = g.nodes[j].kind;
        assert(clase == nodo_de(*g, orden[k as int]).kind);
        if clase == NodeKind::TexCoord {
            uv = true;
        } else if clase == NodeKind::Normal {
            normal = true;
        } else if clase == NodeKind::Position {
            position = true;
        }
        k = k + 1;
    }
    let mut ps: Vec<&'static str> = Vec::new();
    if uv {
        ps.push("uv: vec2<f32>");
    }
    if normal {
        ps.push("normal: vec3<f32>");
    }
    if position {
        ps.push("position: vec3<f32>");
    }
    let ghost lista = lista_parametros(uv, normal, position);
    assert(Seq::new(ps@.len(), |i: int| ps@[i]@) =~= lista);
    let ghost tras_cabecera = vistas_trozos(out@);
    let mut i: usize = 0;
    while i < ps.len()
        invariant
            i <= ps@.len(),
            Seq::new(ps@.len(), |q: int| ps@[q]@) == lista,
            vistas_trozos(out@) == tras_cabecera + unidos_t(lista.take(i as int)),
        decreases ps@.len() - i,
    {
        proof {
            assert(lista.take(i + 1).drop_last() =~= lista.take(i as int));
            assert(lista.take(i + 1).last() == ps@[i as int]@);
            if i == 0 {
                assert(lista.take(1) =~= seq![ps@[0]@]);
            }
        }
        if i > 0 {
            pon(&mut out, Trozo::Texto(", "));
        }
        pon(&mut out, Trozo::Texto(ps[i]));
        i = i + 1;
    }
    assert(lista.take(ps@.len() as int) =~= lista);
    pon(&mut out, Trozo::Texto(") -> SurfaceProperties {\n"));
    let ghost tras_firma = vistas_trozos(out@);
    // Un `let` por nodo, en orden topológico.
    let mut k: usize = 0;
    while k < a.orden.len()
        invariant
            k <= orden.len(),
            orden == a.orden@,
            es == Seq::new(a.entradas@.len(), |i: int| a.entradas@[i]@),
            completo(*g, orden, es),
            vistas_trozos(out@) == tras_firma + lineas_t(*g, orden, es, k as int),
        decreases orden.len() - k,
    {
        let id = a.orden[k];
        assert(indice_nodo(g.nodes@, orden[k as int]) >= 0);
        let j = buscar_nodo(&g.nodes, id).unwrap();
        let nodo = &g.nodes[j];
        assert(*nodo == nodo_de(*g, id));
        let ghost antes = vistas_trozos(out@);
        pon(&mut out, Trozo::Texto("    let n"));
        pon(&mut out, Trozo::Numero(id));
        pon(&mut out, Trozo::Texto(": "));
        pon(&mut out, Trozo::Texto(tipo_wgsl_declarado(nodo)));
        pon(&mut out, Trozo::Texto(" = "));
        assert(a.entradas@[k as int]@ == es[k as int]);
        emitir_expr(&mut out, nodo, &a.entradas[k]);
        pon(&mut out, Trozo::Texto(";\n"));
        assert(vistas_trozos(out@) =~= antes + linea_t(*g, id, es[k as int]));
        k = k + 1;
    }
    let salida = g.output.unwrap();
    pon(&mut out, Trozo::Texto("    return n"));
    pon(&mut out, Trozo::Numero(salida));
    pon(&mut out, Trozo::Texto(";\n}\n"));
    out
}

// ---------------------------------------------------------------------------
// Composición
// ---------------------------------------------------------------------------

proof fn lema_literales_prefijo(ts: Seq<TrozoV>, i: int)
    requires
        0 <= i <= ts.len(),
    ensures
        literales_de(ts.take(i)).len() <= literales_de(ts).len(),
    decreases ts.len(),
{
    if i == ts.len() {
        assert(ts.take(i) =~= ts);
    } else {
        assert(ts.take(i) =~= ts.drop_last().take(i));
        lema_literales_prefijo(ts.drop_last(), i);
    }
}

/// Los bits de los literales de `ts`, en el orden en que aparecen: lo que hay
/// que escribir con el formato de `f32` antes de `componer`.
pub fn bits_literales(ts: &Vec<Trozo>) -> (r: Vec<u32>)
    ensures
        r@ == literales_de(vistas_trozos(ts@)),
{
    let ghost vs = vistas_trozos(ts@);
    let mut out: Vec<u32> = Vec::new();
    let mut i: usize = 0;
    while i < ts.len()
        invariant
            i <= ts@.len(),
            vs == vistas_trozos(ts@),
            out@ == literales_de(vs.take(i as int)),
        decreases ts@.len() - i,
    {
        proof {
            assert(vs.take(i + 1).drop_last() =~= vs.take(i as int));
            assert(vs.take(i + 1).last() == trozo_v(ts@[i as int]));
        }
        match ts[i] {
            Trozo::Literal(b) => {
                out.push(b);
            },
            _ => {},
        }
        i = i + 1;
    }
    assert(vs.take(ts@.len() as int) =~= vs);
    out
}

/// Junta los trozos en el texto final: el `j`-ésimo literal se escribe como
/// `literales[j]`, y cada número de nodo en decimal.
pub fn componer(ts: &Vec<Trozo>, literales: &Vec<String>) -> (r: String)
    requires
        literales@.len() == literales_de(vistas_trozos(ts@)).len(),
    ensures
        r@ == componer_t(vistas_trozos(ts@), Seq::new(literales@.len(), |i: int| literales@[i]@)),
{
    let ghost vs = vistas_trozos(ts@);
    let ghost lits = Seq::new(literales@.len(), |i: int| literales@[i]@);
    let mut out: Vec<char> = Vec::new();
    let n = literales.len();
    let mut j: usize = 0;
    let mut i: usize = 0;
    while i < ts.len()
        invariant
            i <= ts@.len(),
            n == literales@.len(),
            vs == vistas_trozos(ts@),
            lits == Seq::new(literales@.len(), |q: int| literales@[q]@),
            literales@.len() == literales_de(vs).len(),
            j == literales_de(vs.take(i as int)).len(),
            out@ == componer_t(vs.take(i as int), lits),
        decreases ts@.len() - i,
    {
        proof {
            assert(vs.take(i + 1).drop_last() =~= vs.take(i as int));
            assert(vs.take(i + 1).last() == trozo_v(ts@[i as int]));
            lema_literales_prefijo(vs, i + 1);
        }
        match ts[i] {
            Trozo::Texto(s) => {
                anadir(&mut out, s);
            },
            Trozo::Numero(n) => {
                empujar_decimal(&mut out, n as u64);
            },
            Trozo::Literal(_) => {
                anadir(&mut out, literales[j].as_str());
                j = j + 1;
            },
        }
        i = i + 1;
    }
    assert(vs.take(ts@.len() as int) =~= vs);
    de_caracteres(&out)
}

// ---------------------------------------------------------------------------
// El generador
// ---------------------------------------------------------------------------

/// Todo lo que el generador decide sobre un grafo: su análisis, los trozos de
/// su WGSL y las piezas de su clave de permutación. Falta solo escribir los
/// literales y pasar las piezas por el hasher.
pub struct ShaderPreparado {
    pub analisis: Analisis,
    pub trozos: Vec<Trozo>,
    pub piezas: Vec<Pieza>,
}

impl WgslGenerator {
    /// Analiza `g` y prepara su shader. Falla exactamente cuando falla el
    /// análisis, con su error; si no, los trozos y las piezas son los de ese
    /// análisis.
    pub fn preparar(&self, g: &MaterialGraph) -> (r: Result<ShaderPreparado, MaterialError>)
        ensures
            match analisis_de(*g) {
                Ok((orden, es)) => r matches Ok(p) && p.analisis.orden@ == orden && Seq::new(
                    p.analisis.entradas@.len(),
                    |i: int| p.analisis.entradas@[i]@,
                ) == es && vistas_trozos(p.trozos@) == trozos_de(*g, orden, es) && vistas_piezas(p.piezas@)
                    == piezas_de_clave(*g, orden, es, orden.len() as int),
                Err(f) => r matches Err(e) && fallo_de(e) == f,
            },
    {
        proof {
            ley_orden_topologico(*g);
        }
        let analisis = match analizar(g) {
            Ok(a) => a,
            Err(e) => {
                return Err(e);
            },
        };
        let ghost es = Seq::new(analisis.entradas@.len(), |i: int| analisis.entradas@[i]@);
        proof {
            if let Ok((orden, es2)) = analisis_de(*g) {
                assert(es =~= es2);
            }
        }
        let trozos = trozos_wgsl(g, &analisis);
        let piezas = piezas_clave(g, &analisis);
        Ok(ShaderPreparado { analisis, trozos, piezas })
    }
}

// ---------------------------------------------------------------------------
// El orden de los nodos no importa
// ---------------------------------------------------------------------------

proof fn lema_nodo_de_igual(a: MaterialGraph, b: MaterialGraph, orden: Seq<u32>, es: Seq<Seq<Entrada>>, i: int)
    requires
        mismos_nodos(a, b),
        completo(a, orden, es),
        0 <= i < orden.len(),
    ensures
        nodo_de(a, orden[i]) == nodo_de(b, orden[i]),
{
    assert(indice_nodo(a.nodes@, orden[i]) >= 0);
}

proof fn lema_lineas_igual(a: MaterialGraph, b: MaterialGraph, orden: Seq<u32>, es: Seq<Seq<Entrada>>, k: int)
    requires
        mismos_nodos(a, b),
        completo(a, orden, es),
        k <= orden.len(),
    ensures
        lineas_t(a, orden, es, k) == lineas_t(b, orden, es, k),
        piezas_de_clave(a, orden, es, k) == piezas_de_clave(b, orden, es, k),
    decreases k,
{
    if k > 0 {
        lema_lineas_igual(a, b, orden, es, k - 1);
        lema_nodo_de_igual(a, b, orden, es, k - 1);
    }
}

/// Reordenar la lista de nodos de un grafo sin ids repetidos es un cambio de
/// almacenamiento, no de topología: no cambian ni el análisis, ni el texto
/// WGSL, ni las piezas de la clave de permutación.
pub proof fn ley_el_orden_de_los_nodos_no_importa(a: MaterialGraph, b: MaterialGraph)
    requires
        a.nodes@.to_multiset() == b.nodes@.to_multiset(),
        ids_unicos(a.nodes@),
        ids_unicos(b.nodes@),
        a.links@ == b.links@,
        a.output == b.output,
    ensures
        analisis_de(a) == analisis_de(b),
        analisis_de(a) matches Ok((orden, es)) ==> trozos_de(a, orden, es) == trozos_de(b, orden, es)
            && piezas_de_clave(a, orden, es, orden.len() as int) == piezas_de_clave(
            b,
            orden,
            es,
            orden.len() as int,
        ),
{
    lema_permutacion(a, b);
    lema_analisis_igual(a, b);
    lema_analisis_completo(a);
    if let Ok((orden, es)) = analisis_de(a) {
        lema_lineas_igual(a, b, orden, es, orden.len() as int);
        assert forall|i: int|
            #![trigger nodo_de(a, orden[i])]
            #![trigger nodo_de(b, orden[i])]
            0 <= i < orden.len() implies nodo_de(a, orden[i]) == nodo_de(b, orden[i]) by {
            lema_nodo_de_igual(a, b, orden, es, i);
        }
        assert(usa(a, orden, NodeKind::TexCoord) == usa(b, orden, NodeKind::TexCoord));
        assert(usa(a, orden, NodeKind::Normal) == usa(b, orden, NodeKind::Normal));
        assert(usa(a, orden, NodeKind::Position) == usa(b, orden, NodeKind::Position));
    }
}

} // verus!
