//! El modelo de datos de los materiales: tipos de conexión, nodos y grafo.

use vstd::prelude::*;

verus! {

/// Tipo de una conexión entre nodos.
#[derive(Clone, Copy, PartialEq, Eq, Structural, Hash, Debug)]
pub enum SocketType {
    Float,
    Vec2,
    Vec3,
    Color,
}

/// ¿Se puede conectar una salida de tipo `a` a una entrada de tipo `b`?
/// Iguales, o color y vector de tres, que comparten representación.
pub open spec fn compatibles(a: SocketType, b: SocketType) -> bool {
    a == b || (a is Vec3 && b is Color) || (a is Color && b is Vec3)
}

impl SocketType {
    /// El tipo WGSL que lo representa.
    pub fn wgsl(self) -> (r: &'static str)
        ensures
            r@ == (match self {
                SocketType::Float => "f32"@,
                SocketType::Vec2 => "vec2<f32>"@,
                _ => "vec3<f32>"@,
            }),
    {
        match self {
            SocketType::Float => "f32",
            SocketType::Vec2 => "vec2<f32>",
            SocketType::Vec3 | SocketType::Color => "vec3<f32>",
        }
    }

    pub fn compatible_with(self, to: SocketType) -> (r: bool)
        ensures
            r == compatibles(self, to),
    {
        self == to || (self == SocketType::Vec3 && to == SocketType::Color) || (self
            == SocketType::Color && to == SocketType::Vec3)
    }
}

/// La compatibilidad es reflexiva y simétrica.
pub proof fn ley_compatibilidad(a: SocketType, b: SocketType)
    ensures
        compatibles(a, a),
        compatibles(a, b) == compatibles(b, a),
{
}

/// Un valor literal, con sus componentes `f32` por sus bits.
#[derive(Clone, Copy, PartialEq, Eq, Structural, Debug)]
pub enum Value {
    Float(u32),
    Vec2(u32, u32),
    Vec3(u32, u32, u32),
    Color(u32, u32, u32),
}

impl Value {
    pub fn socket_type(self) -> (r: SocketType)
        ensures
            r == (match self {
                Value::Float(..) => SocketType::Float,
                Value::Vec2(..) => SocketType::Vec2,
                Value::Vec3(..) => SocketType::Vec3,
                Value::Color(..) => SocketType::Color,
            }),
    {
        match self {
            Value::Float(..) => SocketType::Float,
            Value::Vec2(..) => SocketType::Vec2,
            Value::Vec3(..) => SocketType::Vec3,
            Value::Color(..) => SocketType::Color,
        }
    }
}

/// Clase de nodo.
#[derive(Clone, Copy, PartialEq, Eq, Structural, Debug)]
pub enum NodeKind {
    Constant,
    TexCoord,
    Normal,
    Position,
    Add,
    Multiply,
    Mix,
    Clamp,
    Power,
    DotProduct,
    Remap,
    Checker,
    Gradient,
    StandardSurface,
}

/// El nombre estable de cada clase de nodo.
pub open spec fn nombre_de_nodo(k: NodeKind) -> Seq<char> {
    match k {
        NodeKind::Constant => "constant"@,
        NodeKind::TexCoord => "texcoord"@,
        NodeKind::Normal => "normal"@,
        NodeKind::Position => "position"@,
        NodeKind::Add => "add"@,
        NodeKind::Multiply => "multiply"@,
        NodeKind::Mix => "mix"@,
        NodeKind::Clamp => "clamp"@,
        NodeKind::Power => "power"@,
        NodeKind::DotProduct => "dotproduct"@,
        NodeKind::Remap => "remap"@,
        NodeKind::Checker => "checker"@,
        NodeKind::Gradient => "gradient"@,
        NodeKind::StandardSurface => "standard_surface"@,
    }
}

/// Los tipos de las entradas de cada clase de nodo, en orden.
pub open spec fn tipos_de_entradas(k: NodeKind) -> Seq<SocketType> {
    match k {
        NodeKind::Add | NodeKind::Multiply | NodeKind::DotProduct => seq![
            SocketType::Vec3,
            SocketType::Vec3,
        ],
        NodeKind::Mix => seq![SocketType::Vec3, SocketType::Vec3, SocketType::Float],
        NodeKind::Clamp => seq![SocketType::Vec3, SocketType::Float, SocketType::Float],
        NodeKind::Power => seq![SocketType::Vec3, SocketType::Float],
        NodeKind::Remap => seq![
            SocketType::Float,
            SocketType::Float,
            SocketType::Float,
            SocketType::Float,
            SocketType::Float,
        ],
        NodeKind::Checker => seq![SocketType::Vec2, SocketType::Float],
        NodeKind::Gradient => seq![SocketType::Vec2],
        NodeKind::StandardSurface => seq![
            SocketType::Color,
            SocketType::Float,
            SocketType::Float,
            SocketType::Color,
        ],
        _ => Seq::empty(),
    }
}

/// Los nombres de las entradas de cada clase de nodo, en orden.
pub open spec fn nombres_de_entradas(k: NodeKind) -> Seq<Seq<char>> {
    match k {
        NodeKind::Add | NodeKind::Multiply | NodeKind::DotProduct => seq!["a"@, "b"@],
        NodeKind::Mix => seq!["fg"@, "bg"@, "mix"@],
        NodeKind::Clamp => seq!["in"@, "low"@, "high"@],
        NodeKind::Power => seq!["a"@, "b"@],
        NodeKind::Remap => seq!["in"@, "in_lo"@, "in_hi"@, "out_lo"@, "out_hi"@],
        NodeKind::Checker => seq!["uv"@, "scale"@],
        NodeKind::Gradient => seq!["uv"@],
        NodeKind::StandardSurface => seq!["base_color"@, "metallic"@, "roughness"@, "emissive"@],
        _ => Seq::empty(),
    }
}

/// El tipo de la salida de cada clase de nodo.
pub open spec fn tipo_de_salida(k: NodeKind) -> SocketType {
    match k {
        NodeKind::TexCoord => SocketType::Vec2,
        NodeKind::DotProduct | NodeKind::Remap | NodeKind::Gradient | NodeKind::Checker => SocketType::Float,
        NodeKind::StandardSurface => SocketType::Color,
        _ => SocketType::Vec3,
    }
}

impl NodeKind {
    pub fn nombre(self) -> (r: &'static str)
        ensures
            r@ == nombre_de_nodo(self),
    {
        match self {
            NodeKind::Constant => "constant",
            NodeKind::TexCoord => "texcoord",
            NodeKind::Normal => "normal",
            NodeKind::Position => "position",
            NodeKind::Add => "add",
            NodeKind::Multiply => "multiply",
            NodeKind::Mix => "mix",
            NodeKind::Clamp => "clamp",
            NodeKind::Power => "power",
            NodeKind::DotProduct => "dotproduct",
            NodeKind::Remap => "remap",
            NodeKind::Checker => "checker",
            NodeKind::Gradient => "gradient",
            NodeKind::StandardSurface => "standard_surface",
        }
    }

    /// Las entradas de la clase de nodo: nombre y tipo, en orden.
    pub fn inputs(self) -> (r: Vec<(&'static str, SocketType)>)
        ensures
            r@.len() == tipos_de_entradas(self).len(),
            forall|i: int| 0 <= i < r@.len() ==> #[trigger] r@[i].1 == tipos_de_entradas(self)[i],
            forall|i: int| 0 <= i < r@.len() ==> #[trigger] r@[i].0@ == nombres_de_entradas(self)[i],
    {
        let r = match self {
            NodeKind::Constant | NodeKind::TexCoord | NodeKind::Normal | NodeKind::Position => {
                Vec::new()
            },
            NodeKind::Add | NodeKind::Multiply | NodeKind::DotProduct => {
                vec![("a", SocketType::Vec3), ("b", SocketType::Vec3)]
            },
            NodeKind::Mix => vec![
                ("fg", SocketType::Vec3),
                ("bg", SocketType::Vec3),
                ("mix", SocketType::Float),
            ],
            NodeKind::Clamp => vec![
                ("in", SocketType::Vec3),
                ("low", SocketType::Float),
                ("high", SocketType::Float),
            ],
            NodeKind::Power => vec![("a", SocketType::Vec3), ("b", SocketType::Float)],
            NodeKind::Remap => vec![
                ("in", SocketType::Float),
                ("in_lo", SocketType::Float),
                ("in_hi", SocketType::Float),
                ("out_lo", SocketType::Float),
                ("out_hi", SocketType::Float),
            ],
            NodeKind::Checker => vec![("uv", SocketType::Vec2), ("scale", SocketType::Float)],
            NodeKind::Gradient => vec![("uv", SocketType::Vec2)],
            NodeKind::StandardSurface => vec![
                ("base_color", SocketType::Color),
                ("metallic", SocketType::Float),
                ("roughness", SocketType::Float),
                ("emissive", SocketType::Color),
            ],
        };
        r
    }

    pub fn output_type(self) -> (r: SocketType)
        ensures
            r == tipo_de_salida(self),
    {
        match self {
            NodeKind::TexCoord => SocketType::Vec2,
            NodeKind::Normal | NodeKind::Position => SocketType::Vec3,
            NodeKind::DotProduct | NodeKind::Remap | NodeKind::Gradient => SocketType::Float,
            NodeKind::Checker => SocketType::Float,
            NodeKind::Constant => SocketType::Vec3,
            NodeKind::StandardSurface => SocketType::Color,
            _ => SocketType::Vec3,
        }
    }
}

/// Un nodo del grafo.
#[derive(Clone, Debug)]
pub struct Node {
    pub id: u32,
    pub kind: NodeKind,
    /// Valores por defecto de entradas no conectadas.
    pub defaults: Vec<(String, Value)>,
    /// Solo para `Constant`.
    pub constant: Option<Value>,
}

/// El tipo de la salida de un nodo: el de su constante, si lo es.
pub open spec fn salida_de(n: Node) -> SocketType {
    match n.kind {
        NodeKind::Constant => match n.constant {
            Some(v) => match v {
                Value::Float(..) => SocketType::Float,
                Value::Vec2(..) => SocketType::Vec2,
                Value::Vec3(..) => SocketType::Vec3,
                Value::Color(..) => SocketType::Color,
            },
            None => SocketType::Vec3,
        },
        otro => tipo_de_salida(otro),
    }
}

/// El tipo de la salida de un nodo.
pub fn tipo_salida(nodo: &Node) -> (r: SocketType)
    ensures
        r == salida_de(*nodo),
{
    match nodo.kind {
        NodeKind::Constant => match nodo.constant {
            Some(v) => v.socket_type(),
            None => SocketType::Vec3,
        },
        otro => otro.output_type(),
    }
}

/// Una conexión: la salida de `from` a la entrada `to_input` de `to`.
#[derive(Clone, Debug)]
pub struct Link {
    pub from: u32,
    pub to: u32,
    pub to_input: String,
}

/// Un grafo de material.
#[derive(Clone, Debug, Default)]
pub struct MaterialGraph {
    pub name: String,
    pub nodes: Vec<Node>,
    pub links: Vec<Link>,
    pub output: Option<u32>,
}

/// Lo que devuelve un generador de shaders.
#[derive(Clone, Debug)]
pub struct GeneratedShader {
    pub wgsl: String,
    pub permutation_key: u64,
    pub nodes_used: usize,
}

/// Errores del pilar de materiales.
#[derive(Clone, Debug)]
pub enum MaterialError {
    Cycle(u32),
    MissingInput { node: u32, input: &'static str },
    TypeMismatch { from: SocketType, to: SocketType },
    UnknownNode(u32),
    NoOutput,
    Unsupported(&'static str),
}

/// El generador de WGSL.
#[derive(Clone, Copy, Debug, Default)]
pub struct WgslGenerator;

} // verus!
