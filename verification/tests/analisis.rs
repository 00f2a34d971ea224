use forge::analisis::{analizar, Entrada};
use forge::material::{Link, MaterialError, MaterialGraph, Node, NodeKind, SocketType, Value};

fn f(x: f32) -> u32 {
    x.to_bits()
}

fn nodo(id: u32, kind: NodeKind) -> Node {
    Node { id, kind, defaults: Vec::new(), constant: None }
}

fn constante(id: u32, valor: Value) -> Node {
    Node { id, kind: NodeKind::Constant, defaults: Vec::new(), constant: Some(valor) }
}

fn con_default(mut n: Node, nombre: &str, valor: Value) -> Node {
    n.defaults.push((nombre.to_string(), valor));
    n
}

fn enlace(from: u32, to: u32, to_input: &str) -> Link {
    Link { from, to, to_input: to_input.to_string() }
}

fn superficie(id: u32) -> Node {
    Node {
        id,
        kind: NodeKind::StandardSurface,
        defaults: vec![
            ("base_color".to_string(), Value::Color(f(0.5), f(0.5), f(0.5))),
            ("metallic".to_string(), Value::Float(f(0.0))),
            ("roughness".to_string(), Value::Float(f(0.5))),
            ("emissive".to_string(), Value::Color(f(0.0), f(0.0), f(0.0))),
        ],
        constant: None,
    }
}

fn grafo(nodes: Vec<Node>, links: Vec<Link>, output: Option<u32>) -> MaterialGraph {
    MaterialGraph { name: "prueba".to_string(), nodes, links, output }
}

#[test]
fn grafo_minimo_constante_a_salida() {
    let g = grafo(
        vec![constante(1, Value::Color(f(0.8), f(0.2), f(0.2))), superficie(2)],
        vec![enlace(1, 2, "base_color")],
        Some(2),
    );
    let a = analizar(&g).unwrap();
    assert_eq!(a.orden, vec![1, 2]);
    assert!(a.entradas[0].is_empty());
    assert_eq!(a.entradas[1][0], Entrada::Nodo(1));
    assert_eq!(a.entradas[1][1], Entrada::Literal(Value::Float(f(0.0))));
    assert_eq!(a.entradas[1].len(), 4);
}

#[test]
fn el_orden_pone_las_dependencias_antes() {
    // uv -> checker -> mix.mix ; normal -> mix.fg ; mix -> power.a -> base_color
    let g = grafo(
        vec![
            superficie(9),
            con_default(nodo(4, NodeKind::Power), "b", Value::Float(f(2.2))),
            con_default(nodo(3, NodeKind::Mix), "bg", Value::Vec3(0, 0, f(1.0))),
            con_default(nodo(2, NodeKind::Checker), "scale", Value::Float(f(8.0))),
            nodo(1, NodeKind::TexCoord),
            nodo(5, NodeKind::Normal),
        ],
        vec![
            enlace(4, 9, "base_color"),
            enlace(3, 4, "a"),
            enlace(5, 3, "fg"),
            enlace(2, 3, "mix"),
            enlace(1, 2, "uv"),
        ],
        Some(9),
    );
    let a = analizar(&g).unwrap();
    assert_eq!(a.orden, vec![5, 1, 2, 3, 4, 9]);
    let pos = |id: u32| a.orden.iter().position(|&x| x == id).unwrap();
    for (i, entradas) in a.entradas.iter().enumerate() {
        for e in entradas {
            if let Entrada::Nodo(o) = e {
                assert!(pos(*o) < i, "{o} aparece despues de quien lo usa");
            }
        }
    }
}

#[test]
fn un_nodo_inalcanzable_no_aparece_ni_bloquea() {
    let g = grafo(
        vec![superficie(2), nodo(7, NodeKind::Mix)],
        vec![],
        Some(2),
    );
    let a = analizar(&g).unwrap();
    assert_eq!(a.orden, vec![2]);
}

#[test]
fn control_un_ciclo_se_detecta_y_no_cuelga_al_analizar() {
    let g = grafo(
        vec![superficie(3), nodo(1, NodeKind::Add), nodo(2, NodeKind::Add)],
        vec![enlace(1, 3, "base_color"), enlace(2, 1, "a"), enlace(1, 2, "a")],
        Some(3),
    );
    assert!(matches!(analizar(&g), Err(MaterialError::Cycle(1))));
}

#[test]
fn control_tipos_incompatibles_se_detectan_al_analizar() {
    let g = grafo(
        vec![constante(1, Value::Float(f(1.0))), superficie(2)],
        vec![enlace(1, 2, "base_color")],
        Some(2),
    );
    assert!(matches!(
        analizar(&g),
        Err(MaterialError::TypeMismatch { from: SocketType::Float, to: SocketType::Color })
    ));
}

#[test]
fn control_entrada_obligatoria_sin_conectar_se_detecta_al_analizar() {
    let g = grafo(
        vec![superficie(2), nodo(1, NodeKind::Mix)],
        vec![enlace(1, 2, "base_color")],
        Some(2),
    );
    assert!(matches!(analizar(&g), Err(MaterialError::MissingInput { node: 1, input: "fg" })));
    let sin_valor = grafo(
        vec![superficie(2), Node { id: 1, kind: NodeKind::Constant, defaults: vec![], constant: None }],
        vec![enlace(1, 2, "base_color")],
        Some(2),
    );
    assert!(matches!(analizar(&sin_valor), Err(MaterialError::MissingInput { node: 1, input: "constant" })));
}

#[test]
fn control_grafo_sin_nodo_de_salida_se_detecta_al_analizar() {
    let g = grafo(vec![superficie(2)], vec![], None);
    assert!(matches!(analizar(&g), Err(MaterialError::NoOutput)));
}

#[test]
fn control_salida_que_no_es_standard_surface_tambien_cuenta_como_sin_salida_al_analizar() {
    let g = grafo(vec![constante(1, Value::Float(0))], vec![], Some(1));
    assert!(matches!(analizar(&g), Err(MaterialError::NoOutput)));
}

#[test]
fn control_referencia_a_nodo_inexistente_se_detecta_al_analizar() {
    let g = grafo(vec![superficie(2)], vec![enlace(99, 2, "base_color")], Some(2));
    assert!(matches!(analizar(&g), Err(MaterialError::UnknownNode(99))));
    let g = grafo(vec![superficie(2)], vec![], Some(77));
    assert!(matches!(analizar(&g), Err(MaterialError::UnknownNode(77))));
}

#[test]
fn una_constante_color_alimenta_una_entrada_vec3_sin_problema_al_analizar() {
    let g = grafo(
        vec![
            constante(1, Value::Color(f(1.0), 0, 0)),
            con_default(nodo(2, NodeKind::Add), "b", Value::Vec3(0, 0, 0)),
            superficie(3),
        ],
        vec![enlace(1, 2, "a"), enlace(2, 3, "base_color")],
        Some(3),
    );
    assert_eq!(analizar(&g).unwrap().orden, vec![1, 2, 3]);
}

#[test]
fn control_vec2_no_es_compatible_con_color_aunque_ambos_sean_vectores_al_analizar() {
    let g = grafo(
        vec![nodo(1, NodeKind::TexCoord), superficie(2)],
        vec![enlace(1, 2, "base_color")],
        Some(2),
    );
    assert!(matches!(
        analizar(&g),
        Err(MaterialError::TypeMismatch { from: SocketType::Vec2, to: SocketType::Color })
    ));
}

#[test]
fn el_enlace_gana_al_valor_por_defecto_y_el_ultimo_nodo_con_un_id_cuenta() {
    // dos nodos con id 1: cuenta el último, como al indexarlos por id
    let g = grafo(
        vec![constante(1, Value::Float(0)), constante(1, Value::Color(0, 0, 0)), superficie(2)],
        vec![enlace(1, 2, "base_color")],
        Some(2),
    );
    let a = analizar(&g).unwrap();
    assert_eq!(a.entradas[1][0], Entrada::Nodo(1));
}

fn piezas_de(g: &MaterialGraph) -> Vec<String> {
    let a = analizar(g).unwrap();
    forge::analisis::piezas_clave(g, &a).iter().map(|p| format!("{p:?}")).collect()
}

#[test]
fn piezas_de_la_clave_de_un_grafo_minimo() {
    let g = grafo(
        vec![constante(1, Value::Color(f(0.8), f(0.2), f(0.2))), superficie(2)],
        vec![enlace(1, 2, "base_color")],
        Some(2),
    );
    let p = piezas_de(&g);
    assert_eq!(p[0], "Texto(\"constant\")");
    assert_eq!(p[1], "Byte(3)");
    assert_eq!(p[5], "Texto(\"standard_surface\")");
    assert_eq!(p[6], "Byte(0)");
    assert_eq!(p[7], "Indice(0)", "el enlace va por posicion en el orden, no por id");
    assert_eq!(p.len(), 5 + 1 + 2 + 3 + 3 + 5);
}

#[test]
fn permutation_key_no_depende_de_los_ids_ni_del_orden_de_los_nodos() {
    let g1 = grafo(
        vec![constante(1, Value::Color(f(0.8), 0, 0)), superficie(2)],
        vec![enlace(1, 2, "base_color")],
        Some(2),
    );
    let g2 = grafo(
        vec![superficie(20), constante(10, Value::Color(f(0.8), 0, 0))],
        vec![enlace(10, 20, "base_color")],
        Some(20),
    );
    assert_eq!(piezas_de(&g1), piezas_de(&g2));
    let g3 = grafo(
        vec![constante(1, Value::Color(f(0.9), 0, 0)), superficie(2)],
        vec![enlace(1, 2, "base_color")],
        Some(2),
    );
    assert_ne!(piezas_de(&g1), piezas_de(&g3), "un literal distinto tiene que cambiar la clave");
}
