use forge::material::{tipo_salida, Node, NodeKind, SocketType, Value};

#[test]
fn vec2_no_es_compatible_con_color_aunque_ambos_sean_vectores() {
    assert!(!SocketType::Vec2.compatible_with(SocketType::Color));
    assert!(SocketType::Color.compatible_with(SocketType::Vec3));
    assert!(SocketType::Vec3.compatible_with(SocketType::Color));
    assert!(SocketType::Float.compatible_with(SocketType::Float));
    assert!(!SocketType::Float.compatible_with(SocketType::Vec3));
    assert_eq!(SocketType::Color.wgsl(), "vec3<f32>");
    assert_eq!(SocketType::Vec2.wgsl(), "vec2<f32>");
}

#[test]
fn las_entradas_de_cada_nodo() {
    let e = NodeKind::StandardSurface.inputs();
    let nombres: Vec<&str> = e.iter().map(|(n, _)| *n).collect();
    assert_eq!(nombres, vec!["base_color", "metallic", "roughness", "emissive"]);
    assert_eq!(e[0].1, SocketType::Color);
    assert!(NodeKind::Constant.inputs().is_empty());
    assert_eq!(NodeKind::Remap.inputs().len(), 5);
    assert_eq!(NodeKind::StandardSurface.nombre(), "standard_surface");
    assert_eq!(NodeKind::Checker.output_type(), SocketType::Float);
    assert_eq!(NodeKind::TexCoord.output_type(), SocketType::Vec2);
}

#[test]
fn una_constante_sale_con_el_tipo_de_su_valor() {
    let n = Node { id: 1, kind: NodeKind::Constant, defaults: vec![], constant: Some(Value::Float(0)) };
    assert_eq!(tipo_salida(&n), SocketType::Float);
    let n = Node { id: 1, kind: NodeKind::Constant, defaults: vec![], constant: None };
    assert_eq!(tipo_salida(&n), SocketType::Vec3);
    let n = Node { id: 1, kind: NodeKind::Gradient, defaults: vec![], constant: None };
    assert_eq!(tipo_salida(&n), SocketType::Float);
}
