use forge::glb::{empaquetar_glb, DefectoDeGlb, DefectoDeIndices};
use forge::gltf::{leer_documento, leer_glb, leer_glb_de_bytes, AccesorGltf, AtributosGltf, DefectoDeGltf, DocumentoGltf, PrimitivaGltf, VistaGltf};

fn bin() -> Vec<u8> {
    let mut b = Vec::new();
    for x in [0.0f32, 0.0, 0.0, 1.0, 0.0, 0.0, 0.0, 1.0, 0.5] {
        b.extend_from_slice(&x.to_le_bytes());
    }
    for i in [0u16, 1, 2] {
        b.extend_from_slice(&i.to_le_bytes());
    }
    b
}

fn acc(bv: u64, tipo: u64, count: u64) -> AccesorGltf {
    AccesorGltf { buffer_view: Some(bv), component_type: Some(tipo), count: Some(count) }
}

fn doc() -> DocumentoGltf {
    DocumentoGltf {
        accessors: Some(vec![acc(0, 5126, 3), acc(1, 5123, 3)]),
        buffer_views: Some(vec![
            VistaGltf { byte_offset: None, byte_length: Some(36) },
            VistaGltf { byte_offset: Some(36), byte_length: Some(6) },
        ]),
        primitiva: Some(PrimitivaGltf {
            attributes: Some(AtributosGltf { position: Some(0), normal: None, texcoord_0: None }),
            indices: Some(1),
        }),
        nombre: Some("tri".to_string()),
    }
}

fn glb() -> Vec<u8> {
    empaquetar_glb(&b"{}".to_vec(), &bin())
}

#[test]
fn un_glb_bien_formado_da_sus_bits_y_sus_indices() {
    let s = leer_glb(&glb(), Some(Ok(doc()))).unwrap();
    assert_eq!(s.name, "tri");
    assert_eq!(s.positions.len(), 9);
    assert_eq!(s.positions[3], 1.0f32.to_bits());
    assert_eq!(s.positions[8], 0.5f32.to_bits());
    assert!(s.normals.is_empty() && s.uvs.is_empty());
    assert_eq!(s.indices, vec![0, 1, 2]);
    let mut sin_nombre = doc();
    sin_nombre.nombre = None;
    assert_eq!(leer_glb(&glb(), Some(Ok(sin_nombre))).unwrap().name, "malla");
}

#[test]
fn cada_campo_que_falta_tiene_su_error() {
    let mut d = doc();
    d.accessors = None;
    assert!(matches!(leer_glb(&glb(), Some(Ok(d))), Err(DefectoDeGltf::AccessorsNoEsArray)));
    let mut d = doc();
    d.primitiva = None;
    assert!(matches!(leer_glb(&glb(), Some(Ok(d))), Err(DefectoDeGltf::SinPrimitives)));
    let mut d = doc();
    d.accessors = Some(vec![acc(0, 5123, 3), acc(1, 5123, 3)]);
    assert!(matches!(leer_glb(&glb(), Some(Ok(d))), Err(DefectoDeGltf::NoEsFloat32)));
    let mut d = doc();
    d.accessors = Some(vec![acc(0, 5126, 4), acc(1, 5123, 3)]);
    assert!(matches!(leer_glb(&glb(), Some(Ok(d))), Err(DefectoDeGltf::Truncado("POSITION"))));
    let mut d = doc();
    d.accessors = Some(vec![acc(0, 5126, 3), acc(1, 5123, 4)]);
    assert!(matches!(leer_glb(&glb(), Some(Ok(d))), Err(DefectoDeGltf::Indices(DefectoDeIndices::Truncados))));
    let mut d = doc();
    d.accessors = Some(vec![acc(5, 5126, 3), acc(1, 5123, 3)]);
    assert!(matches!(leer_glb(&glb(), Some(Ok(d))), Err(DefectoDeGltf::BufferViewFuera)));
    let mut d = doc();
    d.primitiva = Some(PrimitivaGltf {
        attributes: Some(AtributosGltf { position: Some(7), normal: None, texcoord_0: None }),
        indices: Some(1),
    });
    assert!(matches!(leer_glb(&glb(), Some(Ok(d))), Err(DefectoDeGltf::AccesorFuera { indice: 7 })));
}

#[test]
fn el_contenedor_y_el_json_mandan_antes_que_la_malla() {
    let g = glb();
    assert!(matches!(leer_glb(&g, Some(Err("roto".to_string()))), Err(DefectoDeGltf::Json(m)) if m == "roto"));
    // sin el trozo BIN: si el JSON no se entiende, ese es el error; si se entiende, el del contenedor
    let corto = empaquetar_glb(&b"{}".to_vec(), &Vec::new());
    assert!(matches!(leer_glb(&corto, Some(Err("roto".to_string()))), Err(DefectoDeGltf::Json(_))));
    assert!(matches!(
        leer_glb(&corto, Some(Ok(doc()))),
        Err(DefectoDeGltf::Contenedor(DefectoDeGlb::CabeceraBinTruncada))
    ));
    assert!(matches!(leer_glb(&[1, 2, 3], None), Err(DefectoDeGltf::Contenedor(DefectoDeGlb::DemasiadoCorto))));
}

const JSON: &str = r#"{"asset":{"version":"2.0"},
 "accessors":[{"bufferView":0,"componentType":5126,"count":3,"type":"VEC3"},{"bufferView":1,"componentType":5123,"count":3}],
 "bufferViews":[{"buffer":0,"byteLength":36},{"buffer":0,"byteOffset":36,"byteLength":6}],
 "meshes":[{"name":"tri","primitives":[{"attributes":{"POSITION":0},"indices":1,"mode":4}]}]}"#;

#[test]
fn un_glb_se_lee_de_sus_bytes_con_su_json() {
    let g = empaquetar_glb(&JSON.as_bytes().to_vec(), &bin());
    let s = leer_glb_de_bytes(&g).unwrap();
    assert_eq!(s.name, "tri");
    assert_eq!(s.positions[4], 0.0f32.to_bits());
    assert_eq!(s.positions[7], 1.0f32.to_bits());
    assert_eq!(s.indices, vec![0, 1, 2]);
    // el documento es el que se construye a mano
    let d = leer_documento(JSON.as_bytes()).unwrap();
    assert_eq!(d.accessors.as_ref().unwrap().len(), 2);
    assert_eq!(d.accessors.as_ref().unwrap()[1].component_type, Some(5123));
    assert_eq!(d.buffer_views.as_ref().unwrap()[0].byte_offset, None);
    assert_eq!(d.primitiva.unwrap().attributes.unwrap().position, Some(0));
    assert_eq!(d.primitiva.unwrap().attributes.unwrap().normal, None);
}

#[test]
fn un_json_roto_o_incompleto_se_denuncia() {
    let g = empaquetar_glb(&b"{no es json".to_vec(), &bin());
    assert!(matches!(leer_glb_de_bytes(&g), Err(DefectoDeGltf::Json(_))));
    let g = empaquetar_glb(&br#"{"bufferViews":[]}"#.to_vec(), &bin());
    assert!(matches!(leer_glb_de_bytes(&g), Err(DefectoDeGltf::AccessorsNoEsArray)));
    let g = empaquetar_glb(&br#"{"accessors":[],"bufferViews":[],"meshes":[{"primitives":[]}]}"#.to_vec(), &bin());
    assert!(matches!(leer_glb_de_bytes(&g), Err(DefectoDeGltf::SinPrimitives)));
}
