use forge::adyacencia::{clave, Adjacency};
use forge::ids::{Binding, FeatureId, StableId, TopoClass};
use forge::kernel::Tessellation;
use forge::mesh::{rebind, Corrupcion, Face, Mesh, MeshError, ProvenanceMap};
use forge::soldadura::{soldar_por_claves, to_mesh_con_claves};
use forge::subdivision::{subdividir_topologia, PuntoNuevo};
use forge::vector::DVec3;

fn id(mark: u64) -> StableId {
    StableId { origin: FeatureId::from_u128(7), class: TopoClass::Face, mark }
}

fn v(x: f64, y: f64, z: f64) -> DVec3 {
    DVec3::from_bits(x.to_bits(), y.to_bits(), z.to_bits())
}

fn malla(positions: Vec<DVec3>, bucles: &[&[u32]]) -> Mesh {
    let faces: Vec<Face> = bucles.iter().map(|b| Face { verts: b.to_vec() }).collect();
    let prov = ProvenanceMap { face_origin: (0..faces.len()).map(|i| Some(id(100 + i as u64))).collect() };
    Mesh { positions, normals: Vec::new(), uvs: Vec::new(), faces, prov }
}

fn cubo() -> Mesh {
    let positions = vec![
        v(-1.0, -1.0, -1.0), v(1.0, -1.0, -1.0), v(1.0, 1.0, -1.0), v(-1.0, 1.0, -1.0),
        v(-1.0, -1.0, 1.0), v(1.0, -1.0, 1.0), v(1.0, 1.0, 1.0), v(-1.0, 1.0, 1.0),
    ];
    malla(
        positions,
        &[&[0, 3, 2, 1], &[4, 5, 6, 7], &[0, 1, 5, 4], &[2, 3, 7, 6], &[1, 2, 6, 5], &[0, 4, 7, 3]],
    )
}

fn cuadrado() -> Mesh {
    malla(vec![v(0.0, 0.0, 0.0), v(1.0, 0.0, 0.0), v(1.0, 1.0, 0.0), v(0.0, 1.0, 0.0)], &[&[0, 1, 2, 3]])
}

#[test]
fn adyacencia_de_un_cubo_cerrado() {
    let ady = Adjacency::build(&cubo());
    assert_eq!(ady.edge_faces.len(), 12);
    for caras in ady.edge_faces.values() {
        assert_eq!(caras.len(), 2, "en un solido cerrado toda arista tiene dos caras");
    }
    assert_eq!(ady.edge_faces[&clave(0, 1)], vec![0, 2]);
    assert_eq!(ady.vertex_faces[0], vec![0, 2, 5]);
    assert_eq!(ady.vertex_neighbors[0], vec![1, 3, 4]);
    assert!(!ady.es_borde(0, 1));
    assert!(!ady.es_borde(1, 0));
    // (0, 6) no es arista
    assert!(!ady.es_borde(0, 6));
}

#[test]
fn adyacencia_de_un_cuadrado_suelto() {
    let ady = Adjacency::build(&cuadrado());
    assert_eq!(ady.edge_faces.len(), 4);
    assert!(ady.es_borde(0, 1) && ady.es_borde(2, 1) && ady.es_borde(3, 2) && ady.es_borde(0, 3));
    assert_eq!(ady.vertex_neighbors[2], vec![1, 3]);
    assert_eq!(clave(3, 2), clave(2, 3));
    assert_eq!(clave(2, 3), (2u64 << 32) | 3);
}

#[test]
fn rebind_encuentra_o_rompe() {
    let m = cubo();
    let r = rebind(&[id(102), id(999)], &m);
    assert_eq!(r.len(), 2);
    assert_eq!(r[0].binding, Binding::Bound(2));
    assert_eq!(r[0].faces, vec![2]);
    assert_eq!(r[1].binding, Binding::Broken, "una referencia sin cara se rompe, no se adivina");
    assert!(r[1].faces.is_empty());
}

#[test]
fn soldar_une_vertices_con_la_misma_clave() {
    // dos triángulos que comparten la diagonal, con los vértices repetidos
    let positions = vec![
        v(0.0, 0.0, 0.0), v(1.0, 0.0, 0.0), v(1.0, 1.0, 0.0),
        v(0.0, 0.0, 0.0), v(1.0, 1.0, 0.0), v(0.0, 1.0, 0.0),
    ];
    let m = malla(positions, &[&[0, 1, 2], &[3, 4, 5]]);
    let claves = vec![(0, 0, 0), (1, 0, 0), (1, 1, 0), (0, 0, 0), (1, 1, 0), (0, 1, 0)];
    let s = soldar_por_claves(&m, &claves);
    assert_eq!(s.positions.len(), 4);
    assert_eq!(s.faces[0].verts, vec![0, 1, 2]);
    assert_eq!(s.faces[1].verts, vec![0, 2, 3]);
    assert_eq!(s.prov.face_origin, vec![Some(id(100)), Some(id(101))]);
    s.validate().unwrap();
}

#[test]
fn soldar_elimina_las_caras_que_colapsan() {
    let positions = vec![v(0.0, 0.0, 0.0), v(1e-9, 0.0, 0.0), v(0.0, 1.0, 0.0), v(1.0, 1.0, 0.0)];
    let m = malla(positions, &[&[0, 1, 2], &[1, 3, 2]]);
    // 0 y 1 caen en la misma celda: la primera cara se queda con dos vértices
    let claves = vec![(0, 0, 0), (0, 0, 0), (0, 1, 0), (1, 1, 0)];
    let s = soldar_por_claves(&m, &claves);
    assert_eq!(s.faces.len(), 1);
    assert_eq!(s.faces[0].verts, vec![0, 2, 1]);
    assert_eq!(s.prov.face_origin, vec![Some(id(101))], "la cara que sobrevive conserva su procedencia");
}

fn teselado_de_dos_triangulos() -> Tessellation {
    Tessellation {
        positions: vec![
            v(0.0, 0.0, 0.0), v(1.0, 0.0, 0.0), v(1.0, 1.0, 0.0),
            v(0.0, 0.0, 0.0), v(1.0, 1.0, 0.0), v(0.0, 1.0, 0.0),
        ],
        normals: vec![DVec3::unit_z(); 6],
        indices: vec![0, 1, 2, 3, 4, 5],
        face_of_triangle: vec![id(1), id(2)],
        ..Default::default()
    }
}

#[test]
fn to_mesh_conserva_la_identidad_de_cada_triangulo() {
    let t = teselado_de_dos_triangulos();
    let claves = vec![(0, 0, 0), (1, 0, 0), (1, 1, 0), (0, 0, 0), (1, 1, 0), (0, 1, 0)];
    let m = to_mesh_con_claves(&t, &claves).unwrap();
    assert_eq!(m.positions.len(), 4);
    assert_eq!(m.face_count(), 2);
    assert_eq!(m.prov.face_origin, vec![Some(id(1)), Some(id(2))]);
    assert_eq!(m.normals.len(), 4);
    m.validate().unwrap();
}

#[test]
fn to_mesh_rechaza_un_teselado_roto() {
    let mut t = teselado_de_dos_triangulos();
    t.indices[5] = 40;
    let claves = vec![(0, 0, 0); 6];
    match to_mesh_con_claves(&t, &claves) {
        Err(MeshError::Corrupta(Corrupcion::Teselado(_))) => {}
        otro => panic!("se esperaba un teselado roto: {otro:?}"),
    }
}

#[test]
fn subdividir_un_cubo_da_24_cuadrilateros() {
    let m = cubo();
    let s = subdividir_topologia(&m);
    // 6 puntos de cara, 12 de arista, 8 de vértice
    assert_eq!(s.puntos.len(), 6 + 12 + 8);
    assert_eq!(s.faces.len(), 24);
    for i in 0..6 {
        assert!(matches!(s.puntos[i], PuntoNuevo::DeCara(c) if c == i as u32));
    }
    for p in &s.puntos[6..18] {
        assert!(matches!(p, PuntoNuevo::DeAristaInterior { .. }), "{p:?}");
    }
    match &s.puntos[18] {
        PuntoNuevo::DeVerticeInterior { v, caras, vecinos } => {
            assert_eq!(*v, 0);
            assert_eq!(caras, &vec![0, 2, 5]);
            assert_eq!(vecinos, &vec![1, 3, 4]);
        }
        otro => panic!("{otro:?}"),
    }
    // cada cara produce tantos cuadriláteros como lados, con su procedencia
    assert_eq!(&s.prov.face_origin[0..4], &[Some(id(100)); 4]);
    assert_eq!(&s.prov.face_origin[20..24], &[Some(id(105)); 4]);
    for f in &s.faces {
        assert_eq!(f.verts.len(), 4);
    }
}

#[test]
fn subdividir_un_cuadrado_suelto_respeta_el_borde() {
    let s = subdividir_topologia(&cuadrado());
    assert_eq!(s.puntos.len(), 1 + 4 + 4);
    assert!(matches!(s.puntos[1], PuntoNuevo::DeAristaBorde { a: 0, b: 1 }));
    assert!(matches!(s.puntos[4], PuntoNuevo::DeAristaBorde { a: 0, b: 3 }));
    assert!(matches!(s.puntos[5], PuntoNuevo::DeVerticeBorde { v: 0, w0: 1, w1: 3 }));
    let bucles: Vec<Vec<u32>> = s.faces.iter().map(|f| f.verts.clone()).collect();
    assert_eq!(bucles, vec![vec![5, 1, 0, 4], vec![6, 2, 0, 1], vec![7, 3, 0, 2], vec![8, 4, 0, 3]]);
}

#[test]
fn la_cara_espejada_invierte_el_bucle_y_conserva_el_origen() {
    let m = cubo();
    let (caras, prov) = forge::copias::caras_espejadas(&m.faces, &m.prov.face_origin, 8);
    assert_eq!(caras.len(), 6);
    // [0, 3, 2, 1] -> [0, 1, 2, 3] + 8
    assert_eq!(caras[0].verts, vec![8, 9, 10, 11]);
    // [4, 5, 6, 7] -> [4, 7, 6, 5] + 8
    assert_eq!(caras[1].verts, vec![12, 15, 14, 13]);
    assert_eq!(prov, m.prov.face_origin);
}

#[test]
fn las_copias_desplazan_los_indices() {
    let m = malla(vec![v(0.0, 0.0, 0.0), v(1.0, 0.0, 0.0), v(0.0, 1.0, 0.0)], &[&[0, 1, 2]]);
    let (caras, prov) = forge::copias::caras_repetidas(&m.faces, &m.prov.face_origin, 3, 3);
    let bucles: Vec<Vec<u32>> = caras.iter().map(|f| f.verts.clone()).collect();
    assert_eq!(bucles, vec![vec![0, 1, 2], vec![3, 4, 5], vec![6, 7, 8]]);
    assert_eq!(prov, vec![Some(id(100)); 3]);
    let (ninguna, _) = forge::copias::caras_repetidas(&m.faces, &m.prov.face_origin, 0, 3);
    assert!(ninguna.is_empty());
}
