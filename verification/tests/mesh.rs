use forge::ids::{FeatureId, StableId, TopoClass};
use forge::mesh::{Corrupcion, Face, Mesh, MeshError, ProvenanceMap};
use forge::modifiers::{verificar_propagacion, Modifier, ModifierStack, Triangulate};
use forge::vector::DVec3;

fn f() -> FeatureId {
    FeatureId::from_u128(1)
}

fn v(x: f64, y: f64, z: f64) -> DVec3 {
    DVec3::from_bits(x.to_bits(), y.to_bits(), z.to_bits())
}

/// Cubo de lado `l` centrado en el origen, con procedencia por cara.
fn cubo(l: f64, origen: FeatureId) -> Mesh {
    let h = l * 0.5;
    let p = |x: f64, y: f64, z: f64| v(x * h, y * h, z * h);
    let positions = vec![
        p(-1.0, -1.0, -1.0), p(1.0, -1.0, -1.0), p(1.0, 1.0, -1.0), p(-1.0, 1.0, -1.0),
        p(-1.0, -1.0, 1.0), p(1.0, -1.0, 1.0), p(1.0, 1.0, 1.0), p(-1.0, 1.0, 1.0),
    ];
    let bucles: [[u32; 4]; 6] = [
        [0, 3, 2, 1], [4, 5, 6, 7], [0, 1, 5, 4], [2, 3, 7, 6], [1, 2, 6, 5], [0, 4, 7, 3],
    ];
    let faces: Vec<Face> = bucles.iter().map(|b| Face { verts: b.to_vec() }).collect();
    let prov = ProvenanceMap {
        face_origin: (0..6)
            .map(|i| Some(StableId { origin: origen, class: TopoClass::Face, mark: 1000 + i as u64 }))
            .collect(),
    };
    Mesh { positions, normals: Vec::new(), uvs: Vec::new(), faces, prov }
}

#[test]
fn validate_detecta_las_formas_de_estar_rota() {
    let base = cubo(2.0, f());
    base.validate().unwrap();

    let mut sin_prov = base.clone();
    sin_prov.prov.face_origin.pop();
    assert!(sin_prov.validate().is_err(), "no detecto mapa de procedencia descuadrado");

    let mut fuera = base.clone();
    fuera.faces[0].verts[0] = 99;
    assert!(fuera.validate().is_err(), "no detecto indice fuera de rango");

    let mut repetido = base.clone();
    repetido.faces[0].verts[1] = repetido.faces[0].verts[0];
    assert!(repetido.validate().is_err(), "no detecto vertice repetido en un bucle");

    let mut normales = base.clone();
    normales.normals = vec![DVec3::unit_z(); 3];
    assert!(normales.validate().is_err(), "no detecto normales descuadradas");

    // orientacion incoherente: dos caras recorriendo la misma arista igual
    let mut orientacion = base.clone();
    orientacion.faces[1].verts.reverse();
    assert!(
        orientacion.validate().is_err(),
        "no detecto media arista repetida: la orientacion esta incoherente"
    );
}

#[test]
fn validate_nombra_el_defecto() {
    let base = cubo(2.0, f());
    let mut fuera = base.clone();
    fuera.faces[2].verts[1] = 99;
    match fuera.validate() {
        Err(MeshError::Corrupta(Corrupcion::FueraDeRango { cara, vertice, n })) => {
            assert_eq!((cara, vertice, n), (2, 99, 8));
        }
        otro => panic!("{otro:?}"),
    }
    let mut pocos = base.clone();
    pocos.faces[3].verts.truncate(2);
    assert!(matches!(
        pocos.validate(),
        Err(MeshError::Corrupta(Corrupcion::PocosVertices { cara: 3, n: 2 }))
    ));
    let mut uvs = base.clone();
    uvs.uvs = vec![forge::vector::DVec2::from_bits(0, 0)];
    assert!(matches!(uvs.validate(), Err(MeshError::Corrupta(Corrupcion::UvsDescuadradas))));
}

/// Respuesta conocida: un cubo cerrado tiene 8 vértices, 12 aristas, 6 caras
/// y característica de Euler 2.
#[test]
fn el_cubo_tiene_euler_dos() {
    let c = cubo(2.0, f());
    assert_eq!(c.vertex_count(), 8);
    assert_eq!(c.edge_count(), 12);
    assert_eq!(c.face_count(), 6);
    assert_eq!(c.euler(), 2);
    assert_eq!(c.medias_aristas().len(), 24);
}

#[test]
fn la_procedencia_se_consulta_por_cara() {
    let c = cubo(2.0, f());
    let id = StableId { origin: f(), class: TopoClass::Face, mark: 1003 };
    assert_eq!(c.prov.caras_de(id), vec![3]);
    let otra = StableId { origin: f(), class: TopoClass::Edge, mark: 1003 };
    assert!(c.prov.caras_de(otra).is_empty());
    let vacia = ProvenanceMap::con_capacidad(4);
    assert_eq!(vacia.face_origin, vec![None; 4]);
}

#[test]
fn triangular_convierte_cada_cuadrilatero_en_dos() {
    let c = cubo(2.0, f());
    let t = Triangulate.apply(&c).unwrap();
    t.validate().unwrap();
    assert_eq!(t.face_count(), 12, "6 cuadrilateros -> 12 triangulos");
    assert_eq!(t.vertex_count(), 8, "triangular no anade vertices");
    assert!(t.prov.face_origin.iter().all(|o| o.is_some()));
    assert_eq!(t.faces[0].verts, vec![0, 3, 2]);
    assert_eq!(t.faces[1].verts, vec![0, 2, 1]);
    assert_eq!(t.prov.face_origin[0], c.prov.face_origin[0]);
    assert_eq!(t.prov.face_origin[1], c.prov.face_origin[0]);
    assert_eq!(t.prov.face_origin[11], c.prov.face_origin[5]);
}

struct ModificadorRoto;

impl Modifier for ModificadorRoto {
    fn tipo(&self) -> &'static str {
        self.kind()
    }
    fn clave_params(&self) -> u64 {
        self.params_hash()
    }
    fn kind(&self) -> &'static str {
        "roto_a_proposito"
    }
    fn params_hash(&self) -> u64 {
        0
    }
    fn apply(&self, input: &Mesh) -> Result<Mesh, MeshError> {
        let mut m = input.clone();
        // tira la procedencia, que es justo lo prohibido
        m.prov = ProvenanceMap::con_capacidad(m.faces.len());
        Ok(m)
    }
}

#[test]
fn la_pila_detecta_un_modificador_que_no_propaga_procedencia() {
    let c = cubo(2.0, f());
    // aplicado a mano no se entera nadie...
    let suelto = ModificadorRoto.apply(&c).unwrap();
    assert!(suelto.prov.face_origin.iter().all(|o| o.is_none()));

    // ...pero la pila lo caza, y dice cuantas caras y cual modificador
    let r = ModifierStack::new().push(ModificadorRoto).apply(&c);
    match r {
        Err(MeshError::ProcedenciaPerdida(kind, perdidas, total)) => {
            assert_eq!(kind, "roto_a_proposito");
            assert_eq!((perdidas, total), (6, 6));
        }
        otro => panic!("la pila no detecto la perdida de procedencia: {otro:?}"),
    }
}

#[test]
fn una_entrada_sin_procedencia_no_obliga_a_la_salida() {
    let mut c = cubo(2.0, f());
    c.prov.face_origin[0] = None;
    let salida = ModificadorRoto.apply(&c).unwrap();
    assert!(verificar_propagacion("roto_a_proposito", &c, &salida).is_ok());
}

#[test]
fn la_pila_vacia_devuelve_la_entrada_y_la_llena_aplica_en_orden() {
    let c = cubo(2.0, f());
    let vacia = ModifierStack::new();
    assert!(vacia.is_empty());
    let m = vacia.apply(&c).unwrap();
    assert_eq!(m.faces.len(), 6);
    assert_eq!(m.prov.face_origin, c.prov.face_origin);

    let pila = ModifierStack::new().push(Triangulate).push(Triangulate);
    assert_eq!(pila.len(), 2);
    let m = pila.apply(&c).unwrap();
    assert_eq!(m.face_count(), 12, "triangular dos veces es triangular una");
}

/// FNV-1a sobre tipo, separador y clave de cada paso.
fn clave_esperada(pasos: &[(&str, u64)]) -> u64 {
    let mut h: u64 = 0xcbf2_9ce4_8422_2325;
    let mut mezclar = |bytes: &[u8]| {
        for &b in bytes {
            h ^= b as u64;
            h = h.wrapping_mul(0x100_0000_01b3);
        }
    };
    for (k, p) in pasos {
        mezclar(k.as_bytes());
        mezclar(&[0]);
        mezclar(&p.to_le_bytes());
    }
    h
}

#[test]
fn la_clave_de_la_pila_mezcla_tipo_y_parametros_en_orden() {
    let a = ModifierStack::new().push(Triangulate).push(ModificadorRoto);
    let b = ModifierStack::new().push(Triangulate).push(ModificadorRoto);
    let c = ModifierStack::new().push(ModificadorRoto).push(Triangulate);
    assert_eq!(a.params_hash(), b.params_hash());
    assert_ne!(a.params_hash(), c.params_hash(), "el orden de la pila es semantica");
    assert_eq!(
        a.params_hash(),
        clave_esperada(&[("triangulate", 0x7A1), ("roto_a_proposito", 0)])
    );
    assert_eq!(ModifierStack::new().params_hash(), 0xcbf2_9ce4_8422_2325);
}

#[test]
fn mas_de_seis_niveles_de_subdivision_se_rechazan_con_la_cuenta() {
    assert!(forge::modifiers::comprobar_niveles(6).is_ok());
    match forge::modifiers::comprobar_niveles(7) {
        Err(MeshError::Parametro { modificador, detalle }) => {
            assert_eq!(modificador, "subdivide");
            assert!(detalle.starts_with("7 niveles es demasiado."));
            assert!(detalle.ends_with("o sea 4^6 veces la cuenta de despues del primero"));
        }
        otro => panic!("{otro:?}"),
    }
}

/// Un modificador con un parámetro, como `Subdivide::new(n)`: su clave es la
/// del número de niveles.
struct Niveles(u32);

impl Modifier for Niveles {
    fn tipo(&self) -> &'static str {
        self.kind()
    }
    fn clave_params(&self) -> u64 {
        self.params_hash()
    }
    fn kind(&self) -> &'static str {
        "subdivide"
    }
    fn params_hash(&self) -> u64 {
        forge::hash::fnv(&[(self.0 as f64).to_bits(), 1.0f64.to_bits()])
    }
    fn apply(&self, input: &Mesh) -> Result<Mesh, MeshError> {
        Ok(input.clone())
    }
}

#[test]
fn la_pila_tiene_clave_de_cache_estable() {
    let a = ModifierStack::new().push(Niveles(2)).push(Triangulate);
    let b = ModifierStack::new().push(Niveles(2)).push(Triangulate);
    let c = ModifierStack::new().push(Niveles(3)).push(Triangulate);
    let d = ModifierStack::new().push(Triangulate).push(Niveles(2));
    assert_eq!(a.params_hash(), b.params_hash());
    assert_ne!(a.params_hash(), c.params_hash(), "cambiar un parametro debe cambiar la clave");
    assert_ne!(a.params_hash(), d.params_hash(), "el orden de la pila es semantica");
}
