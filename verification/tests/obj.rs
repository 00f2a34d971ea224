use forge::interop::{DefectoDeSopa, InteropError, ObjOptions, TriangleSoup};
use forge::obj::{fichas_reales, from_str_con_reales, Malformacion};

/// La lectura completa: los números los convierte `f64::from_str`, como en
/// el programa; el resto lo decide la biblioteca.
fn leer(txt: &str, opts: ObjOptions) -> Option<Result<TriangleSoup, InteropError>> {
    let reales: Vec<Option<u64>> =
        fichas_reales(txt).iter().map(|t| t.parse::<f64>().ok().map(f64::to_bits)).collect();
    from_str_con_reales(txt, opts, &reales)
}

fn from_str(txt: &str, opts: ObjOptions) -> Result<TriangleSoup, InteropError> {
    leer(txt, opts).expect("una cara con un vertice sin posicion")
}

fn linea_de(r: Result<TriangleSoup, InteropError>) -> (usize, Malformacion) {
    match r {
        Err(InteropError::Malformed { line, detail }) => (line, detail),
        Err(e) => panic!("otro error: {e:?}"),
        Ok(_) => panic!("se acepto"),
    }
}

#[test]
fn obj_acepta_indices_negativos_y_caras_de_cuatro() {
    // indices negativos = relativos al final; cara de 4 vertices = 2 triangulos
    let txt = "\
v 0 0 0
v 1 0 0
v 1 1 0
v 0 1 0
f -4 -3 -2 -1
";
    let s = from_str(txt, ObjOptions::default()).unwrap();
    assert_eq!(s.positions.len(), 4);
    assert_eq!(s.triangle_count(), 2, "la cara de 4 no se triangulo");
}

/// Control positivo: cada forma de estar mal formado se detecta con su línea.
#[test]
fn obj_detecta_archivos_mal_formados() {
    let casos = [
        ("v 0 0\nf 1 1 1\n", "vertice incompleto"),
        ("v 0 0 0\nv 1 0 0\nv 0 1 0\nf 1 2\n", "cara con 2 vertices"),
        ("v 0 0 0\nf 1 2 99\n", "indice fuera de rango"),
        ("v 0 0 0\nv 1 0 0\nv 0 1 0\nf 1 2 x\n", "indice no numerico"),
    ];
    for (txt, que) in casos {
        let r = from_str(txt, ObjOptions::default());
        assert!(r.is_err(), "no detecto: {que}");
        if let Err(InteropError::Malformed { line, .. }) = r {
            assert!(line > 0, "el error no dice en que linea ({que})");
        }
    }
}

#[test]
fn obj_cada_error_dice_su_linea_y_su_motivo() {
    assert_eq!(
        linea_de(from_str("v 0 0\nf 1 1 1\n", ObjOptions::default())),
        (1, Malformacion::FaltaComponente('z'))
    );
    assert_eq!(
        linea_de(from_str("v 0 0 0\nv 1 0 0\nv 0 1 0\nf 1 2\n", ObjOptions::default())),
        (4, Malformacion::CaraCorta(2))
    );
    assert_eq!(
        linea_de(from_str("v 0 0 0\nf 1 2 99\n", ObjOptions::default())),
        (2, Malformacion::IndiceFuera { raw: 2, total: 1 })
    );
    assert_eq!(
        linea_de(from_str("v 0 0 0\nv 1 0 0\nv 0 1 0\nf 1 2 x\n", ObjOptions::default())),
        (4, Malformacion::IndiceIlegible)
    );
    assert_eq!(
        linea_de(from_str("# cabecera\n\nv 0 abc 0\n", ObjOptions::default())),
        (3, Malformacion::NumeroIlegible)
    );
    assert_eq!(
        linea_de(from_str("v 0 0 0\nv 1 0 0\nv 0 1 0\nf 1 2 -4\n", ObjOptions::default())),
        (4, Malformacion::IndiceFuera { raw: -4, total: 3 })
    );
}

#[test]
fn obj_lee_nombre_normales_uv_y_comentarios() {
    let txt = "\
# generado a mano
o  pieza   uno  # el nombre
g otro
v 0 0 0
v 1 0 0
v 0 1 0
vt 0 0
vt 1 0
vt 0 1
vn 0 0 1
f 1/1/1 2/2/1 3/3/1
usemtl acero
";
    let s = from_str(txt, ObjOptions::default()).unwrap();
    assert_eq!(s.name, "pieza uno");
    assert_eq!(s.positions.len(), 3);
    assert_eq!(s.normals.len(), 3);
    assert_eq!(s.uvs.len(), 3);
    assert_eq!(s.indices, vec![0, 1, 2]);
    assert_eq!(f64::from_bits(s.positions[1].x), 1.0);
    assert_eq!(f64::from_bits(s.uvs[2].y), 1.0);
    assert_eq!(f64::from_bits(s.normals[0].z), 1.0);
}

#[test]
fn obj_deduplica_por_terna_y_descarta_normales_descuadradas() {
    // dos caras que comparten la arista 1-3: los vértices repetidos se
    // reutilizan; la normal solo la tiene una terna, así que se descartan
    let txt = "v 0 0 0\nv 1 0 0\nv 1 1 0\nv 0 1 0\nvn 0 0 1\nf 1//1 2 3\nf 1 3 4\n";
    let s = from_str(txt, ObjOptions::default()).unwrap();
    // ternas: (0,-,0) (1,-,-) (2,-,-) (0,-,-) (3,-,-)
    assert_eq!(s.positions.len(), 5);
    assert_eq!(s.indices, vec![0, 1, 2, 3, 2, 4]);
    assert!(s.normals.is_empty(), "normales sin una por vertice");
    assert!(s.uvs.is_empty());
}

#[test]
fn obj_y_arriba_se_convierte_a_z_arriba() {
    let txt = "v 1 2 3\nv 0 0 0\nv 1 0 0\nf 1 2 3\n";
    let opts = ObjOptions { y_up: true, write_normals: false, write_uvs: false };
    let s = from_str(txt, opts).unwrap();
    let p = s.positions[0];
    assert_eq!((f64::from_bits(p.x), f64::from_bits(p.y), f64::from_bits(p.z)), (1.0, -3.0, 2.0));
}

#[test]
fn obj_sin_vertices_es_malla_invalida() {
    match from_str("# nada\n", ObjOptions::default()) {
        Err(InteropError::InvalidMesh(DefectoDeSopa::SinVertices)) => {}
        otro => panic!("se esperaba SinVertices: {otro:?}"),
    }
}

#[test]
fn obj_vertice_sin_posicion_no_tiene_lectura() {
    assert!(leer("v 0 0 0\nv 1 0 0\nv 0 1 0\nf /1 2 3\n", ObjOptions::default()).is_none());
    // un error anterior en la misma cara gana
    assert!(matches!(
        leer("v 0 0 0\nv 1 0 0\nv 0 1 0\nf 9 /1 3\n", ObjOptions::default()),
        Some(Err(InteropError::Malformed { line: 4, .. }))
    ));
}

#[test]
fn obj_fichas_reales_en_orden_de_lectura() {
    let txt = "v 1 2 3 4\nvt 5 6 7\nf 1 2 3\nvn 8\n# v 9 9 9\n";
    assert_eq!(fichas_reales(txt), vec!["1", "2", "3", "5", "6", "8"]);
}

#[test]
fn el_texto_obj_lleva_cabecera_nombre_vertices_y_caras_desde_uno() {
    let v = vec!["0.000000000 0.000000000 0.000000000".to_string(), "1.000000000 0.000000000 0.000000000".to_string(), "0.000000000 1.000000000 0.000000000".to_string()];
    let vn = vec!["0 0 1".to_string(); 3];
    let opts = forge::interop::ObjOptions { y_up: false, write_normals: true, write_uvs: true };
    let t = forge::obj::componer_obj(&"tri".to_string(), opts, &v, &vec![], &vn, &vec![0, 1, 2]);
    assert_eq!(
        t,
        "# generado por FORGE\n# unidades: milimetros · ejes: Z arriba\no tri\n\
         v 0.000000000 0.000000000 0.000000000\nv 1.000000000 0.000000000 0.000000000\n\
         v 0.000000000 1.000000000 0.000000000\nvn 0 0 1\nvn 0 0 1\nvn 0 0 1\nf 1//1 2//2 3//3\n"
    );
    let sin = forge::interop::ObjOptions { y_up: true, write_normals: false, write_uvs: false };
    let t = forge::obj::componer_obj(&String::new(), sin, &v, &vec![], &vn, &vec![2, 1, 0]);
    assert!(t.starts_with("# generado por FORGE\n# unidades: milimetros · ejes: Y arriba\nv "));
    assert!(t.ends_with("f 3 2 1\n"));
    assert!(!t.contains("vn"));
}
