use forge::interop::{y_up_to_z_up, z_up_to_y_up, DefectoDeSopa, InteropError, ObjOptions, TriangleSoup};
use forge::vector::DVec3;

fn v(x: f64, y: f64, z: f64) -> DVec3 {
    DVec3::from_bits(x.to_bits(), y.to_bits(), z.to_bits())
}

fn f(b: u64) -> f64 {
    f64::from_bits(b)
}

fn cross(a: DVec3, b: DVec3) -> (f64, f64, f64) {
    let (ax, ay, az) = (f(a.x), f(a.y), f(a.z));
    let (bx, by, bz) = (f(b.x), f(b.y), f(b.z));
    (ay * bz - az * by, az * bx - ax * bz, ax * by - ay * bx)
}

fn dot(a: (f64, f64, f64), c: DVec3) -> f64 {
    a.0 * f(c.x) + a.1 * f(c.y) + a.2 * f(c.z)
}

/// Respuesta conocida: arriba en FORGE tiene que ser arriba en glTF.
#[test]
fn arriba_sigue_siendo_arriba_al_convertir() {
    assert_eq!(z_up_to_y_up(DVec3::unit_z()), DVec3::unit_y(), "el eje vertical no se preservo");
    assert_eq!(y_up_to_z_up(DVec3::unit_y()), DVec3::unit_z());
    // el eje X no se toca: es el que comparten las dos convenciones
    assert_eq!(z_up_to_y_up(DVec3::unit_x()), DVec3::unit_x());
}

#[test]
fn la_conversion_de_ejes_es_una_ida_y_vuelta_exacta() {
    for p in [
        DVec3::unit_x(),
        DVec3::unit_y(),
        DVec3::unit_z(),
        v(1.0, -2.0, 3.0),
        v(-1e6, 1e-6, 0.0),
    ] {
        assert_eq!(y_up_to_z_up(z_up_to_y_up(p)), p, "no es inversa para {p:?}");
        assert_eq!(z_up_to_y_up(y_up_to_z_up(p)), p);
    }
}

/// La conversión no debe espejar: el producto mixto cambia de signo bajo una
/// reflexión y se conserva bajo una rotación.
#[test]
fn la_conversion_es_una_rotacion_y_no_una_reflexion() {
    let (a, b, c) = (DVec3::unit_x(), DVec3::unit_y(), DVec3::unit_z());
    let antes = dot(cross(a, b), c);
    let despues = dot(cross(z_up_to_y_up(a), z_up_to_y_up(b)), z_up_to_y_up(c));
    assert_eq!(antes, 1.0);
    assert_eq!(despues, 1.0, "la conversion espeja: las caras saldrian invertidas");
}

#[test]
fn validate_detecta_mallas_rotas() {
    let buena = TriangleSoup {
        name: "t".into(),
        positions: vec![DVec3::zero(), DVec3::unit_x(), DVec3::unit_y()],
        normals: vec![DVec3::unit_z(); 3],
        uvs: vec![],
        indices: vec![0, 1, 2],
    };
    assert!(buena.validate().is_ok());

    // control positivo: cada forma de estar rota se detecta
    let mut sin_vertices = buena.clone();
    sin_vertices.positions.clear();
    assert!(sin_vertices.validate().is_err());

    let mut indices_sueltos = buena.clone();
    indices_sueltos.indices = vec![0, 1];
    assert!(indices_sueltos.validate().is_err());

    let mut fuera_de_rango = buena.clone();
    fuera_de_rango.indices = vec![0, 1, 99];
    assert!(fuera_de_rango.validate().is_err());

    let mut normales_mal = buena.clone();
    normales_mal.normals = vec![DVec3::unit_z(); 2];
    assert!(normales_mal.validate().is_err());
}

#[test]
fn validate_dice_que_esta_mal() {
    let buena = TriangleSoup {
        name: "t".into(),
        positions: vec![DVec3::zero(), DVec3::unit_x(), DVec3::unit_y()],
        normals: vec![],
        uvs: vec![],
        indices: vec![0, 1, 2],
    };
    let mut fuera = buena.clone();
    fuera.indices = vec![0, 7, 99];
    match fuera.validate() {
        Err(InteropError::InvalidMesh(DefectoDeSopa::IndiceFuera { indice, vertices })) => {
            assert_eq!((indice, vertices), (7, 3));
        }
        otro => panic!("{otro:?}"),
    }
    let mut uvs = buena.clone();
    uvs.uvs = vec![forge::vector::DVec2::from_bits(0, 0)];
    assert!(matches!(
        uvs.validate(),
        Err(InteropError::InvalidMesh(DefectoDeSopa::UvsDescuadradas))
    ));
    assert_eq!(buena.triangle_count(), 1);
}

#[test]
fn las_conversiones_mueven_y_niegan_componentes() {
    let p = v(1.0, 2.0, 3.0);
    assert_eq!(z_up_to_y_up(p), v(1.0, 3.0, -2.0));
    assert_eq!(y_up_to_z_up(p), v(1.0, -3.0, 2.0));
    let o = ObjOptions::completo();
    assert!(!o.y_up && o.write_normals && o.write_uvs);
}
