use forge::ids::{FeatureId, StableId, TopoClass};
use forge::kernel::{
    Constraint, DefectoDeTeselado, DimId, EdgeKind, PointId, SketchModel, SolveStatus, Tessellation,
    TessellationParams,
};
use forge::vector::{DVec2, DVec3};

fn f() -> FeatureId {
    FeatureId::from_u128(1)
}

#[test]
fn validate_detecta_teselados_mal_formados() {
    let base = Tessellation {
        positions: vec![DVec3::zero(), DVec3::unit_x(), DVec3::unit_y()],
        normals: vec![DVec3::unit_z(); 3],
        indices: vec![0, 1, 2],
        face_of_triangle: vec![StableId { origin: f(), class: TopoClass::Face, mark: 1 }],
        ..Default::default()
    };
    assert!(base.validate().is_ok());

    let mut sin_procedencia = base.clone();
    sin_procedencia.face_of_triangle.clear();
    assert!(sin_procedencia.validate().is_err(), "no detecto procedencia incompleta");

    let mut indices_sueltos = base.clone();
    indices_sueltos.indices = vec![0, 1];
    assert!(indices_sueltos.validate().is_err(), "no detecto indices no multiplo de 3");

    let mut fuera = base.clone();
    fuera.indices = vec![0, 1, 42];
    assert!(
        matches!(fuera.validate(), Err(DefectoDeTeselado::IndiceFuera { indice: 42, vertices: 3 })),
        "no detecto indice fuera de rango"
    );

    let mut normales = base.clone();
    normales.normals.pop();
    assert_eq!(normales.validate(), Err(DefectoDeTeselado::NormalesDescuadradas));
    assert_eq!(base.triangle_count(), 1);
    assert_eq!(base.face_of(0), Some(base.face_of_triangle[0]));
    assert_eq!(base.face_of(1), None);
}

#[test]
fn solo_se_dibujan_las_aristas_vivas_y_las_de_borde() {
    assert!(EdgeKind::Sharp.se_dibuja());
    assert!(EdgeKind::Boundary.se_dibuja());
    assert!(!EdgeKind::Smooth.se_dibuja());
    assert!(!EdgeKind::Seam.se_dibuja());
    assert!(!EdgeKind::Degenerate.se_dibuja());
}

#[test]
fn los_grados_de_libertad_nominales_restan_ecuaciones() {
    let mut s = SketchModel::default();
    let a = s.add_point(DVec2::from_bits(0, 0));
    let b = s.add_point(DVec2::from_bits(1.0f64.to_bits(), 0));
    assert_eq!((a, b), (PointId(0), PointId(1)));
    let d = s.add_dimension(10.0f64.to_bits());
    assert_eq!(d, DimId(0));
    assert_eq!(s.nominal_dof(), 4);
    s.constraints.push(Constraint::Fixed(a));
    s.constraints.push(Constraint::Horizontal(a, b));
    s.constraints.push(Constraint::Distance { a, b, dim: d });
    assert_eq!(s.nominal_dof(), 0);
    assert_eq!(Constraint::Symmetric { a, b, axis: (a, b) }.equation_count(), 2);
    assert_eq!(s.point(b), Some(DVec2::from_bits(1.0f64.to_bits(), 0)));
    assert_eq!(s.point(PointId(9)), None);
    assert!(s.set_dimension(d, 12.0f64.to_bits()));
    assert_eq!(s.dimension(d), Some(12.0f64.to_bits()));
    assert!(!s.set_dimension(DimId(3), 0));
    assert!(SolveStatus::Solved.usable());
    assert!(SolveStatus::UnderConstrained { dof: 1 }.usable());
    assert!(!SolveStatus::OverConstrained { conflicting: vec![0] }.usable());
}

#[test]
fn la_clave_de_teselado_rota_la_cuerda() {
    let p = TessellationParams { chord_mm_bits: 1, angular_deg_bits: 3 };
    assert_eq!(p.cache_key(), (1u64 << 17) ^ 3);
    let q = TessellationParams { chord_mm_bits: 0.05f64.to_bits(), angular_deg_bits: 15.0f64.to_bits() };
    assert_eq!(q.cache_key(), 0.05f64.to_bits().rotate_left(17) ^ 15.0f64.to_bits());
}
