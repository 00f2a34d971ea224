use forge::hash::{fnv, marca};
use forge::ids::{FeatureId, StableId, TopoClass};
use forge::kernel::{KernelError, TopoProvenance};
use forge::poliedro::{aristas_de, caras_de_bisel, caras_de_caja, caras_de_extrusion, invertir, caras_de_revolucion, soldar_poliedro, validar_bisel, Cara};

fn cara(mark: u64, bucle: &[u32]) -> Cara {
    Cara {
        id: StableId { origin: FeatureId(1), class: TopoClass::Face, mark },
        prov: TopoProvenance::Primitive { index: mark as u32 },
        bucle: bucle.to_vec(),
    }
}

fn cubo() -> Vec<Cara> {
    let bucles: [[u32; 4]; 6] = [[0, 3, 2, 1], [4, 5, 6, 7], [0, 1, 5, 4], [2, 3, 7, 6], [1, 2, 6, 5], [0, 4, 7, 3]];
    bucles.iter().enumerate().map(|(i, b)| cara(10 + i as u64, b)).collect()
}

#[test]
fn un_cubo_tiene_doce_aristas_ordenadas_con_dos_caras_cada_una() {
    let owner = FeatureId(7);
    let es = aristas_de(&cubo(), owner).unwrap();
    let pares: Vec<(u32, u32)> = es.iter().map(|e| (e.a, e.b)).collect();
    assert_eq!(
        pares,
        vec![(0, 1), (0, 3), (0, 4), (1, 2), (1, 5), (2, 3), (2, 6), (3, 7), (4, 5), (4, 7), (5, 6), (6, 7)]
    );
    assert!(es.iter().all(|e| e.caras.len() == 2));
    // la arista 0-1 la recorren la cara de abajo (0) y la de delante (2), en ese orden
    assert_eq!(es[0].caras, vec![0, 2]);
    assert_eq!(es[0].id, StableId { origin: owner, class: TopoClass::Edge, mark: fnv(&[10, 12, 0]) });
    assert_eq!(es[0].prov, TopoProvenance::Inherited { from: cubo()[0].id });
}

#[test]
fn las_aristas_entre_las_mismas_caras_se_numeran_en_orden() {
    // dos caras con la misma marca, pegadas por dos aristas
    let cs = vec![cara(5, &[0, 1, 2]), cara(5, &[2, 1, 0])];
    let es = aristas_de(&cs, FeatureId(1)).unwrap();
    assert_eq!(es.len(), 3);
    let marcas: Vec<u64> = es.iter().map(|e| e.id.mark).collect();
    assert_eq!(marcas, vec![fnv(&[5, 5, 0]), fnv(&[5, 5, 1]), fnv(&[5, 5, 2])]);
}

#[test]
fn una_arista_de_borde_tiene_una_sola_cara() {
    let es = aristas_de(&vec![cara(3, &[0, 1, 2])], FeatureId(1)).unwrap();
    assert_eq!(es.len(), 3);
    assert!(es.iter().all(|e| e.caras == vec![0]));
    assert_eq!(es[0].id.mark, fnv(&[3, 3, 0]));
    assert_eq!(es[1].id.mark, fnv(&[3, 3, 1]));
}

#[test]
fn una_arista_de_tres_caras_no_es_de_un_solido() {
    let cs = vec![cara(1, &[0, 1, 2]), cara(2, &[1, 0, 3]), cara(3, &[0, 1, 4]), cara(4, &[2, 5, 6]), cara(5, &[5, 2, 7]), cara(6, &[2, 5, 8])];
    match aristas_de(&cs, FeatureId(1)) {
        Err(KernelError::Degenerate { hint }) => {
            assert_eq!(hint, "arista 0-1 compartida por 3 caras (no manifold)")
        }
        otro => panic!("se esperaba el error de la primera arista no manifold, salio {otro:?}"),
    }
}

fn piramide() -> Vec<Cara> {
    vec![
        cara(1, &[0, 3, 2, 1]),
        cara(2, &[0, 1, 4]),
        cara(3, &[1, 2, 4]),
        cara(4, &[2, 3, 4]),
        cara(5, &[3, 0, 4]),
    ]
}

#[test]
fn biselar_una_arista_del_cubo_la_resuelve_por_su_identidad() {
    let owner = FeatureId(3);
    let es = aristas_de(&cubo(), owner).unwrap();
    let b = validar_bisel(&cubo(), owner, &vec![es[4].id, es[0].id]).unwrap_err();
    // 0-1 y 1-5 comparten el vertice 1
    assert!(matches!(b, KernelError::Unsupported(m) if m.contains("comparten vertice")));
    let b = validar_bisel(&cubo(), owner, &vec![es[0].id, es[11].id]).unwrap();
    assert_eq!(b.elegidas, vec![0, 11]);
    assert_eq!(b.aristas.len(), 12);
}

#[test]
fn biselar_rechaza_lo_que_no_sabe_hacer_con_el_error_que_toca() {
    let owner = FeatureId(3);
    match validar_bisel(&cubo(), owner, &vec![]) {
        Err(KernelError::InvalidInput { detail }) => assert_eq!(detail, "sin aristas seleccionadas"),
        otro => panic!("{:?}", otro.map(|b| b.elegidas)),
    }
    let fantasma = StableId { origin: owner, class: TopoClass::Edge, mark: 12345 };
    let es = aristas_de(&cubo(), owner).unwrap();
    match validar_bisel(&cubo(), owner, &vec![es[0].id, fantasma]) {
        Err(KernelError::UnresolvedReference(s)) => assert_eq!(s, fantasma),
        otro => panic!("{:?}", otro.map(|b| b.elegidas)),
    }
    // una arista de borde libre
    let suelta = vec![cara(3, &[0, 1, 2])];
    let es = aristas_de(&suelta, owner).unwrap();
    match validar_bisel(&suelta, owner, &vec![es[0].id]) {
        Err(KernelError::Degenerate { hint }) => assert_eq!(hint, "no se puede biselar una arista de borde libre"),
        otro => panic!("{:?}", otro.map(|b| b.elegidas)),
    }
    // la cuspide de una piramide tiene cuatro caras
    let es = aristas_de(&piramide(), owner).unwrap();
    let hacia_la_cuspide = es.iter().find(|e| (e.a, e.b) == (0, 4)).unwrap().id;
    match validar_bisel(&piramide(), owner, &vec![hacia_la_cuspide]) {
        Err(KernelError::Unsupported(m)) => assert_eq!(m, "este kernel solo bisela esquinas de tres caras"),
        otro => panic!("{:?}", otro.map(|b| b.elegidas)),
    }
}

#[test]
fn extruir_un_triangulo_da_dos_tapas_y_tres_laterales() {
    let owner = FeatureId(4);
    let cs = caras_de_extrusion(3, owner);
    assert_eq!(cs.len(), 5);
    assert_eq!(cs[0].bucle, vec![2, 1, 0]);
    assert_eq!(cs[0].prov, TopoProvenance::Cap { start: true });
    assert_eq!(cs[0].id, StableId { origin: owner, class: TopoClass::Face, mark: marca("cap_start", 0) });
    assert_eq!(cs[1].bucle, vec![3, 4, 5]);
    assert_eq!(cs[1].prov, TopoProvenance::Cap { start: false });
    assert_eq!(cs[2].bucle, vec![0, 1, 4, 3]);
    assert_eq!(cs[3].bucle, vec![1, 2, 5, 4]);
    assert_eq!(cs[4].bucle, vec![2, 0, 3, 5]);
    assert_eq!(cs[4].prov, TopoProvenance::SweptFromProfileEdge { edge_index: 2 });
    assert_eq!(cs[4].id.mark, marca("side", 2));
    // el prisma es un sólido cerrado: nueve aristas con dos caras cada una
    let es = aristas_de(&cs, owner).unwrap();
    assert_eq!(es.len(), 9);
    assert!(es.iter().all(|e| e.caras.len() == 2));
}

#[test]
fn una_revolucion_completa_cierra_el_anillo_y_no_tiene_tapas() {
    let owner = FeatureId(9);
    let cs = caras_de_revolucion(2, 3, true, owner);
    assert_eq!(cs.len(), 6);
    assert_eq!(cs[0].bucle, vec![0, 1, 3, 2]);
    assert_eq!(cs[1].bucle, vec![2, 3, 5, 4]);
    // el último paso vuelve al anillo de partida
    assert_eq!(cs[2].bucle, vec![4, 5, 1, 0]);
    assert_eq!(cs[3].bucle, vec![1, 0, 2, 3]);
    // las facetas de una arista del perfil comparten identidad
    assert!(cs[0..3].iter().all(|c| c.id.mark == marca("rev_side", 0)));
    assert!(cs[3..6].iter().all(|c| c.id.mark == marca("rev_side", 1)));
    assert!(cs.iter().all(|c| !matches!(c.prov, TopoProvenance::Cap { .. })));
}

#[test]
fn una_revolucion_parcial_anade_las_dos_tapas() {
    let owner = FeatureId(9);
    let cs = caras_de_revolucion(3, 2, false, owner);
    assert_eq!(cs.len(), 3 * 2 + 2);
    assert_eq!(cs[1].bucle, vec![3, 4, 7, 6]);
    assert_eq!(cs[6].bucle, vec![2, 1, 0]);
    assert_eq!(cs[6].prov, TopoProvenance::Cap { start: true });
    assert_eq!(cs[7].bucle, vec![6, 7, 8]);
    assert_eq!(cs[7].prov, TopoProvenance::Cap { start: false });
    assert_eq!(cs[7].id.mark, marca("cap_end", 0));
}

#[test]
fn soldar_funde_los_vertices_repetidos_y_limpia_los_bucles() {
    // el vértice 3 está donde el 0: la cara del medio colapsa a un triángulo
    let claves: Vec<(i64, i64, i64)> = vec![(0, 0, 0), (1, 0, 0), (1, 1, 0), (0, 0, 0), (0, 1, 0)];
    let cs = vec![cara(1, &[0, 1, 2]), cara(2, &[3, 0, 2, 4]), cara(3, &[0, 2, 4, 3])];
    let s = soldar_poliedro(&cs, &claves);
    assert_eq!(s.vertices, vec![0, 1, 2, 4]);
    assert_eq!(s.caras.len(), 3);
    assert_eq!(s.caras[0].bucle, vec![0, 1, 2]);
    assert_eq!(s.caras[1].bucle, vec![0, 2, 3]);
    // el último vértice cerraba el bucle sobre el primero
    assert_eq!(s.caras[2].bucle, vec![0, 2, 3]);
    assert_eq!(s.caras[1].id, cs[1].id);
    assert_eq!(s.caras[2].prov, cs[2].prov);
}

#[test]
fn la_caja_tiene_seis_caras_primitivas_y_es_cerrada() {
    let owner = FeatureId(3);
    let cs = caras_de_caja(owner);
    assert_eq!(cs.len(), 6);
    for (i, c) in cs.iter().enumerate() {
        assert_eq!(c.id, StableId { origin: owner, class: TopoClass::Face, mark: marca("box_face", i as u32) });
        assert_eq!(c.prov, TopoProvenance::Primitive { index: i as u32 });
    }
    assert_eq!(cs[0].bucle, vec![0, 3, 2, 1]);
    assert_eq!(cs[5].bucle, vec![0, 4, 7, 3]);
    let es = aristas_de(&cs, owner).unwrap();
    assert_eq!(es.len(), 12);
    assert!(es.iter().all(|e| e.caras.len() == 2));
}

#[test]
fn invertir_da_la_vuelta_a_cada_bucle_y_nada_mas() {
    let mut cs = vec![cara(1, &[0, 1, 2, 3]), cara(2, &[4, 5, 6])];
    let antes = cs.clone();
    invertir(&mut cs);
    assert_eq!(cs[0].bucle, vec![3, 2, 1, 0]);
    assert_eq!(cs[1].bucle, vec![6, 5, 4]);
    assert_eq!(cs[0].id, antes[0].id);
    assert_eq!(cs[1].prov, antes[1].prov);
    invertir(&mut cs);
    assert_eq!(cs[0].bucle, antes[0].bucle);
}

#[test]
fn el_chaflan_de_una_arista_del_cubo_sustituye_sus_extremos_y_anade_una_cara() {
    let owner = FeatureId(3);
    let nuevo = FeatureId(4);
    let cs = cubo();
    let es = aristas_de(&cs, owner).unwrap();
    let b = validar_bisel(&cs, owner, &vec![es[0].id]).unwrap();
    let r = caras_de_bisel(&cs, &b, &vec![true, false], &vec![false], 8, nuevo, false);
    assert_eq!(r.len(), 7);
    // la arista 0-1 separa la cara 0 (copias 8, 9) y la 2 (copias 10, 11)
    assert_eq!(r[0].bucle, vec![8, 3, 2, 9]);
    assert_eq!(r[2].bucle, vec![10, 11, 5, 4]);
    // en la tercera cara de cada esquina entran las dos copias, en el orden pedido
    assert_eq!(r[5].bucle, vec![8, 10, 4, 7, 3]);
    assert_eq!(r[4].bucle, vec![11, 9, 2, 6, 5]);
    assert_eq!(r[1].bucle, cs[1].bucle);
    for (i, c) in r[..6].iter().enumerate() {
        assert_eq!(c.prov, TopoProvenance::Inherited { from: cs[i].id });
        assert_eq!(c.id, StableId { origin: nuevo, class: TopoClass::Face, mark: fnv(&[cs[i].id.mark, 0xA1]) });
    }
    assert_eq!(r[6].bucle, vec![8, 9, 11, 10]);
    assert_eq!(r[6].prov, TopoProvenance::Blend { of: es[0].id });
    assert_eq!(r[6].id, StableId { origin: nuevo, class: TopoClass::Face, mark: marca("chamfer", 0) });
    // un redondeo lleva otra marca, y el cuadrilátero puede ir del revés
    let f = caras_de_bisel(&cs, &b, &vec![true, true], &vec![true], 8, nuevo, true);
    assert_eq!(f[6].bucle, vec![10, 11, 9, 8]);
    assert_eq!(f[6].id.mark, marca("fillet", 0));
}

#[test]
fn soldar_dos_veces_es_soldar_una() {
    let claves: Vec<(i64, i64, i64)> = vec![(0, 0, 0), (1, 0, 0), (1, 1, 0), (0, 0, 0), (0, 1, 0), (1, 0, 0)];
    let cs = vec![cara(1, &[0, 1, 2]), cara(2, &[3, 5, 2, 4]), cara(3, &[0, 2, 4, 3])];
    let una = soldar_poliedro(&cs, &claves);
    let claves2: Vec<(i64, i64, i64)> = una.vertices.iter().map(|&i| claves[i]).collect();
    let dos = soldar_poliedro(&una.caras, &claves2);
    assert_eq!(dos.vertices, (0..claves2.len()).collect::<Vec<_>>());
    for (a, b) in una.caras.iter().zip(dos.caras.iter()) {
        assert_eq!(a.bucle, b.bucle);
        assert_eq!(a.id, b.id);
    }
}
