use forge::kernel::KernelError;
use forge::rejilla::{frontera_de_rejilla, rejilla_admisible};

#[test]
fn una_celda_llena_da_las_seis_caras_de_una_caja() {
    let f = frontera_de_rejilla(1, 1, 1, &vec![Some(0)]).unwrap();
    assert_eq!(f.caras.len(), 6);
    assert_eq!(f.nodos.len(), 8);
    let lados: Vec<usize> = f.caras.iter().map(|c| c.lado).collect();
    assert_eq!(lados, vec![0, 1, 2, 3, 4, 5]);
    // el primer bucle es el de abajo, con los nodos en el orden de una caja
    assert_eq!(f.caras[0].bucle, vec![0, 1, 2, 3]);
    assert_eq!(f.nodos[..4], [(0, 0, 0), (0, 1, 0), (1, 1, 0), (1, 0, 0)]);
    // la cara de arriba estrena sus cuatro nodos
    assert_eq!(f.caras[1].bucle, vec![4, 5, 6, 7]);
    assert_eq!(f.nodos[4..], [(0, 0, 1), (1, 0, 1), (1, 1, 1), (0, 1, 1)]);
    for c in &f.caras {
        assert_eq!(c.pieza, 0);
        assert_eq!(c.celda, (0, 0, 0));
        assert_eq!(c.bucle.len(), 4);
    }
}

#[test]
fn dos_celdas_vecinas_no_emiten_la_cara_de_contacto() {
    // 2 x 1 x 1: dos piezas pegadas por x
    let f = frontera_de_rejilla(2, 1, 1, &vec![Some(0), Some(1)]).unwrap();
    assert_eq!(f.caras.len(), 10, "12 lados menos los dos de contacto");
    assert_eq!(f.nodos.len(), 12, "los nodos de la pared comun se comparten");
    assert!(!f.caras.iter().any(|c| c.celda == (0, 0, 0) && c.lado == 4));
    assert!(!f.caras.iter().any(|c| c.celda == (1, 0, 0) && c.lado == 5));
    assert_eq!(f.caras.iter().filter(|c| c.pieza == 1).count(), 5);
}

#[test]
fn una_celda_vacia_no_tiene_frontera_y_abre_un_hueco_en_la_vecina() {
    let f = frontera_de_rejilla(2, 1, 1, &vec![Some(0), None]).unwrap();
    assert_eq!(f.caras.len(), 6);
    assert!(f.caras.iter().all(|c| c.celda == (0, 0, 0)));
    match frontera_de_rejilla(2, 1, 1, &vec![None, None]) {
        Err(KernelError::Degenerate { hint }) => assert_eq!(hint, "el resultado del booleano es vacio"),
        otro => panic!("se esperaba una frontera vacia, salio {:?}", otro.map(|f| f.caras.len())),
    }
}

#[test]
fn el_tope_de_la_rejilla_se_respeta_y_se_explica() {
    assert!(rejilla_admisible(100, 100, 10).is_ok());
    assert!(rejilla_admisible(0, usize::MAX, usize::MAX).is_ok());
    match rejilla_admisible(100, 100, 11) {
        Err(KernelError::Degenerate { hint }) => assert_eq!(hint, "rejilla 100x100x11 demasiado grande"),
        otro => panic!("se esperaba el tope, salio {otro:?}"),
    }
    assert!(rejilla_admisible(usize::MAX, usize::MAX, 1).is_err());
}
