use std::collections::HashMap;

use forge::activos::{AssetError, AssetId, AssetMeta, AssetType, Registro};
use forge::aplicacion::{plan, Parametro, Sentencia};
use forge::recorrido::Recorrido;

fn id(n: u128) -> AssetId {
    AssetId::from_u128(n)
}

/// Recorre el grafo `aristas` desde `origen` como lo hace el almacén: cada
/// paso pide los vecinos del pendiente a la "base" (aquí, un mapa).
fn recorrer(origen: u128, aristas: &[(u128, u128)]) -> Vec<u128> {
    let mut vecinos: HashMap<u128, Vec<AssetId>> = HashMap::new();
    for (de, a) in aristas {
        vecinos.entry(*de).or_default().push(id(*a));
    }
    let mut r = Recorrido::new(id(origen));
    let mut pasos = 0;
    while let Some(n) = r.pendiente() {
        let vs = vecinos.get(&n.0).cloned().unwrap_or_default();
        r.visitar(&vs);
        pasos += 1;
        assert!(pasos < 100, "el recorrido no termina");
    }
    r.descubiertos().iter().map(|x| x.0).collect()
}

#[test]
fn dependientes_transitivos_sobre_un_grafo_conocido() {
    // a=1, b=2, c=3, d=4, e=5; la arista x -> y dice "y depende de x"
    // (b->a, c->a, d->b vistos desde a)
    let inversas = [(1, 2), (1, 3), (2, 4)];
    assert_eq!(recorrer(1, &inversas), vec![2, 3, 4]);
    assert_eq!(recorrer(2, &inversas), vec![4]);
    assert_eq!(recorrer(5, &inversas), Vec::<u128>::new());
}

#[test]
fn un_ciclo_almacenado_no_cuelga_el_recorrido() {
    let ciclo = [(1, 2), (2, 3), (3, 1), (3, 4)];
    assert_eq!(recorrer(1, &ciclo), vec![2, 3, 4]);
    assert_eq!(recorrer(3, &ciclo), vec![1, 2, 4]);
}

#[test]
fn el_recorrido_sale_ordenado_por_id_y_sin_repetidos() {
    let g = [(10, 30), (10, 20), (30, 20), (20, 5), (5, 30)];
    assert_eq!(recorrer(10, &g), vec![5, 20, 30]);
}

#[test]
fn alcanzable_se_decide_con_ha_visto() {
    let mut r = Recorrido::new(id(1));
    assert!(r.ha_visto(id(1)));
    assert!(!r.ha_visto(id(2)));
    r.visitar(&vec![id(2), id(2), id(1)]);
    assert!(r.ha_visto(id(2)));
    assert_eq!(r.pendiente().map(|x| x.0), Some(2));
    r.visitar(&vec![]);
    assert_eq!(r.pendiente(), None);
}

fn importado(tam: u64, version: u64) -> Registro {
    Registro::Importado {
        id: "01ABCDEFGHIJKLMNOPQRSTUVWX".into(),
        version,
        hash: "0".repeat(64),
        tam,
        origen: "/virtual/hostil".into(),
        meta: AssetMeta::new("Válvula", AssetType::Modelo).with_tags(vec!["metal".to_string(), "b".to_string()]),
        ts: 7,
    }
}

fn texto(p: &Parametro) -> &str {
    match p {
        Parametro::Texto(s) => s,
        otro => panic!("no es texto: {otro:?}"),
    }
}

fn entero(p: &Parametro) -> i64 {
    match p {
        Parametro::Entero(n) => *n,
        otro => panic!("no es entero: {otro:?}"),
    }
}

#[test]
fn el_indice_rechaza_un_registro_con_un_tamano_que_no_cabe() {
    match plan(&importado(u64::MAX, 1)) {
        Err(AssetError::RegistroIlegible(m)) => {
            assert!(m.contains("tam"), "{m}");
            assert!(m.contains("18446744073709551615"), "{m}");
        }
        otro => panic!("se acepto un tamano imposible: {otro:?}"),
    }
    match plan(&importado(10, 1 << 63)) {
        Err(AssetError::RegistroIlegible(m)) => assert!(m.starts_with("version = 9223372036854775808 "), "{m}"),
        otro => panic!("se acepto una version imposible: {otro:?}"),
    }
    // el límite exacto sí cabe
    assert!(plan(&importado(i64::MAX as u64, 1)).is_ok());
}

#[test]
fn un_importado_da_el_alta_la_version_y_las_etiquetas() {
    let p = plan(&importado(4096, 3)).unwrap();
    let s: Vec<Sentencia> = p.iter().map(|o| o.sentencia).collect();
    assert_eq!(
        s,
        vec![
            Sentencia::AltaActivo,
            Sentencia::AltaVersion,
            Sentencia::QuitarEtiquetas,
            Sentencia::AnadirEtiqueta,
            Sentencia::AnadirEtiqueta
        ]
    );
    let alta = &p[0].params;
    assert_eq!(alta.len(), 11);
    assert_eq!(texto(&alta[1]), "Válvula");
    assert_eq!(texto(&alta[2]), "valvula", "el nombre normalizado");
    assert_eq!(entero(&alta[3]), 0, "codigo de Modelo");
    assert_eq!(entero(&alta[6]), 4096);
    assert_eq!(entero(&alta[7]), 7);
    assert_eq!(entero(&alta[9]), 3);
    // las etiquetas, como conjunto ordenado
    assert_eq!(texto(&p[3].params[1]), "b");
    assert_eq!(texto(&p[4].params[1]), "metal");
    assert!(p.iter().all(|o| !o.solo_si_hubo_filas));
    assert!(Sentencia::AltaActivo.sql().contains("ON CONFLICT(id) DO UPDATE"));
}

#[test]
fn un_cambio_de_metadatos_solo_toca_etiquetas_si_el_activo_existe() {
    let r = Registro::Meta {
        id: "x".into(),
        meta: AssetMeta::new("Pieza", AssetType::Textura).with_tags(vec!["t".to_string()]),
        ts: 1,
    };
    let p = plan(&r).unwrap();
    assert_eq!(p.len(), 3);
    assert_eq!(p[0].sentencia, Sentencia::CambiarMeta);
    assert!(!p[0].solo_si_hubo_filas);
    assert!(p[1].solo_si_hubo_filas && p[2].solo_si_hubo_filas);
    assert_eq!(entero(&p[0].params[3]), 1, "codigo de Textura");
}

#[test]
fn borrar_quita_el_activo_de_todas_las_tablas() {
    let p = plan(&Registro::Borrado { id: "x".into(), ts: 0 }).unwrap();
    let s: Vec<Sentencia> = p.iter().map(|o| o.sentencia).collect();
    assert_eq!(
        s,
        vec![Sentencia::BorrarActivo, Sentencia::BorrarVersiones, Sentencia::QuitarEtiquetas, Sentencia::BorrarDependencias]
    );
}

#[test]
fn la_miniatura_quitada_es_nula() {
    let p = plan(&Registro::Miniatura { id: "x".into(), hash: None, ts: 5 }).unwrap();
    assert!(matches!(p[0].params[1], Parametro::Nulo));
    let p = plan(&Registro::Etiqueta { id: "x".into(), etiqueta: "e".into(), pon: false, ts: 5 }).unwrap();
    assert_eq!(p[0].sentencia, Sentencia::QuitarEtiqueta);
    assert_eq!(p[1].sentencia, Sentencia::Tocar);
    let p = plan(&Registro::Dependencia { de: "a".into(), a: "b".into(), pon: true, ts: 5 }).unwrap();
    assert_eq!(p[0].sentencia, Sentencia::PonerDependencia);
    let p = plan(&Registro::Vigente { id: "x".into(), version: 2, ts: 5 }).unwrap();
    assert_eq!(entero(&p[0].params[1]), 2);
}

#[test]
fn una_escritura_a_medias_del_diario_se_distingue_de_una_linea_en_blanco() {
    let buf = b"{a}\n  \n{b}\r\n{c";
    let (lineas, consumidos) = forge::diario::lineas_completas(buf);
    assert_eq!(lineas, vec![(0, 3), (7, 11)]);
    assert_eq!(consumidos, 12, "la cola sin salto no se consume");
    assert_eq!(buf.len() - consumidos, 2);
    let (vacio, c) = forge::diario::lineas_completas(b"");
    assert!(vacio.is_empty());
    assert_eq!(c, 0);
    let (solo_cola, c) = forge::diario::lineas_completas(b"{\"evento\":\"borrado\"");
    assert!(solo_cola.is_empty());
    assert_eq!(c, 0);
}
