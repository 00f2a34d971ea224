use forge::activos::{AssetError, AssetId, AssetMeta, AssetType, Clock, Durability, FixedClock};

#[test]
fn los_codigos_de_tipo_van_y_vuelven() {
    for (i, t) in AssetType::todos().iter().enumerate() {
        assert_eq!(t.code() as usize, i);
        assert_eq!(AssetType::from_code(t.code()), Some(*t));
    }
    assert_eq!(AssetType::from_code(6), None);
    assert_eq!(AssetType::from_code(255), None);
    assert_eq!(AssetType::Textura.as_str(), "textura");
    assert_eq!(AssetType::Nota.as_str(), "nota");
}

#[test]
fn las_etiquetas_son_un_conjunto_ordenado() {
    let m = AssetMeta::new("pieza", AssetType::Modelo)
        .with_tags(vec!["b".to_string(), "a".to_string(), "b".to_string()])
        .with_notes("notas");
    assert_eq!(m.tags, vec!["a", "b"]);
    assert_eq!(m.name, "pieza");
    assert_eq!(m.notes, "notas");
}

#[test]
fn la_forma_canonica_normaliza_y_quita_vacias() {
    let m = AssetMeta::new("x", AssetType::Nota)
        .with_tags(vec!["Árbol".to_string(), "arbol".to_string(), "".to_string(), "ZETA".to_string()])
        .canonica();
    assert_eq!(m.tags, vec!["arbol", "zeta"]);
}

#[test]
fn el_reloj_fijo_se_gobierna_a_mano() {
    let mut c = FixedClock::new(1_000);
    assert_eq!(c.now_ms(), 1_000);
    assert_eq!(c.advance(500), 1_500);
    assert_eq!(c.now_ms(), 1_500);
    c.set(-3);
    assert_eq!(c.now_ms(), -3);
    assert_eq!(Durability::default(), Durability::PerWrite);
}

#[test]
fn un_id_se_lee_de_su_texto() {
    let texto = "01ARZ3NDEKTSV4RRFFQ69G5FAV";
    let id = AssetId::parse(texto).unwrap();
    assert_eq!(id, AssetId::from_u128(ulid::Ulid::from_string(texto).unwrap().0));
    assert_eq!(ulid::Ulid(id.0).to_string(), texto);
    assert_ne!(id.0, 0);
    assert!(AssetId::parse("no es un ulid").is_err());
    assert!(AssetId::parse("").is_err());
}

#[test]
fn un_id_ilegible_dice_que_texto_era_y_por_que() {
    match AssetId::parse("no es un ulid") {
        Err(AssetError::IndiceCorrupto(m)) => assert_eq!(m, "id \"no es un ulid\": invalid length"),
        otro => panic!("{otro:?}"),
    }
    // 26 caracteres, pero la U no es del alfabeto de Crockford
    match AssetId::parse("01ARZ3NDEKTSV4RRFFQ69G5FAU") {
        Err(AssetError::IndiceCorrupto(m)) => assert_eq!(m, "id \"01ARZ3NDEKTSV4RRFFQ69G5FAU\": invalid character"),
        otro => panic!("{otro:?}"),
    }
}
