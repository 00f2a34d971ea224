use forge::activos::AssetType;
use forge::consulta::{a_i64_saturado, construir, huecos, normalizar, patron_like, AssetQuery, ValorSql};

/// Control del desbordamiento: sin saturación, `u64::MAX` da `-1` y toda
/// consulta abierta por arriba devuelve vacío.
#[test]
fn saturar_en_vez_de_envolver() {
    assert_eq!(a_i64_saturado(0), 0);
    assert_eq!(a_i64_saturado(1_000), 1_000);
    assert_eq!(a_i64_saturado(u64::MAX), i64::MAX);
    assert_eq!(a_i64_saturado(i64::MAX as u64), i64::MAX);
    assert_eq!(a_i64_saturado(i64::MAX as u64 + 1), i64::MAX);
    // el bug que esto evita, hecho explicito
    assert_eq!(u64::MAX as i64, -1, "asi envolveria un `as` a secas");
    assert!(
        a_i64_saturado(u64::MAX) > a_i64_saturado(0),
        "un rango abierto debe seguir siendo un rango"
    );
}

#[test]
fn normalizar_quita_acentos_y_mayusculas() {
    assert_eq!(normalizar("Válvula Ñ Çedilla ÀÊÎÕÜ"), "valvula n cedilla aeiou");
    assert_eq!(normalizar("ya-normal_123"), "ya-normal_123");
}

fn textos(v: &[&str]) -> Vec<String> {
    v.iter().map(|s| s.to_string()).collect()
}

#[test]
fn el_sql_solo_lleva_los_filtros_pedidos() {
    let (sql, par) = construir(&AssetQuery::default());
    assert!(!sql.contains("LIKE"), "{sql}");
    assert!(!sql.contains("etiquetas"), "{sql}");
    assert!(!sql.contains("BETWEEN"), "{sql}");
    assert!(par.is_empty());

    let q = AssetQuery::new()
        .with_text("x")
        .with_all_tags(textos(&["a", "b"]))
        .size_between(1, 2);
    let (sql, par) = construir(&q);
    assert_eq!(sql.matches("LIKE").count(), 2, "nombre y notas: {sql}");
    assert_eq!(sql.matches("BETWEEN").count(), 1, "{sql}");
    assert!(sql.contains("COUNT(*)"), "el Y de etiquetas: {sql}");
    // 2 del texto + 2 etiquetas + 1 cuenta + 2 del rango de tamaño
    assert_eq!(par.len(), 7, "{sql}");
}

fn entero(v: &ValorSql) -> i64 {
    match v {
        ValorSql::Entero(n) => *n,
        ValorSql::Texto(t) => panic!("se esperaba un entero, llego {t:?}"),
    }
}

fn texto(v: &ValorSql) -> String {
    match v {
        ValorSql::Texto(t) => t.clone(),
        ValorSql::Entero(n) => panic!("se esperaba un texto, llego {n}"),
    }
}

#[test]
fn la_consulta_vacia_es_el_listado_entero() {
    let (sql, par) = construir(&AssetQuery::new());
    assert_eq!(sql, "SELECT a.id FROM activos a WHERE 1=1 ORDER BY a.id");
    assert!(par.is_empty());
}

#[test]
fn el_texto_se_recorta_normaliza_y_escapa() {
    let q = AssetQuery::new().with_text("  Válvula 50%_\\ ");
    let (sql, par) = construir(&q);
    assert!(sql.contains("LIKE ? ESCAPE"), "{sql}");
    assert_eq!(par.len(), 2);
    assert_eq!(texto(&par[0]), "%valvula 50\\%\\_\\\\%");
    assert_eq!(texto(&par[1]), texto(&par[0]));

    // solo espacios: no hay filtro de texto
    let (sql, par) = construir(&AssetQuery::new().with_text("   "));
    assert!(!sql.contains("LIKE"), "{sql}");
    assert!(par.is_empty());
}

#[test]
fn las_etiquetas_repetidas_cuentan_una_vez_y_salen_ordenadas() {
    let q = AssetQuery::new().with_all_tags(textos(&["Zeta", "arte", "ARTE", "árbol"]));
    let (sql, par) = construir(&q);
    assert!(sql.contains("IN (?,?,?)) = ?"), "{sql}");
    let ts: Vec<String> = par[..3].iter().map(texto).collect();
    assert_eq!(ts, vec!["arbol", "arte", "zeta"]);
    assert_eq!(entero(&par[3]), 3);

    let q = AssetQuery::new().with_any_tags(textos(&["b", "a", "b"]));
    let (sql, par) = construir(&q);
    assert!(sql.contains("EXISTS (SELECT 1 FROM etiquetas e WHERE e.id = a.id AND e.etiqueta IN (?,?))"), "{sql}");
    let ts: Vec<String> = par.iter().map(texto).collect();
    assert_eq!(ts, vec!["a", "b"]);
}

#[test]
fn tipos_fechas_tamano_y_tope_en_su_orden() {
    let q = AssetQuery::new()
        .with_types(vec![AssetType::Textura, AssetType::Nota])
        .imported_between(10, 20)
        .modified_between(-5, 5)
        .size_between(0, u64::MAX)
        .with_limit(7);
    let (sql, par) = construir(&q);
    assert_eq!(
        sql,
        "SELECT a.id FROM activos a WHERE 1=1 AND a.tipo IN (?,?) \
         AND a.importado BETWEEN ? AND ? AND a.modificado BETWEEN ? AND ? \
         AND a.tam BETWEEN ? AND ? ORDER BY a.id LIMIT ?"
    );
    let ns: Vec<i64> = par.iter().map(entero).collect();
    assert_eq!(ns, vec![1, 5, 10, 20, -5, 5, 0, i64::MAX, 7]);
}

#[test]
fn patron_y_huecos_exactos() {
    assert_eq!(patron_like("a%b"), "%a\\%b%");
    assert_eq!(patron_like(""), "%%");
    assert_eq!(huecos(0), "");
    assert_eq!(huecos(1), "?");
    assert_eq!(huecos(4), "?,?,?,?");
}

#[test]
fn los_blancos_son_los_de_unicode() {
    for c in (0u32..=0x10FFFF).filter_map(char::from_u32) {
        assert_eq!(forge::texto::es_blanco(c), c.is_whitespace(), "{:?}", c);
    }
}
