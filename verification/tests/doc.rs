use forge::doc::{DocEvent, Document, SubId};
use forge::ids::{Binding, EntityId, VersionId};

#[test]
fn los_ids_deterministas_son_estables() {
    assert_eq!(EntityId::from_u128(7), EntityId::from_u128(7));
    assert!(EntityId::from_u128(7) < EntityId::from_u128(8));
}

#[test]
fn binding_roto_no_tiene_valor() {
    let b: Binding<u32> = Binding::Broken;
    assert!(b.is_broken() && b.value().is_none());
    assert_eq!(Binding::Bound(3u32).value(), Some(3));
    assert_eq!(
        Binding::Rebound { value: 4u32, confidence_bits: 0.8f32.to_bits() }.value(),
        Some(4)
    );
}

#[test]
fn editar_despues_de_deshacer_descarta_el_rehacer() {
    let mut d = Document::new(0u32);
    let v1 = d.commit(1, "uno".into());
    let v2 = d.commit(2, "dos".into());
    assert_eq!((v1, v2), (VersionId(1), VersionId(2)));
    assert_eq!(d.undo(), Some(VersionId(1)));
    assert_eq!(*d.snapshot(), 1);
    assert!(d.can_redo());
    let v3 = d.commit(3, "tres".into());
    assert_eq!(v3, VersionId(3));
    assert!(!d.can_redo(), "la rama vieja se descarta");
    let h: Vec<String> = d.history().into_iter().map(|(_, l)| l).collect();
    assert_eq!(h, vec!["documento nuevo", "uno", "tres"]);
}

#[test]
fn deshacer_y_rehacer_son_inversos() {
    let mut d = Document::new(10u32);
    d.commit(11, "a".into());
    d.commit(12, "b".into());
    assert_eq!(d.undo(), Some(VersionId(1)));
    assert_eq!(d.undo(), Some(VersionId(0)));
    assert_eq!(d.undo(), None, "no hay nada antes del estado inicial");
    assert_eq!(*d.snapshot(), 10);
    assert_eq!(d.redo(), Some(VersionId(1)));
    assert_eq!(d.redo(), Some(VersionId(2)));
    assert_eq!(d.redo(), None);
    assert_eq!(*d.snapshot(), 12);
    assert!(matches!(d.evento(), Some(DocEvent::Redone { to: VersionId(2), .. })));
}

#[test]
fn la_poda_del_historial_conserva_el_estado_actual() {
    let mut d = Document::new(0u32);
    d.set_history_limit(3);
    for i in 1..=10u32 {
        d.commit(i, format!("paso {i}"));
    }
    assert_eq!(*d.snapshot(), 10);
    assert_eq!(d.version(), VersionId(10));
    assert_eq!(d.history().len(), 3);
    assert_eq!(d.history()[0].0, VersionId(8));
    assert_eq!(d.undo(), Some(VersionId(9)));
    assert_eq!(d.undo(), Some(VersionId(8)));
    assert_eq!(d.undo(), None);
}

#[test]
fn las_suscripciones_reciben_ids_nuevos_y_se_dan_de_baja() {
    let mut d = Document::new(0u32);
    let a = d.subscribe();
    let b = d.subscribe();
    let c = d.subscribe();
    assert_eq!((a, b, c), (SubId(0), SubId(1), SubId(2)));
    assert_eq!(d.suscriptores(), &vec![a, b, c]);
    d.unsubscribe(b);
    assert_eq!(d.suscriptores(), &vec![a, c]);
    d.unsubscribe(b);
    assert_eq!(d.suscriptores(), &vec![a, c]);
    let e = d.subscribe();
    assert_eq!(e, SubId(3));
    assert_eq!(d.suscriptores(), &vec![a, c, e]);
    d.commit(1, "uno".to_string());
    assert_eq!(d.suscriptores(), &vec![a, c, e]);
}
