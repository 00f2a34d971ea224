use forge::hash::{fnv, marca};

#[test]
fn fnv_de_nada_es_la_base() {
    assert_eq!(fnv(&[]), 0xcbf2_9ce4_8422_2325);
}

#[test]
fn fnv_mezcla_los_bytes_little_endian() {
    // FNV-1a de ocho ceros, calculado byte a byte
    let mut h: u64 = 0xcbf2_9ce4_8422_2325;
    for _ in 0..8 {
        h = h.wrapping_mul(0x100_0000_01b3);
    }
    assert_eq!(fnv(&[0]), h);
    assert_ne!(fnv(&[1, 2]), fnv(&[2, 1]), "el orden importa");
}

#[test]
fn la_marca_depende_de_etiqueta_e_indice() {
    assert_eq!(marca("lateral", 3), marca("lateral", 3));
    assert_ne!(marca("lateral", 3), marca("lateral", 4));
    assert_ne!(marca("lateral", 3), marca("tapa", 3));
    let mut h: u64 = 0xcbf2_9ce4_8422_2325;
    for b in "tapa".as_bytes() {
        h ^= *b as u64;
        h = h.wrapping_mul(0x100_0000_01b3);
    }
    assert_eq!(marca("tapa", 7), fnv(&[h, 7]));
}
