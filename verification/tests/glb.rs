use forge::glb::{
    empaquetar_glb, leer_indices, leer_u32, separar_glb, trozo_json, DefectoDeGlb, DefectoDeIndices, CHUNK_BIN,
    CHUNK_JSON, COMPONENT_UINT, COMPONENT_USHORT, GLB_MAGIC, GLB_VERSION,
};

#[test]
fn glb_cumple_la_estructura_del_contenedor() {
    let json = br#"{"asset":{"version":"2.0"}}"#.to_vec();
    let bin = vec![1u8, 2, 3, 4, 5];
    let glb = empaquetar_glb(&json, &bin);
    assert_eq!(leer_u32(&glb, 0), GLB_MAGIC, "magic");
    assert_eq!(leer_u32(&glb, 4), GLB_VERSION, "version");
    assert_eq!(leer_u32(&glb, 8) as usize, glb.len(), "la longitud declarada no es la real");
    assert_eq!(glb.len() % 4, 0, "el contenedor no esta alineado a 4");
    // trozo JSON: 27 bytes rellenados con espacios hasta 28
    assert_eq!(leer_u32(&glb, 12), 28);
    assert_eq!(leer_u32(&glb, 16), CHUNK_JSON);
    assert_eq!(glb[20 + 27], b' ');
    // trozo BIN: 5 bytes rellenados con ceros hasta 8
    assert_eq!(leer_u32(&glb, 48), 8);
    assert_eq!(leer_u32(&glb, 52), CHUNK_BIN);
    assert_eq!(&glb[56..64], &[1, 2, 3, 4, 5, 0, 0, 0]);
    assert_eq!(glb.len(), 64);
}

#[test]
fn glb_ida_y_vuelta_devuelve_los_dos_trozos() {
    let json = b"{}".to_vec();
    let bin: Vec<u8> = (0..13).collect();
    let glb = empaquetar_glb(&json, &bin);
    let ((j0, j1), (b0, b1)) = separar_glb(&glb).unwrap();
    assert_eq!(&glb[j0..j0 + json.len()], &json[..]);
    assert_eq!(&glb[b0..b0 + bin.len()], &bin[..]);
    assert_eq!(j1 - j0, 4);
    assert_eq!(b1 - b0, 16);
    assert_eq!(trozo_json(&glb).unwrap(), (j0, j1));
}

#[test]
fn glb_rechaza_contenedores_rotos() {
    let glb = empaquetar_glb(&b"{}".to_vec(), &vec![9u8; 4]);
    assert_eq!(separar_glb(&glb[..10]), Err(DefectoDeGlb::DemasiadoCorto));

    let mut magic = glb.clone();
    magic[0] = b'x';
    assert_eq!(separar_glb(&magic), Err(DefectoDeGlb::MagicIncorrecto));

    let mut version = glb.clone();
    version[4] = 1;
    assert_eq!(separar_glb(&version), Err(DefectoDeGlb::VersionIncorrecta));

    let corto = glb[..glb.len() - 4].to_vec();
    assert_eq!(separar_glb(&corto), Err(DefectoDeGlb::LongitudIncoherente));

    let mut tipo = glb.clone();
    tipo[16] = 0;
    assert_eq!(separar_glb(&tipo), Err(DefectoDeGlb::PrimeroNoEsJson));

    let mut largo = glb.clone();
    largo[12] = 200;
    assert_eq!(separar_glb(&largo), Err(DefectoDeGlb::JsonTruncado));

    let mut segundo = glb.clone();
    segundo[28] = 0;
    assert_eq!(separar_glb(&segundo), Err(DefectoDeGlb::SegundoNoEsBin));

    let mut bin_largo = glb.clone();
    bin_largo[24] = 100;
    assert_eq!(separar_glb(&bin_largo), Err(DefectoDeGlb::BinTruncado));

    // sin trozo BIN: solo el JSON se puede leer
    let solo_json = empaquetar_glb(&b"{}".to_vec(), &Vec::new());
    assert_eq!(solo_json.len(), 24);
    assert_eq!(separar_glb(&solo_json), Err(DefectoDeGlb::CabeceraBinTruncada));
    assert_eq!(trozo_json(&solo_json), Ok((20, 24)));
}

#[test]
fn leer_indices_de_16_y_32_bits() {
    let buffer = vec![0xAA, 1, 0, 2, 0, 0xFF, 0xFF, 7, 0, 0, 0];
    assert_eq!(leer_indices(&buffer, 1, 6, COMPONENT_USHORT, 3), Ok(vec![1, 2, 0xFFFF]));
    assert_eq!(leer_indices(&buffer, 7, 4, COMPONENT_UINT, 1), Ok(vec![7]));
    assert_eq!(leer_indices(&buffer, 7, 4, COMPONENT_UINT, 2), Err(DefectoDeIndices::Truncados));
    assert_eq!(leer_indices(&buffer, 8, 4, COMPONENT_UINT, 1), Err(DefectoDeIndices::Truncados));
    assert_eq!(leer_indices(&buffer, 0, 4, 5126, 1), Err(DefectoDeIndices::TipoNoSoportado));
}
