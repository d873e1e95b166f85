use pawflash::scatter::{
    decode_scatter_bytes, hex_string, image_kind, is_plausible_text, looks_like_xml,
    normalized_newlines, sha256_text, ImageKind,
};

#[test]
fn xml_detection() {
    assert!(looks_like_xml("<?xml version=\"1.0\"?>"));
    assert!(looks_like_xml("\u{feff}\n  <ROOT>"));
    assert!(looks_like_xml("\t<da>"));
    assert!(looks_like_xml("<DA_something"));
    assert!(!looks_like_xml("- general: MTK_PLATFORM_CFG"));
    assert!(!looks_like_xml(""));
    assert!(!looks_like_xml("<sc"));
}

#[test]
fn xml_detection_scatter_tag_window() {
    assert!(!looks_like_xml("<scatter_file>"));
}

#[test]
fn newline_normalisation() {
    assert_eq!(normalized_newlines("a\r\nb\rc\n"), "a\nb\nc\n");
    assert_eq!(normalized_newlines("\r\r\n"), "\n\n");
}

#[test]
fn plausibility_counts_nuls_per_twenty_bytes() {
    assert!(is_plausible_text(&"abc".to_string()));
    assert!(!is_plausible_text(&"a\0".to_string()));
    let forty = format!("{}\0", "x".repeat(39));
    assert!(is_plausible_text(&forty));
    let two = format!("{}\0\0", "x".repeat(38));
    assert!(!is_plausible_text(&two));
}

#[test]
fn decode_utf8_with_crlf() {
    assert_eq!(decode_scatter_bytes(b"- a: 1\r\n- b: 2\r\n"), "- a: 1\n- b: 2\n");
}

#[test]
fn decode_utf16le_with_bom() {
    let mut raw = vec![0xff, 0xfe];
    for c in "<root>\r\n".encode_utf16() {
        raw.extend_from_slice(&c.to_le_bytes());
    }
    assert_eq!(decode_scatter_bytes(&raw), "<root>\n");
}

#[test]
fn decode_utf16le_without_bom() {
    let mut raw = Vec::new();
    for c in "partition_index: SYS0".encode_utf16() {
        raw.extend_from_slice(&c.to_le_bytes());
    }
    assert_eq!(decode_scatter_bytes(&raw), "partition_index: SYS0");
}

#[test]
fn digest_hex() {
    assert_eq!(
        sha256_text(""),
        "e3b0c44298fc1c149afbf4c8996fb92427ae41e4649b934ca495991b7852b855"
    );
    assert_eq!(
        sha256_text("abc"),
        "ba7816bf8f01cfea414140de5dae2223b00361a396177a9cb410ff61f20015ad"
    );
    assert_eq!(hex_string(&[0x00, 0x0f, 0xa0, 0xff]), "000fa0ff");
}

#[test]
fn image_kinds() {
    assert_eq!(image_kind(b""), ImageKind::Empty);
    assert_eq!(image_kind(b"ANDROID!xxxx"), ImageKind::AndroidBootOrRecoveryImage);
    assert_eq!(image_kind(b"AVB0\0\0"), ImageKind::AndroidVbmetaImage);
    assert_eq!(image_kind(&[0x3a, 0xff, 0x26, 0xed, 0]), ImageKind::AndroidSparseImage);
    assert_eq!(image_kind(b"\x7fELF\x02"), ImageKind::Elf);
    assert_eq!(image_kind(b"ELF"), ImageKind::Elf);
    let mut ext = vec![0u8; 0x43a];
    ext[0x438] = 0x53;
    ext[0x439] = 0xef;
    assert_eq!(image_kind(&ext), ImageKind::PossibleExtFilesystem);
    let mut gpt = vec![0u8; 2048];
    gpt[512..520].copy_from_slice(b"EFI PART");
    assert_eq!(image_kind(&gpt), ImageKind::GptOrDiskImage);
    let mut late = vec![0u8; 2048];
    late[1020..1028].copy_from_slice(b"EFI PART");
    assert_eq!(image_kind(&late), ImageKind::RawOrUnknown);
    assert_eq!(image_kind(b"hello"), ImageKind::RawOrUnknown);
}

#[test]
fn image_kind_names() {
    assert_eq!(ImageKind::Empty.as_str(), "empty");
    assert_eq!(ImageKind::AndroidSparseImage.as_str(), "android_sparse_image");
    assert_eq!(ImageKind::GptOrDiskImage.as_str(), "gpt_or_disk_image");
    assert_eq!(ImageKind::RawOrUnknown.as_str(), "raw_or_unknown");
}

#[test]
fn decode_falls_back_to_lossy_utf8() {
    let mut raw = vec![0xffu8];
    raw.extend(std::iter::repeat(0u8).take(39));
    let expected = format!("\u{fffd}{}", "\0".repeat(39));
    assert_eq!(decode_scatter_bytes(&raw), expected);
}
