use pawflash::format::{parse_fs_options, parse_getvar_hex_u64, FsType};

#[test]
fn parse_getvar_hex_u64_should_accept_0x_prefix() {
    assert_eq!(parse_getvar_hex_u64("0x100000"), Some(0x0010_0000));
}

#[test]
fn parse_getvar_hex_u64_should_accept_upper_x_prefix() {
    assert_eq!(parse_getvar_hex_u64("0X200000"), Some(0x0020_0000));
}

#[test]
fn parse_getvar_hex_u64_should_accept_no_prefix() {
    assert_eq!(parse_getvar_hex_u64("abcdef"), Some(0x00ab_cdef));
}

#[test]
fn parse_getvar_hex_u64_should_trim_whitespace() {
    assert_eq!(parse_getvar_hex_u64("  0x100  "), Some(0x100));
}

#[test]
fn parse_getvar_hex_u64_should_return_none_for_empty() {
    assert_eq!(parse_getvar_hex_u64(""), None);
    assert_eq!(parse_getvar_hex_u64("0x"), None);
}

#[test]
fn parse_getvar_hex_u64_should_return_none_for_invalid() {
    assert_eq!(parse_getvar_hex_u64("not_hex"), None);
}

#[test]
fn parse_getvar_hex_u64_handles_sign_overflow_and_unicode_space() {
    assert_eq!(parse_getvar_hex_u64("0x+10"), Some(0x10));
    assert_eq!(parse_getvar_hex_u64("+"), None);
    assert_eq!(parse_getvar_hex_u64("ffffffffffffffff"), Some(u64::MAX));
    assert_eq!(parse_getvar_hex_u64("10000000000000000"), None);
    assert_eq!(parse_getvar_hex_u64("\u{a0}\t0x2a\u{3000}"), Some(42));
    assert_eq!(parse_getvar_hex_u64("0x-1"), None);
}

#[test]
fn parse_fs_options_empty() {
    let opts: Vec<String> = vec![];
    assert_eq!(parse_fs_options(&opts), 0);
}

#[test]
fn parse_fs_options_casefold() {
    let opts = vec!["casefold".to_string()];
    assert_eq!(parse_fs_options(&opts), 1 << 0);
}

#[test]
fn parse_fs_options_projid() {
    let opts = vec!["projid".to_string()];
    assert_eq!(parse_fs_options(&opts), 1 << 1);
}

#[test]
fn parse_fs_options_compress() {
    let opts = vec!["compress".to_string()];
    assert_eq!(parse_fs_options(&opts), 1 << 2);
}

#[test]
fn parse_fs_options_combined() {
    let opts = vec!["casefold".to_string(), "compress".to_string()];
    assert_eq!(parse_fs_options(&opts), (1 << 0) | (1 << 2));
}

#[test]
fn parse_fs_options_ignores_unknown() {
    let opts = vec!["unknown_option".to_string()];
    assert_eq!(parse_fs_options(&opts), 0);
}

#[test]
fn parse_fs_options_repeated_names_set_bit_once() {
    let opts = vec!["projid".to_string(), "projid".to_string(), "casefold".to_string()];
    assert_eq!(parse_fs_options(&opts), 3);
}

#[test]
fn fs_type_from_partition_type_should_accept_ext4() {
    assert_eq!(FsType::from_partition_type("ext4"), Some(FsType::Ext4));
    assert_eq!(FsType::from_partition_type("EXT4"), Some(FsType::Ext4));
}

#[test]
fn fs_type_from_partition_type_should_accept_f2fs() {
    assert_eq!(FsType::from_partition_type("f2fs"), Some(FsType::F2fs));
}

#[test]
fn fs_type_from_partition_type_should_return_none_for_raw() {
    assert_eq!(FsType::from_partition_type("raw"), None);
}

#[test]
fn fs_type_from_partition_type_should_return_none_for_empty() {
    assert_eq!(FsType::from_partition_type(""), None);
}

#[test]
fn parse_fs_options_comma_separated() {
    let opts = vec!["casefold,compress".to_string()];
    assert_eq!(parse_fs_options(&opts), (1 << 0) | (1 << 2));
    let opts = vec!["projid,unknown".to_string(), "casefold".to_string()];
    assert_eq!(parse_fs_options(&opts), (1 << 0) | (1 << 1));
    let opts = vec!["casefoldx,xcompress".to_string()];
    assert_eq!(parse_fs_options(&opts), 0);
}
