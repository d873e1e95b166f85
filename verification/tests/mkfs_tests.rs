use pawflash::errors::FlashError;
use pawflash::format::FsType;
use pawflash::mkfs::{empty_fs_command, ext4_command, f2fs_command, product_gsi_command, MkfsTool};

fn strs(v: &[String]) -> Vec<&str> {
    v.iter().map(String::as_str).collect()
}

#[test]
fn ext4_plain() {
    let c = ext4_command(64 * 1024 * 1024, 0, 0, 0).unwrap();
    assert_eq!(c.tool, MkfsTool::Mke2fs);
    assert_eq!(
        strs(&c.args),
        vec!["-F", "-t", "ext4", "-b", "4096", "-O", "metadata_csum,64bit,extent", "-I", "512"]
    );
    assert_eq!(strs(&c.trailing), vec!["16384"]);
}

#[test]
fn ext4_raid_hints_and_casefold() {
    let c = ext4_command(8192, 524288, 4096, 1).unwrap();
    assert_eq!(
        strs(&c.args),
        vec![
            "-F", "-t", "ext4", "-b", "4096", "-O", "metadata_csum,64bit,extent", "-E",
            "stride=2,stripe-width=128", "-I", "512", "-O", "casefold", "-E", "encoding=utf8",
        ]
    );
    assert_eq!(strs(&c.trailing), vec!["2"]);
}

#[test]
fn ext4_stripe_at_least_stride() {
    let c = ext4_command(4096, 4096, 65536, 0).unwrap();
    assert!(strs(&c.args).contains(&"stride=16,stripe-width=16"));
}

#[test]
fn ext4_too_small() {
    match ext4_command(4095, 0, 0, 0) {
        Err(FlashError::GeneratorFailed { reason }) => assert_eq!(
            reason,
            "partition size 4095 is smaller than minimum block size 4096"
        ),
        other => panic!("unexpected {other:?}"),
    }
}

#[test]
fn f2fs_options() {
    let c = f2fs_command(1000, 0);
    assert_eq!(c.tool, MkfsTool::MakeF2fs);
    assert_eq!(strs(&c.args), vec!["-S", "1000", "-g", "android", "-O", "project_quota,extra_attr"]);
    assert!(c.trailing.is_empty());
    let c = f2fs_command(1000, 1 | 2 | 4);
    assert_eq!(
        strs(&c.args),
        vec![
            "-S", "1000", "-g", "android", "-O", "project_quota,extra_attr", "-O", "casefold", "-C",
            "utf8", "-O", "compression", "-O", "extra_attr",
        ]
    );
}

#[test]
fn empty_fs_dispatch() {
    let c = empty_fs_command(FsType::F2fs, 10, 0, 0, 0).unwrap();
    assert_eq!(c.tool, MkfsTool::MakeF2fs);
    assert!(empty_fs_command(FsType::Ext4, 10, 0, 0, 0).is_err());
    let c = empty_fs_command(FsType::Ext4, 40960, 0, 0, 0).unwrap();
    assert_eq!(c.tool, MkfsTool::Mke2fs);
    assert_eq!(strs(&c.trailing), vec!["10"]);
}

#[test]
fn product_gsi_image_command() {
    let c = product_gsi_command();
    assert_eq!(c.tool, MkfsTool::Mke2fs);
    assert_eq!(
        strs(&c.args),
        vec![
            "-F", "-t", "ext4", "-b", "4096", "-L", "product", "-U",
            "cdd462dd-8dd0-4006-8a5a-94e5a70c2bc3",
        ]
    );
    assert_eq!(strs(&c.trailing), vec!["16384"]);
}
