use pawflash::errors::FlashError;
use pawflash::format::FsType;
use pawflash::wipe::{
    bcb_block, bcb_partitions, block_size_from_var, determine_fs_type, footer_size_for, format_partitions, partition_exists,
    tools_failure_result, FormatDataResult, FormatOutcome, FormatStatus, Wipe, WipeAction,
    WipeConfig, WipeStage,
};

fn config(clean_test: bool, fs_type_override: Option<FsType>) -> WipeConfig {
    WipeConfig { fs_options: 0, clean_test, fs_type_override }
}

fn ok(s: &str) -> Result<String, FlashError> {
    Ok(s.to_string())
}

#[test]
fn format_partitions_are_userdata_metadata_cache() {
    assert_eq!(format_partitions(), vec!["userdata", "metadata", "cache"]);
}

#[test]
fn footer_reserved_only_for_ext4_userdata() {
    assert_eq!(footer_size_for("userdata", Some(FsType::Ext4)), 0x4000);
    assert_eq!(footer_size_for("userdata", Some(FsType::F2fs)), 0);
    assert_eq!(footer_size_for("userdata", None), 0);
    assert_eq!(footer_size_for("metadata", Some(FsType::Ext4)), 0);
}

#[test]
fn block_size_var_reads_hex_or_zero() {
    assert_eq!(block_size_from_var(&ok("0x80000")), 0x80000);
    assert_eq!(block_size_from_var(&ok("1000")), 0x1000);
    assert_eq!(block_size_from_var(&ok("garbage")), 0);
    assert_eq!(block_size_from_var(&ok("0x100000000")), 0);
    assert_eq!(block_size_from_var(&Err(FlashError::NoDevice)), 0);
}

#[test]
fn partition_exists_needs_nonempty_type() {
    assert!(partition_exists(&ok("ext4")));
    assert!(!partition_exists(&ok("")));
    assert!(!partition_exists(&Err(FlashError::NoDevice)));
}

#[test]
fn determine_fs_type_prefers_override_for_userdata() {
    assert_eq!(determine_fs_type("userdata", "ext4", Some(FsType::F2fs)).ok(), Some(FsType::F2fs));
    assert_eq!(determine_fs_type("metadata", "f2fs", Some(FsType::Ext4)).ok(), Some(FsType::F2fs));
}

#[test]
fn determine_fs_type_falls_back_by_partition() {
    assert_eq!(determine_fs_type("userdata", "raw", None).ok(), Some(FsType::F2fs));
    assert_eq!(determine_fs_type("cache", "raw", None).ok(), Some(FsType::Ext4));
    assert_eq!(determine_fs_type("metadata", "EXT4", None).ok(), Some(FsType::Ext4));
    match determine_fs_type("vendor", "raw", None) {
        Err(FormatOutcome { partition, status: FormatStatus::ErasedOnly(t) }) => {
            assert_eq!(partition, "vendor");
            assert_eq!(t, "raw");
        }
        other => panic!("unexpected {other:?}"),
    }
}

#[test]
fn wipe_full_sequence_ext4_userdata() {
    let (w, a) = Wipe::start("userdata", config(false, Some(FsType::Ext4)));
    assert_eq!(w.footer_size, 0x4000);
    assert!(matches!(a, WipeAction::GetVar(ref q) if q == "partition-type:userdata"));
    let (w, a) = w.step(ok("f2fs"));
    assert!(matches!(a, WipeAction::Erase));
    let (w, a) = w.step(ok("OKAY"));
    assert!(matches!(a, WipeAction::GetVar(ref q) if q == "partition-size:userdata"));
    assert!(matches!(w.stage, WipeStage::QuerySize { fs_type: FsType::Ext4 }));
    let (w, a) = w.step(ok("0x100000"));
    match a {
        WipeAction::GenerateFs { fs_type, fs_size, fs_options } => {
            assert_eq!(fs_type, FsType::Ext4);
            assert_eq!(fs_size, 0x100000 - 0x4000);
            assert_eq!(fs_options, 0);
        }
        other => panic!("unexpected {other:?}"),
    }
    let (w, a) = w.step(ok(""));
    assert!(matches!(a, WipeAction::SparseWrap { part_size: 0x100000, footer_size: 0x4000 }));
    let (w, a) = w.step(ok(""));
    assert!(matches!(w.stage, WipeStage::Done));
    match a {
        WipeAction::Finish(o) => {
            assert_eq!(o.partition, "userdata");
            assert!(matches!(o.status, FormatStatus::Wiped));
        }
        other => panic!("unexpected {other:?}"),
    }
}

#[test]
fn wipe_skips_missing_partition() {
    let (w, _) = Wipe::start("cache", config(false, None));
    let (_, a) = w.step(Err(FlashError::NoDevice));
    match a {
        WipeAction::Finish(o) => {
            assert!(matches!(o.status, FormatStatus::Skipped(ref r) if r == "partition not found"));
        }
        other => panic!("unexpected {other:?}"),
    }
}

#[test]
fn wipe_skips_empty_type() {
    let (w, _) = Wipe::start("cache", config(false, None));
    let (_, a) = w.step(ok(""));
    match a {
        WipeAction::Finish(o) => {
            assert!(matches!(o.status, FormatStatus::Skipped(ref r) if r == "empty partition type"));
        }
        other => panic!("unexpected {other:?}"),
    }
}

#[test]
fn wipe_clean_test_erases_only() {
    let (w, _) = Wipe::start("metadata", config(true, None));
    let (w, _) = w.step(ok("ext4"));
    let (_, a) = w.step(ok("OKAY"));
    match a {
        WipeAction::Finish(o) => {
            assert!(matches!(o.status, FormatStatus::ErasedOnly(ref t) if t == "ext4"));
        }
        other => panic!("unexpected {other:?}"),
    }
}

#[test]
fn wipe_zero_size_fails() {
    let (w, _) = Wipe::start("cache", config(false, None));
    let (w, _) = w.step(ok("ext4"));
    let (w, _) = w.step(ok("OKAY"));
    let (_, a) = w.step(ok("0x0"));
    match a {
        WipeAction::Finish(o) => match o.status {
            FormatStatus::Failed(FlashError::ActionFailed { partition, reason }) => {
                assert_eq!(partition, "cache");
                assert_eq!(reason, "partition size is 0");
            }
            other => panic!("unexpected {other:?}"),
        },
        other => panic!("unexpected {other:?}"),
    }
}

#[test]
fn wipe_erase_failure_is_reported() {
    let (w, _) = Wipe::start("cache", config(false, None));
    let (w, _) = w.step(ok("ext4"));
    let (_, a) = w.step(Err(FlashError::SparseParseFailed));
    match a {
        WipeAction::Finish(o) => assert!(matches!(o.status, FormatStatus::Failed(FlashError::SparseParseFailed))),
        other => panic!("unexpected {other:?}"),
    }
}

#[test]
fn counts_tally_statuses() {
    let r = FormatDataResult {
        outcomes: vec![
            FormatOutcome { partition: "userdata".into(), status: FormatStatus::Wiped },
            FormatOutcome { partition: "metadata".into(), status: FormatStatus::ErasedOnly("raw".into()) },
            FormatOutcome { partition: "cache".into(), status: FormatStatus::Skipped("x".into()) },
            FormatOutcome { partition: "misc".into(), status: FormatStatus::Failed(FlashError::NoDevice) },
            FormatOutcome { partition: "misc2".into(), status: FormatStatus::Wiped },
        ],
    };
    let c = r.counts();
    assert_eq!((c.wiped, c.erased_only, c.skipped, c.failed), (2, 1, 1, 1));
}

#[test]
fn tools_failure_fails_every_partition() {
    let r = tools_failure_result("no tools");
    assert_eq!(r.outcomes.len(), 3);
    let names: Vec<&str> = r.outcomes.iter().map(|o| o.partition.as_str()).collect();
    assert_eq!(names, vec!["userdata", "metadata", "cache"]);
    for o in &r.outcomes {
        assert!(matches!(&o.status, FormatStatus::Failed(FlashError::GeneratorFailed { reason }) if reason == "no tools"));
    }
}

#[test]
fn format_data_handles_missing_partition() {
    let mut outcomes = Vec::new();
    for partition in format_partitions() {
        let (w, a) = Wipe::start(partition, config(false, None));
        assert!(matches!(a, WipeAction::GetVar(_)));
        match w.step(Err(FlashError::NoDevice)) {
            (_, WipeAction::Finish(o)) => outcomes.push(o),
            (_, other) => panic!("unexpected {other:?}"),
        }
    }
    assert_eq!(outcomes.len(), 3);
    for outcome in &outcomes {
        assert!(matches!(outcome.status, FormatStatus::Skipped(_)), "expected skipped, got {:?}", outcome.status);
    }
}

#[test]
fn bcb_clearing_block() {
    assert_eq!(bcb_partitions(), vec!["misc", "para"]);
    let b = bcb_block();
    assert_eq!(b.len(), 2048);
    assert!(b.iter().all(|x| *x == 0));
}
