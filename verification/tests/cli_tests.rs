use pawflash::cli::{
    format_mode, offers_format, parse_fs_type_option, parse_mode, parse_storage, plan_gate,
    runs_interactive, scatter_run, FormatConfig, FormatMode, Mode, PlanGate, ScatterRun,
    StorageSelect,
};
use pawflash::format::FsType;

#[test]
fn mode_values() {
    assert_eq!(parse_mode("dry-run"), Ok(Mode::DryRun));
    assert_eq!(parse_mode("DRY_RUN"), Ok(Mode::DryRun));
    assert_eq!(parse_mode("Selective"), Ok(Mode::Selective));
    assert_eq!(parse_mode("dirty_flash"), Ok(Mode::DirtyFlash));
    assert_eq!(
        parse_mode("fast"),
        Err("invalid mode 'fast': expected dry-run, selective, or dirty-flash".to_string())
    );
}

#[test]
fn storage_values() {
    assert_eq!(parse_storage("auto"), Ok(StorageSelect::Auto));
    assert_eq!(parse_storage("ALL"), Ok(StorageSelect::All));
    assert_eq!(parse_storage("Ufs"), Ok(StorageSelect::Ufs));
    assert_eq!(parse_storage("emmc"), Ok(StorageSelect::Emmc));
    assert_eq!(
        parse_storage("nand"),
        Err("invalid storage 'nand': expected auto, all, ufs, or emmc".to_string())
    );
}

#[test]
fn fs_type_values() {
    assert_eq!(parse_fs_type_option("EXT4"), Ok(FsType::Ext4));
    assert_eq!(parse_fs_type_option("f2fs"), Ok(FsType::F2fs));
    assert_eq!(
        parse_fs_type_option("XFS"),
        Err("invalid --fs-type 'xfs': expected ext4 or f2fs".to_string())
    );
}

#[test]
fn interactive_only_for_plain_selective() {
    assert!(runs_interactive(false, false, Mode::Selective, true, true, false));
    assert!(!runs_interactive(true, false, Mode::Selective, true, true, false));
    assert!(!runs_interactive(false, false, Mode::DirtyFlash, true, true, false));
    assert!(!runs_interactive(false, false, Mode::Selective, false, true, false));
    assert!(!runs_interactive(false, false, Mode::Selective, true, true, true));
}

#[test]
fn scatter_run_choice() {
    assert_eq!(scatter_run(true, true, true), ScatterRun::Show { full_json: true });
    assert_eq!(scatter_run(false, false, true), ScatterRun::DryRun);
    assert_eq!(scatter_run(false, false, false), ScatterRun::Execute);
}

#[test]
fn format_mode_choice() {
    assert_eq!(format_mode(false, false, true), FormatMode::Test);
    assert_eq!(format_mode(true, false, false), FormatMode::Format);
    assert_eq!(format_mode(true, true, false), FormatMode::Skip);
    assert_eq!(format_mode(false, false, false), FormatMode::Skip);
}

#[test]
fn plan_gate_choice() {
    assert_eq!(plan_gate(2, 5, true), PlanGate::Proceed);
    assert_eq!(plan_gate(1, 5, false), PlanGate::RefuseErrors);
    assert_eq!(plan_gate(0, 0, false), PlanGate::RefuseEmpty);
    assert_eq!(plan_gate(0, 3, false), PlanGate::Proceed);
}

#[test]
fn format_offer() {
    assert!(offers_format(FormatConfig { clean: true, no_format: false, clean_test: false }));
    assert!(offers_format(FormatConfig { clean: false, no_format: false, clean_test: true }));
    assert!(!offers_format(FormatConfig { clean: true, no_format: true, clean_test: false }));
    assert!(!offers_format(FormatConfig { clean: false, no_format: false, clean_test: false }));
}

#[test]
fn fs_type_error_lowercases_unicode() {
    assert_eq!(
        parse_fs_type_option("ÉXT3"),
        Err("invalid --fs-type 'éxt3': expected ext4 or f2fs".to_string())
    );
}
