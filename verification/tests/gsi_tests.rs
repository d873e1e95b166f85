use pawflash::errors::GsiError;
use pawflash::gsi::{
    cancel_outcome, check_cancelled, detect_fastboot_mode, event_log_line, plan_stage_groups, product_gsi_overflow_size, product_partition_for,
    should_flash_product_gsi, FastbootMode, GsiCounters, GsiEvent, GsiStage, GsiStep,
};
use pawflash::vars::DeviceVars;

#[test]
fn product_gsi_overflow_size_zero_when_gsi_fits() {
    assert_eq!(product_gsi_overflow_size(100, 50), 0);
}

#[test]
fn product_gsi_overflow_size_rounded_to_mb() {
    let result = product_gsi_overflow_size(100, 100 + 500);
    assert_eq!(result, 1024 * 1024);
}

#[test]
fn product_gsi_overflow_size_exact_mb_when_exact() {
    assert_eq!(
        product_gsi_overflow_size(100, 100 + 5 * 1024 * 1024),
        5 * 1024 * 1024
    );
}

#[test]
fn product_gsi_overflow_size_equal_sizes_is_zero() {
    assert_eq!(product_gsi_overflow_size(4096, 4096), 0);
    assert!(!should_flash_product_gsi(4096, 4096));
    assert!(should_flash_product_gsi(4096, 4097));
}

#[test]
fn detect_fastboot_mode_bootloader_when_no_userspace() {
    let vars = DeviceVars::new();
    assert_eq!(detect_fastboot_mode(&vars), FastbootMode::Bootloader);
}

#[test]
fn detect_fastboot_mode_fastbootd_when_yes() {
    let mut vars = DeviceVars::new();
    vars.insert("is-userspace".to_string(), "yes".to_string());
    assert_eq!(detect_fastboot_mode(&vars), FastbootMode::Fastbootd);
}

#[test]
fn detect_fastboot_mode_bootloader_when_no() {
    let mut vars = DeviceVars::new();
    vars.insert("is-userspace".to_string(), "no".to_string());
    assert_eq!(detect_fastboot_mode(&vars), FastbootMode::Bootloader);
}

#[test]
fn detect_fastboot_mode_accepts_truthy_values() {
    for val in &["true", "1", "on"] {
        let mut vars = DeviceVars::new();
        vars.insert("is-userspace".to_string(), val.to_string());
        assert_eq!(
            detect_fastboot_mode(&vars),
            FastbootMode::Fastbootd,
            "should accept '{val}' as fastbootd"
        );
    }
}

#[test]
fn device_vars_insert_replaces_and_get_reads_back() {
    let mut vars = DeviceVars::new();
    vars.insert("current-slot".to_string(), "a".to_string());
    vars.insert("product".to_string(), "X".to_string());
    vars.insert("current-slot".to_string(), "b".to_string());
    assert_eq!(vars.get("current-slot"), Some("b"));
    assert_eq!(vars.get("product"), Some("X"));
    assert_eq!(vars.get("serialno"), None);
    assert_eq!(vars.len(), 2);
    let copy = vars.copy();
    assert_eq!(copy.get("current-slot"), Some("b"));
}

#[test]
fn stage_groups_start_in_current_mode() {
    let groups = plan_stage_groups(FastbootMode::Bootloader);
    assert_eq!(groups.len(), 2);
    assert_eq!(groups[0].0, FastbootMode::Bootloader);
    assert_eq!(groups[0].1, vec![GsiStage::FlashVbmeta, GsiStage::WipeUserdata]);
    assert_eq!(groups[1].0, FastbootMode::Fastbootd);
    assert_eq!(groups[1].1, vec![GsiStage::FlashSystem]);
    let groups = plan_stage_groups(FastbootMode::Fastbootd);
    assert_eq!(groups[0].0, FastbootMode::Fastbootd);
    assert_eq!(groups[0].1, vec![GsiStage::FlashSystem]);
    assert_eq!(groups[1].1, vec![GsiStage::FlashVbmeta, GsiStage::WipeUserdata]);
}

#[test]
fn counters_count_flashing_wiping_and_skips() {
    let mut c = GsiCounters::new();
    c.record(&GsiEvent::Step(GsiStep::FlashingVbmeta));
    c.record(&GsiEvent::Flashing { partition: "system_a".to_string(), size_bytes: 10 });
    c.record(&GsiEvent::Flashing { partition: "product_a".to_string(), size_bytes: 5 });
    c.record(&GsiEvent::Wiping { partition: "userdata".to_string() });
    c.record(&GsiEvent::PartitionSkipped {
        partition: "cache".to_string(),
        reason: "missing".to_string(),
    });
    let s = c.summary();
    assert_eq!(s.flash_count, 2);
    assert_eq!(s.wipe_count, 1);
    assert_eq!(s.skipped_count, 1);
    assert_eq!(s.total_bytes, 15);
}

#[test]
fn mode_and_step_texts() {
    assert_eq!(FastbootMode::Bootloader.as_str(), "bootloader");
    assert_eq!(FastbootMode::Fastbootd.as_str(), "fastbootd");
    assert_eq!(GsiStep::GsiFlowComplete.as_str(), "GSI flow complete");
    assert_eq!(GsiStep::CheckingProductGsiFallback.as_str(), "checking product GSI fallback");
}

#[test]
fn product_partition_follows_system_slot() {
    assert_eq!(product_partition_for("system_b"), "product_b");
    assert_eq!(product_partition_for("system"), "product");
}

#[test]
fn event_log_lines() {
    assert_eq!(event_log_line(&GsiEvent::Step(GsiStep::WipingUserdata)), "[gsi] wiping userdata");
    assert_eq!(
        event_log_line(&GsiEvent::ModeDetected(FastbootMode::Fastbootd)),
        "[gsi] detected mode: fastbootd"
    );
    assert_eq!(
        event_log_line(&GsiEvent::ModeReady(FastbootMode::Bootloader)),
        "[gsi] ready in mode: bootloader"
    );
    assert_eq!(
        event_log_line(&GsiEvent::ResolvedPartition {
            base: "system",
            partition: "system_a".into(),
            size_bytes: 4096,
        }),
        "[gsi] resolved system -> system_a (4096 bytes)"
    );
    assert_eq!(
        event_log_line(&GsiEvent::Flashing { partition: "product_a".into(), size_bytes: 0 }),
        "[gsi] flashing product_a (0 bytes)"
    );
    assert_eq!(event_log_line(&GsiEvent::Wiping { partition: "userdata".into() }), "[gsi] wiping userdata");
    assert_eq!(
        event_log_line(&GsiEvent::PartitionSkipped { partition: "cache".into(), reason: "absent".into() }),
        "[gsi] skipped cache: absent"
    );
}

#[test]
fn cancellation_token_stops_the_flow() {
    assert!(check_cancelled(None).is_ok());
    let token = std::sync::Arc::new(std::sync::atomic::AtomicBool::new(false));
    assert!(check_cancelled(Some(&token)).is_ok());
    token.store(true, std::sync::atomic::Ordering::Relaxed);
    assert!(matches!(check_cancelled(Some(&token)), Err(GsiError::Cancelled)));
    assert!(matches!(cancel_outcome(true), Err(GsiError::Cancelled)));
    assert!(cancel_outcome(false).is_ok());
}
