use std::time::Duration;

use pawflash::errors::FlashError;
use pawflash::executor::{
    check_device_serial, check_raw_options, check_raw_request, image_flash_steps, plan_action_step,
    FlashStep, PlanActionStep, checked_max_download, empty_vbmeta, fallback_var_names,
    is_flash_action, is_valid_slot, max_download_or_default, parse_boot_target,
    passes_serial_filter, raw_flash_failed, raw_targets, reboot_choice, reboot_menu, route_image, vbmeta_flash_allowed,
    vbmeta_partitions, BootTarget, FlashOutcome, FlashResult, FlashRoute, RawFlashError,
    SerialCheck, DEFAULT_MAX_DOWNLOAD,
};
use pawflash::vars::{DeviceInfo, DeviceVars};

#[test]
fn boot_target_words() {
    assert_eq!(BootTarget::System.as_str(), "system");
    assert_eq!(BootTarget::Bootloader.as_str(), "bootloader");
    assert_eq!(BootTarget::Fastboot.as_str(), "fastboot");
    assert_eq!(BootTarget::Recovery.as_str(), "recovery");
}

#[test]
fn boot_target_parse_roundtrip() {
    for t in [BootTarget::System, BootTarget::Bootloader, BootTarget::Fastboot, BootTarget::Recovery] {
        assert_eq!(parse_boot_target(t.as_str()), Some(t));
    }
    assert_eq!(parse_boot_target("fastbootd"), Some(BootTarget::Fastboot));
    assert_eq!(parse_boot_target("edl"), None);
}

#[test]
fn slots_are_a_and_b() {
    assert!(is_valid_slot("a"));
    assert!(is_valid_slot("b"));
    assert!(!is_valid_slot("c"));
    assert!(!is_valid_slot("A"));
}

#[test]
fn serial_filter_and_check() {
    assert!(passes_serial_filter(None, None));
    assert!(passes_serial_filter(Some("X1"), Some("X1")));
    assert!(!passes_serial_filter(Some("X1"), Some("X2")));
    assert!(!passes_serial_filter(Some("X1"), None));
    assert_eq!(check_device_serial(None, Some("a")).ok(), Some(SerialCheck::NotRequested));
    assert_eq!(check_device_serial(Some("a"), None).ok(), Some(SerialCheck::Unreported));
    assert_eq!(check_device_serial(Some("a"), Some("a")).ok(), Some(SerialCheck::Matches));
    match check_device_serial(Some("want"), Some("got")) {
        Err(FlashError::DeviceMismatch { expected, actual }) => {
            assert_eq!(expected, "want");
            assert_eq!(actual, "got");
        }
        other => panic!("unexpected {other:?}"),
    }
}

#[test]
fn fallback_vars_listed() {
    assert_eq!(
        fallback_var_names(),
        vec!["version", "product", "serialno", "current-slot", "max-download-size"]
    );
}

#[test]
fn max_download_parsing() {
    assert_eq!(max_download_or_default(Some("0x10000000")), 0x1000_0000);
    assert_eq!(max_download_or_default(Some("536870912")), 536_870_912);
    assert_eq!(max_download_or_default(Some("junk")), DEFAULT_MAX_DOWNLOAD);
    assert_eq!(max_download_or_default(None), DEFAULT_MAX_DOWNLOAD);
    assert_eq!(checked_max_download(Some("0x200000")).ok(), Some(0x20_0000));
    match checked_max_download(Some("4096")) {
        Err(FlashError::ActionFailed { partition, reason }) => {
            assert_eq!(partition, "(global)");
            assert_eq!(reason, "device max-download-size (4096) is unreasonably small");
        }
        other => panic!("unexpected {other:?}"),
    }
}

#[test]
fn image_routing() {
    assert_eq!(route_image(true, 10, 100), FlashRoute::Sparse);
    assert_eq!(route_image(false, 100, 100), FlashRoute::Raw { size: 100 });
    assert_eq!(route_image(false, 101, 100), FlashRoute::SparseWrapped);
    assert_eq!(route_image(false, u64::MAX, u32::MAX), FlashRoute::Raw { size: u32::MAX });
}

#[test]
fn raw_options_and_targets() {
    assert_eq!(check_raw_options(Some("a"), true), Err(RawFlashError::BothAndSlot));
    assert_eq!(check_raw_options(Some("z"), false), Err(RawFlashError::InvalidSlot("z".into())));
    assert_eq!(check_raw_options(Some("b"), false), Ok(()));
    assert_eq!(check_raw_options(None, true), Ok(()));
    assert_eq!(raw_targets("boot", None, true, Some("a")), vec!["boot_a", "boot_b"]);
    assert_eq!(raw_targets("boot", Some("b"), false, Some("a")), vec!["boot_b"]);
    assert_eq!(raw_targets("boot", None, false, Some("a")), vec!["boot_a"]);
    assert_eq!(raw_targets("boot", None, false, None), vec!["boot"]);
    assert!(raw_flash_failed(0, 2));
    assert!(!raw_flash_failed(1, 1));
    assert!(!raw_flash_failed(0, 0));
}

fn outcome(partition: &str, success: bool) -> FlashOutcome {
    FlashOutcome {
        partition: partition.into(),
        success,
        response: None,
        duration: Duration::from_millis(1),
        error: if success { None } else { Some(FlashError::NoDevice) },
    }
}

#[test]
fn flash_result_tallies() {
    let r = FlashResult::from_outcomes(vec![outcome("a", true), outcome("b", false), outcome("c", true)]);
    assert_eq!((r.total, r.succeeded, r.failed), (3, 2, 1));
    assert_eq!(r.outcomes.len(), 3);
}

#[test]
fn plan_action_kinds_and_vbmeta() {
    assert!(is_flash_action("flash"));
    assert!(!is_flash_action("erase"));
    assert!(vbmeta_flash_allowed("no"));
    assert!(!vbmeta_flash_allowed("yes"));
    assert!(!vbmeta_flash_allowed("true"));
    assert_eq!(vbmeta_partitions(), vec!["vbmeta_a", "vbmeta_b"]);
}

#[test]
fn empty_vbmeta_layout() {
    let v = empty_vbmeta();
    assert_eq!(v.len(), 512);
    assert_eq!(&v[0..4], b"AVB0");
    assert_eq!(v[7], 1);
    assert_eq!(v[123], 3);
    assert_eq!(&v[128..141], b"avbtool 1.3.0");
    assert!(v[141..].iter().all(|b| *b == 0));
}

#[test]
fn device_vars_get_after_insert() {
    let mut vars = DeviceVars::new();
    assert_eq!(vars.get("product"), None);
    vars.insert("product".into(), "k69v1".into());
    vars.insert("serialno".into(), "ABC".into());
    vars.insert("product".into(), "k71v1".into());
    assert_eq!(vars.get("product"), Some("k71v1"));
    assert_eq!(vars.get("serialno"), Some("ABC"));
    assert_eq!(vars.len(), 2);
    assert!(vars.contains("serialno"));
    assert!(!vars.contains("version"));
}

#[test]
fn device_info_serial_from_vars() {
    let d = DeviceInfo::disconnected();
    assert!(!d.connected);
    assert!(d.serial.is_none());
    let mut vars = DeviceVars::new();
    vars.insert("serialno".into(), "S1".into());
    let d = DeviceInfo::connected_with(vars);
    assert!(d.connected);
    assert_eq!(d.serial, None);
    let mut vars = DeviceVars::new();
    vars.insert("serial".into(), "S2".into());
    let d = DeviceInfo::connected_with(vars);
    assert_eq!(d.serial.as_deref(), Some("S2"));
    assert_eq!(d.vars.len(), 1);
}

#[test]
fn reboot_menu_choices() {
    let menu = reboot_menu();
    assert_eq!(menu, vec!["none (skip)", "system", "recovery", "bootloader", "fastbootd"]);
    assert_eq!(reboot_choice(menu[0]), None);
    assert_eq!(reboot_choice("system"), Some(BootTarget::System));
    assert_eq!(reboot_choice("recovery"), Some(BootTarget::Recovery));
    assert_eq!(reboot_choice("bootloader"), Some(BootTarget::Bootloader));
    assert_eq!(reboot_choice("fastbootd"), Some(BootTarget::Fastboot));
    assert_eq!(reboot_choice("fastboot"), None);
}

#[test]
fn raw_request_checks_options_then_image() {
    assert_eq!(check_raw_request(Some("a"), true, false), Err(RawFlashError::BothAndSlot));
    assert_eq!(check_raw_request(Some("c"), false, true), Err(RawFlashError::InvalidSlot("c".into())));
    assert_eq!(check_raw_request(Some("b"), false, false), Err(RawFlashError::ImageNotFound));
    assert_eq!(check_raw_request(None, true, false), Err(RawFlashError::ImageNotFound));
    assert_eq!(check_raw_request(None, false, true), Ok(()));
}

#[test]
fn image_is_erased_before_it_is_sent() {
    assert_eq!(image_flash_steps(false, 100, 100), vec![FlashStep::Erase, FlashStep::Send(FlashRoute::Raw { size: 100 })]);
    assert_eq!(image_flash_steps(false, 101, 100), vec![FlashStep::Erase, FlashStep::Send(FlashRoute::SparseWrapped)]);
    assert_eq!(image_flash_steps(true, 5, 100), vec![FlashStep::Erase, FlashStep::Send(FlashRoute::Sparse)]);
}

#[test]
fn plan_action_steps() {
    assert_eq!(plan_action_step("erase", true, true, false), PlanActionStep::NotRun);
    assert_eq!(plan_action_step("flash", false, false, false), PlanActionStep::NoImagePath);
    assert_eq!(plan_action_step("flash", true, false, true), PlanActionStep::ImageMissing);
    assert_eq!(plan_action_step("flash", true, true, true), PlanActionStep::DryRun);
    assert_eq!(plan_action_step("flash", true, true, false), PlanActionStep::Flash);
}
