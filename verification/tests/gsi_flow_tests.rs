use pawflash::errors::GsiError;
use pawflash::executor::BootTarget;
use pawflash::gsi::{FastbootMode, GsiEvent, GsiFlashSummary, GsiStep};
use pawflash::gsi_flow::{GsiAction, GsiCommand, GsiFlow, GsiNext, GsiOp, GsiReply};

const MIB: u64 = 1024 * 1024;

fn reports(a: &GsiAction) -> Vec<GsiEvent> {
    a.prelude
        .iter()
        .filter_map(|o| match o {
            GsiOp::Report(e) => Some(e.clone()),
            GsiOp::CheckCancel => None,
        })
        .collect()
}

fn cancel_checks(a: &GsiAction) -> usize {
    a.prelude.iter().filter(|o| matches!(o, GsiOp::CheckCancel)).count()
}

fn go(flow: GsiFlow, reply: GsiReply) -> (GsiFlow, GsiAction) {
    match flow.step(reply) {
        GsiNext::Continue(f, a) => (f, a),
        GsiNext::Finished(r) => panic!("finished early: {:?}", r.err()),
    }
}

fn finish(flow: GsiFlow, reply: GsiReply) -> Result<GsiFlashSummary, GsiError> {
    match flow.step(reply) {
        GsiNext::Finished(r) => r,
        GsiNext::Continue(_, a) => panic!("still running: {:?}", a.command),
    }
}

#[test]
fn from_bootloader_gsi_fits() {
    let (f, a) = GsiFlow::start(FastbootMode::Bootloader, 100 * MIB, false);
    assert_eq!(reports(&a), vec![GsiEvent::ModeDetected(FastbootMode::Bootloader)]);
    assert!(matches!(a.command, GsiCommand::ExtractFormatTools));

    let (f, a) = go(f, GsiReply::Done);
    assert_eq!(cancel_checks(&a), 1);
    assert_eq!(
        reports(&a),
        vec![
            GsiEvent::Step(GsiStep::PreparingVbmetaFlash),
            GsiEvent::Step(GsiStep::FlashingVbmeta),
        ]
    );
    assert!(matches!(a.command, GsiCommand::FlashEmptyVbmeta));

    let (f, a) = go(f, GsiReply::Done);
    assert_eq!(reports(&a), vec![GsiEvent::Step(GsiStep::WipingUserdata)]);
    assert!(matches!(a.command, GsiCommand::FormatData { clean_test: false }));

    let (f, a) = go(f, GsiReply::Done);
    assert_eq!(cancel_checks(&a), 1);
    assert!(matches!(a.command, GsiCommand::RebootAndWait(BootTarget::Fastboot)));

    let (f, a) = go(f, GsiReply::Mode(FastbootMode::Fastbootd));
    assert_eq!(reports(&a), vec![GsiEvent::ModeReady(FastbootMode::Fastbootd)]);
    assert!(matches!(a.command, GsiCommand::GetVar(ref v) if v == "current-slot"));

    let (f, a) = go(f, GsiReply::Text("b".into()));
    assert!(matches!(a.command, GsiCommand::GetVar(ref v) if v == "partition-size:system_b"));

    let (f, a) = go(f, GsiReply::Text("0xC800000".into()));
    assert_eq!(
        reports(&a),
        vec![
            GsiEvent::ResolvedPartition {
                base: "system",
                partition: "system_b".into(),
                size_bytes: 200 * MIB,
            },
            GsiEvent::Step(GsiStep::CheckingProductGsiFallback),
        ]
    );
    assert!(matches!(a.command, GsiCommand::ImageFileSize));

    let (f, a) = go(f, GsiReply::Size(90 * MIB));
    assert_eq!(
        reports(&a),
        vec![
            GsiEvent::Step(GsiStep::ProductGsiFallbackNotNeeded),
            GsiEvent::Step(GsiStep::FlashingSystemGsi),
            GsiEvent::Flashing { partition: "system_b".into(), size_bytes: 90 * MIB },
        ]
    );
    assert!(matches!(a.command, GsiCommand::FlashGsi(ref p) if p == "system_b"));

    let (f, a) = go(f, GsiReply::Done);
    assert_eq!(reports(&a), vec![GsiEvent::Step(GsiStep::GsiFlowComplete)]);
    assert!(matches!(a.command, GsiCommand::Reboot));

    let summary = finish(f, GsiReply::Done).unwrap();
    assert_eq!(
        summary,
        GsiFlashSummary { flash_count: 1, wipe_count: 0, skipped_count: 0, total_bytes: 90 * MIB }
    );
}

#[test]
fn from_fastbootd_with_product_fallback() {
    let (f, _) = GsiFlow::start(FastbootMode::Fastbootd, 300 * MIB + 5, true);
    let (f, a) = go(f, GsiReply::Done);
    assert!(matches!(a.command, GsiCommand::GetVar(ref v) if v == "current-slot"));
    let (f, a) = go(f, GsiReply::Failed(GsiError::Cancelled));
    assert!(matches!(a.command, GsiCommand::GetVar(ref v) if v == "partition-size:system_a"));
    let (f, a) = go(f, GsiReply::Text("0".into()));
    assert!(matches!(a.command, GsiCommand::GetVar(ref v) if v == "partition-size:system"));
    let (f, a) = go(f, GsiReply::Text("0x12C00000".into()));
    assert!(matches!(a.command, GsiCommand::ImageFileSize));
    let (f, a) = go(f, GsiReply::Size(250 * MIB));
    assert!(matches!(a.command, GsiCommand::IsLogical(ref p) if p == "product"));
    let (f, a) = go(f, GsiReply::Logical(true));
    assert!(matches!(a.command, GsiCommand::IsLogical(ref p) if p == "system"));
    let (f, a) = go(f, GsiReply::Logical(true));
    assert_eq!(cancel_checks(&a), 1);
    assert!(matches!(a.command, GsiCommand::Resize { ref partition, size } if partition == "product" && size == 64 * MIB));
    let (f, a) = go(f, GsiReply::Done);
    assert!(matches!(a.command, GsiCommand::Resize { ref partition, size } if partition == "system" && size == 300 * MIB + 5));
    let (f, a) = go(f, GsiReply::Done);
    assert_eq!(reports(&a), vec![GsiEvent::Step(GsiStep::GeneratingProductGsiImage)]);
    assert!(matches!(a.command, GsiCommand::GenerateProductGsi));
    let (f, a) = go(f, GsiReply::Done);
    assert_eq!(
        reports(&a),
        vec![
            GsiEvent::Step(GsiStep::FlashingProductGsi),
            GsiEvent::Flashing { partition: "product".into(), size_bytes: 64 * MIB },
        ]
    );
    assert!(matches!(a.command, GsiCommand::FlashProductGsi(ref p) if p == "product"));
    let (f, a) = go(f, GsiReply::Done);
    assert_eq!(
        reports(&a),
        vec![
            GsiEvent::Step(GsiStep::FlashingSystemGsi),
            GsiEvent::Flashing { partition: "system".into(), size_bytes: 250 * MIB },
        ]
    );
    assert!(matches!(a.command, GsiCommand::FlashGsi(ref p) if p == "system"));
    let (f, a) = go(f, GsiReply::Done);
    assert!(matches!(a.command, GsiCommand::RebootAndWait(BootTarget::Bootloader)));
    let (f, a) = go(f, GsiReply::Mode(FastbootMode::Bootloader));
    assert_eq!(
        reports(&a),
        vec![
            GsiEvent::ModeReady(FastbootMode::Bootloader),
            GsiEvent::Step(GsiStep::PreparingVbmetaFlash),
            GsiEvent::Step(GsiStep::FlashingVbmeta),
        ]
    );
    let (f, a) = go(f, GsiReply::Done);
    assert!(matches!(a.command, GsiCommand::FormatData { clean_test: true }));
    let (f, a) = go(f, GsiReply::Done);
    assert!(matches!(a.command, GsiCommand::Reboot));
    let summary = finish(f, GsiReply::Done).unwrap();
    assert_eq!(summary.flash_count, 2);
    assert_eq!(summary.total_bytes, 64 * MIB + 250 * MIB);
}

#[test]
fn logical_answers_skip_resizes() {
    let (f, _) = GsiFlow::start(FastbootMode::Fastbootd, 300 * MIB, false);
    let (f, _) = go(f, GsiReply::Done);
    let (f, _) = go(f, GsiReply::Text("a".into()));
    let (f, _) = go(f, GsiReply::Text("0x1000".into()));
    let (f, _) = go(f, GsiReply::Size(1));
    let (f, _) = go(f, GsiReply::Failed(GsiError::Cancelled));
    let (_, a) = go(f, GsiReply::Logical(false));
    assert_eq!(cancel_checks(&a), 2);
    assert!(matches!(a.command, GsiCommand::GenerateProductGsi));
}

#[test]
fn no_system_partition_fails() {
    let (f, _) = GsiFlow::start(FastbootMode::Fastbootd, MIB, false);
    let (f, _) = go(f, GsiReply::Done);
    let (f, _) = go(f, GsiReply::Text("a".into()));
    let (f, _) = go(f, GsiReply::Failed(GsiError::Cancelled));
    match finish(f, GsiReply::Text("garbage".into())) {
        Err(GsiError::PartitionResolution(m)) => {
            assert_eq!(m, "neither system_a nor system found in device partitions")
        }
        other => panic!("unexpected {other:?}"),
    }
}

#[test]
fn mode_switch_retried_once() {
    let (f, _) = GsiFlow::start(FastbootMode::Bootloader, MIB, false);
    let (f, _) = go(f, GsiReply::Done);
    let (f, _) = go(f, GsiReply::Done);
    let (f, a) = go(f, GsiReply::Done);
    assert!(matches!(a.command, GsiCommand::RebootAndWait(BootTarget::Fastboot)));
    let (f, a) = go(f, GsiReply::Mode(FastbootMode::Bootloader));
    assert!(matches!(a.command, GsiCommand::WaitForDevice));
    let (f, a) = go(f, GsiReply::Mode(FastbootMode::Bootloader));
    assert!(matches!(a.command, GsiCommand::RebootAndWait(BootTarget::Fastboot)));
    match finish(f, GsiReply::Mode(FastbootMode::Bootloader)) {
        Err(GsiError::PartitionResolution(m)) => assert_eq!(m, "device did not switch to fastbootd after retry"),
        other => panic!("unexpected {other:?}"),
    }
}

#[test]
fn failures_end_the_flow_and_wrong_replies_repeat() {
    let (f, _) = GsiFlow::start(FastbootMode::Bootloader, MIB, false);
    let (f, a) = go(f, GsiReply::Size(5));
    assert!(matches!(a.command, GsiCommand::ExtractFormatTools));
    assert!(a.prelude.is_empty());
    match finish(f, GsiReply::Failed(GsiError::FormatTools("boom".into()))) {
        Err(GsiError::FormatTools(m)) => assert_eq!(m, "boom"),
        other => panic!("unexpected {other:?}"),
    }
}

#[test]
fn resolve_system_partition_uses_slot() {
    let (f, _) = GsiFlow::start(FastbootMode::Fastbootd, MIB, false);
    let (f, _) = go(f, GsiReply::Done);
    let (f, a) = go(f, GsiReply::Text("b".into()));
    assert!(matches!(a.command, GsiCommand::GetVar(ref v) if v == "partition-size:system_b"));
    let (f, _) = go(f, GsiReply::Failed(GsiError::Cancelled));
    match finish(f, GsiReply::Failed(GsiError::Cancelled)) {
        Err(GsiError::PartitionResolution(msg)) => assert!(msg.contains("system"), "got: {msg}"),
        other => panic!("unexpected {other:?}"),
    }
}
