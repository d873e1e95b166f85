use pawflash::detect::{
    candidate_ports, fastboot_device_line, poll_ports, recovery_step, HostOs, PortPoll,
    RecoveryAction, RecoveryEvent, RecoveryStage,
};
use pawflash::handshake::{Handshake, HandshakeCommand, HandshakeEnd, HandshakeEvent, HandshakeNext};

fn names(v: &[&str]) -> Vec<String> {
    v.iter().map(|s| s.to_string()).collect()
}

#[test]
fn candidate_ports_filter_and_dedup() {
    let got = candidate_ports(
        HostOs::Linux,
        &names(&["/dev/ttyS0", "/dev/ttyACM0", "/dev/ttyUSB1", "/dev/ttyACM0"]),
    );
    assert_eq!(got, names(&["/dev/ttyACM0", "/dev/ttyUSB1"]));
    let got = candidate_ports(HostOs::Windows, &names(&["com3", "LPT1", "COM4"]));
    assert_eq!(got, names(&["com3", "COM4"]));
    assert!(candidate_ports(HostOs::Other, &names(&["/dev/ttyACM0"])).is_empty());
}

#[test]
fn poll_finds_new_port() {
    let old = names(&["/dev/ttyACM0"]);
    match poll_ports(&old, &names(&["/dev/ttyACM0", "/dev/ttyACM1"])) {
        PortPoll::Appeared(p) => assert_eq!(p, "/dev/ttyACM1"),
        other => panic!("unexpected {other:?}"),
    }
    assert!(matches!(poll_ports(&old, &names(&[])), PortPoll::Changed));
    assert!(matches!(poll_ports(&old, &names(&["/dev/ttyACM0"])), PortPoll::Unchanged));
}

#[test]
fn device_line_format() {
    assert_eq!(
        fastboot_device_line(Some("0123456789ABCDEF"), 0x0e8d, 0x201c),
        "0123456789ABCDEF      \tfastboot\t0e8d:201c"
    );
    assert_eq!(fastboot_device_line(None, 0x18d1, 0x4ee0), format!("{:22}\tfastboot\t18d1:4ee0", "?"));
    let long = "X".repeat(30);
    assert_eq!(fastboot_device_line(Some(&long), 1, 0xffff), format!("{long}\tfastboot\t0001:ffff"));
}

#[test]
fn permission_recovery_sequence() {
    let s = RecoveryStage::FirstOpen;
    assert_eq!(recovery_step(s, RecoveryEvent::Opened), (s, RecoveryAction::ReturnLastOpen));
    assert_eq!(
        recovery_step(s, RecoveryEvent::OpenFailed { permission_denied: false }),
        (s, RecoveryAction::ReturnLastOpen)
    );
    let (s, a) = recovery_step(s, RecoveryEvent::OpenFailed { permission_denied: true });
    assert_eq!(a, RecoveryAction::InstallUdevRules);
    let (s, a) = recovery_step(s, RecoveryEvent::Applied(true));
    assert_eq!(a, RecoveryAction::Open);
    let (s, a) = recovery_step(s, RecoveryEvent::OpenFailed { permission_denied: true });
    assert_eq!(a, RecoveryAction::AddUserToGroup);
    let (s, a) = recovery_step(s, RecoveryEvent::Applied(false));
    assert_eq!(a, RecoveryAction::GuideThenOpen);
    assert_eq!(s, RecoveryStage::LastOpen);
    let (_, a) = recovery_step(s, RecoveryEvent::OpenFailed { permission_denied: true });
    assert_eq!(a, RecoveryAction::ReturnLastOpen);
}

fn next(h: Handshake, e: HandshakeEvent) -> (Handshake, HandshakeCommand) {
    match h.step(e) {
        HandshakeNext::Continue(h, c) => (h, c),
        HandshakeNext::Finished(end) => panic!("finished: {end:?}"),
    }
}

#[test]
fn handshake_already_in_fastboot() {
    let (h, c) = Handshake::new();
    assert!(matches!(c, HandshakeCommand::CheckFastboot));
    assert!(matches!(h.step(HandshakeEvent::Fastboot(true)), HandshakeNext::Finished(HandshakeEnd::AlreadyFastboot)));
}

#[test]
fn handshake_writes_until_fastboot() {
    let (h, _) = Handshake::new();
    let (h, c) = next(h, HandshakeEvent::Fastboot(false));
    assert!(matches!(c, HandshakeCommand::WaitForPreloader { check_fastboot: false }));
    let (h, c) = next(h, HandshakeEvent::Port(Some("/dev/ttyACM0".into())));
    assert!(matches!(c, HandshakeCommand::OpenThenWrite(ref p) if p == "/dev/ttyACM0"));
    let (h, c) = next(h, HandshakeEvent::Written(true));
    assert!(matches!(c, HandshakeCommand::CheckFastboot));
    let (h, c) = next(h, HandshakeEvent::Fastboot(false));
    assert!(matches!(c, HandshakeCommand::PauseThenWrite));
    let (h, _) = next(h, HandshakeEvent::Written(true));
    assert_eq!(h.sends, 2);
    assert!(matches!(h.step(HandshakeEvent::Fastboot(true)), HandshakeNext::Finished(HandshakeEnd::Reached { sends: 2 })));
}

#[test]
fn handshake_follows_lost_port() {
    let (h, _) = Handshake::new();
    let (h, _) = next(h, HandshakeEvent::Fastboot(false));
    let (h, _) = next(h, HandshakeEvent::Port(Some("COM3".into())));
    let (h, _) = next(h, HandshakeEvent::Written(true));
    let (h, _) = next(h, HandshakeEvent::Fastboot(false));
    let (h, c) = next(h, HandshakeEvent::Written(false));
    assert!(matches!(c, HandshakeCommand::CheckFastboot));
    let (h, c) = next(h, HandshakeEvent::Fastboot(false));
    assert!(matches!(c, HandshakeCommand::CloseAndWait));
    let (h, c) = next(h, HandshakeEvent::Port(Some("COM4".into())));
    assert!(matches!(c, HandshakeCommand::OpenThenWrite(ref p) if p == "COM4"));
    let (h, _) = next(h, HandshakeEvent::Written(false));
    let (h, _) = next(h, HandshakeEvent::Fastboot(false));
    assert!(matches!(h.step(HandshakeEvent::Port(None)), HandshakeNext::Finished(HandshakeEnd::Reached { sends: 1 })));
}

#[test]
fn handshake_without_port_or_on_error() {
    let (h, _) = Handshake::new();
    let (h, _) = next(h, HandshakeEvent::Fastboot(false));
    assert!(matches!(h.step(HandshakeEvent::Port(None)), HandshakeNext::Finished(HandshakeEnd::NoPort)));
    let (h, _) = Handshake::new();
    assert!(matches!(h.step(HandshakeEvent::Failed), HandshakeNext::Finished(HandshakeEnd::Aborted)));
}
