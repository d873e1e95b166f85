use pawflash::detect::{
    in_fastboot_mode, is_candidate_serial_port, is_permission_error, HostOs, SysfsInterface,
    UsbDeviceSummary,
};

#[test]
fn is_candidate_serial_port_should_accept_linux_acm() {
    assert!(is_candidate_serial_port(HostOs::Linux, "/dev/ttyACM0"));
}

#[test]
fn is_candidate_serial_port_should_reject_bogus_linux_path() {
    assert!(!is_candidate_serial_port(HostOs::Linux, "/dev/ttyS0"), "ttyS is not a preloader candidate");
}

#[test]
fn is_candidate_serial_port_should_reject_empty() {
    assert!(!is_candidate_serial_port(HostOs::Linux, ""));
}

#[test]
fn is_candidate_serial_port_per_platform() {
    assert!(is_candidate_serial_port(HostOs::Linux, "/dev/ttyUSB3"));
    assert!(is_candidate_serial_port(HostOs::Windows, "com7"));
    assert!(is_candidate_serial_port(HostOs::Windows, "COM12"));
    assert!(!is_candidate_serial_port(HostOs::Windows, "/dev/ttyACM0"));
    assert!(!is_candidate_serial_port(HostOs::Other, "/dev/ttyACM0"));
}

#[test]
fn permission_denied_via_message() {
    let err = std::io::Error::other("Permission denied");
    assert!(is_permission_error(&[err.to_string()]));
}

#[test]
fn not_permission_error() {
    let err = std::io::Error::new(std::io::ErrorKind::NotFound, "not found");
    assert!(!is_permission_error(&[err.to_string()]));
}

#[test]
fn empty_message() {
    let err = std::io::Error::other("");
    assert!(!is_permission_error(&[err.to_string()]));
}

#[test]
fn permission_error_found_in_source_chain() {
    let chain = vec!["failed to open serial port `COM3`".to_string(), "Access is denied.".to_string()];
    assert!(is_permission_error(&chain));
    assert!(is_permission_error(&["ACCESS DENIED".to_string()]));
    assert!(!is_permission_error(&[]));
}

#[test]
fn fastboot_detected_by_interface_product_or_sysfs() {
    let plain = UsbDeviceSummary { interfaces: vec![(0x08, 0x06, 0x50)], product: Some("Mass Storage".to_string()) };
    let fb_iface = UsbDeviceSummary { interfaces: vec![(0xff, 0x42, 0x03)], product: None };
    let fb_name = UsbDeviceSummary { interfaces: vec![], product: Some("Android Bootloader Interface".to_string()) };
    assert!(!in_fastboot_mode(&[plain.clone()], &[]));
    assert!(in_fastboot_mode(&[plain.clone(), fb_iface], &[]));
    assert!(in_fastboot_mode(&[fb_name], &[]));
    let sys = SysfsInterface {
        name: "1-2:1.0".to_string(),
        class: "FF\n".to_string(),
        subclass: "42\n".to_string(),
        protocol: " 03 ".to_string(),
    };
    assert!(in_fastboot_mode(&[plain.clone()], &[sys.clone()]));
    let not_iface = SysfsInterface { name: "1-2".to_string(), ..sys };
    assert!(!in_fastboot_mode(&[plain], &[not_iface]));
}
