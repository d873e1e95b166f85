//! Recognising devices: preloader serial ports, fastboot USB interfaces,
//! and permission errors when opening a port.
use vstd::prelude::*;
use crate::text::{
    chars_of, contains_seq, has_prefix, lower_seq, range_contains, range_lower_eq, trim,
    trim_bounds, range_eq, ascii_lower_char, string_views, str_eq, string_from_chars, unicode_lowercase,
    unicode_lowered,
};
use crate::scatter::{hex_digit, hex_digit_char};

verus! {

/// The operating system the tool runs on, as far as device naming goes.
#[derive(Debug, Clone, Copy, PartialEq, Eq, Structural)]
pub enum HostOs {
    Windows,
    Linux,
    Other,
}

/// `s` ASCII-lowercased, as a vector.
fn lowered(s: &str) -> (r: Vec<char>)
    ensures
        r@ == lower_seq(s@),
{
    let v = chars_of(s);
    let mut out: Vec<char> = Vec::new();
    let mut i: usize = 0;
    while i < v.len()
        invariant
            i <= v.len(),
            v@ == s@,
            out@ =~= lower_seq(v@.take(i as int)),
        decreases v.len() - i,
    {
        out.push(ascii_lower_char(v[i]));
        i += 1;
        assert(out@ =~= lower_seq(v@.take(i as int)));
    }
    assert(v@.take(v.len() as int) =~= v@);
    out
}

/// `p` is a prefix of the characters of `v`.
fn vec_has_prefix(v: &Vec<char>, p: &str) -> (r: bool)
    ensures
        r == has_prefix(v@, p@),
{
    let pv = chars_of(p);
    if pv.len() > v.len() {
        false
    } else {
        range_eq(v, 0, pv.len(), &pv)
    }
}

/// Names of serial ports on which a MediaTek preloader can appear.
pub open spec fn spec_candidate_port(os: HostOs, name: Seq<char>) -> bool {
    match os {
        HostOs::Windows => has_prefix(lower_seq(name), "com"@),
        HostOs::Linux => has_prefix(name, "/dev/ttyACM"@) || has_prefix(name, "/dev/ttyUSB"@),
        HostOs::Other => false,
    }
}

/// Whether a serial port could be a preloader: `COMn` on Windows (any
/// case), `/dev/ttyACM*` or `/dev/ttyUSB*` on Linux, none elsewhere.
pub fn is_candidate_serial_port(os: HostOs, name: &str) -> (r: bool)
    ensures
        r == spec_candidate_port(os, name@),
{
    match os {
        HostOs::Windows => {
            let l = lowered(name);
            vec_has_prefix(&l, "com")
        },
        HostOs::Linux => {
            let v = chars_of(name);
            vec_has_prefix(&v, "/dev/ttyACM") || vec_has_prefix(&v, "/dev/ttyUSB")
        },
        HostOs::Other => false,
    }
}

/// A message that reports denied access.
pub open spec fn denies_access(msg: Seq<char>) -> bool {
    let l = unicode_lowercase(msg);
    contains_seq(l, "permission denied"@) || contains_seq(l, "access is denied"@)
        || contains_seq(l, "access denied"@)
}

/// Returns `true` if any message of an error's source chain (outermost
/// first) reports a denied permission: "permission denied", "access is
/// denied" or "access denied", in any case.
pub fn is_permission_error(chain: &[String]) -> (r: bool)
    ensures
        r == exists|i: int| 0 <= i < chain@.len() && denies_access(#[trigger] chain@[i]@),
{
    let p1 = chars_of("permission denied");
    let p2 = chars_of("access is denied");
    let p3 = chars_of("access denied");
    let mut i: usize = 0;
    while i < chain.len()
        invariant
            i <= chain@.len(),
            p1@ == "permission denied"@,
            p2@ == "access is denied"@,
            p3@ == "access denied"@,
            forall|k: int| 0 <= k < i ==> !denies_access(#[trigger] chain@[k]@),
        decreases chain@.len() - i,
    {
        let l = chars_of(unicode_lowered(chain[i].as_str()).as_str());
        assert(l@.subrange(0, l@.len() as int) =~= l@);
        if range_contains(&l, 0, l.len(), &p1) || range_contains(&l, 0, l.len(), &p2)
            || range_contains(&l, 0, l.len(), &p3) {
            return true;
        }
        i += 1;
    }
    false
}

/// USB interface class, subclass and protocol of a fastboot interface.
pub open spec fn spec_fastboot_interface(class: u8, subclass: u8, protocol: u8) -> bool {
    class == 0xff && subclass == 0x42 && protocol == 0x03
}

/// Whether an interface is the fastboot interface (ff/42/03).
pub fn is_fastboot_interface(class: u8, subclass: u8, protocol: u8) -> (r: bool)
    ensures
        r == spec_fastboot_interface(class, subclass, protocol),
{
    class == 0xff && subclass == 0x42 && protocol == 0x03
}

/// What USB enumeration tells about one device.
#[derive(Debug, Clone)]
pub struct UsbDeviceSummary {
    /// (class, subclass, protocol) of each interface.
    pub interfaces: Vec<(u8, u8, u8)>,
    /// Product string, when the device has one.
    pub product: Option<String>,
}

/// A product string that names a fastboot or bootloader device.
pub open spec fn spec_fastboot_product(p: Seq<char>) -> bool {
    contains_seq(lower_seq(p), "fastboot"@) || contains_seq(lower_seq(p), "bootloader"@)
}

/// A device is in fastboot mode when one interface is the fastboot
/// interface or its product string mentions fastboot or bootloader.
pub open spec fn spec_usb_fastboot(d: UsbDeviceSummary) -> bool {
    (exists|i: int|
        0 <= i < d.interfaces@.len() && #[trigger] spec_fastboot_interface(
            d.interfaces@[i].0,
            d.interfaces@[i].1,
            d.interfaces@[i].2,
        )) || spec_fastboot_product(
        match d.product {
            Some(p) => p@,
            None => Seq::<char>::empty(),
        },
    )
}

/// Whether an enumerated USB device is a fastboot device.
pub fn usb_device_in_fastboot(d: &UsbDeviceSummary) -> (r: bool)
    ensures
        r == spec_usb_fastboot(*d),
{
    let mut i: usize = 0;
    while i < d.interfaces.len()
        invariant
            i <= d.interfaces@.len(),
            forall|k: int|
                0 <= k < i ==> !#[trigger] spec_fastboot_interface(
                    d.interfaces@[k].0,
                    d.interfaces@[k].1,
                    d.interfaces@[k].2,
                ),
        decreases d.interfaces@.len() - i,
    {
        let (c, s, p) = d.interfaces[i];
        if is_fastboot_interface(c, s, p) {
            return true;
        }
        i += 1;
    }
    let product: &str = match &d.product {
        Some(p) => p.as_str(),
        None => "",
    };
    let l = lowered(product);
    let f = chars_of("fastboot");
    let b = chars_of("bootloader");
    assert(l@.subrange(0, l@.len() as int) =~= l@);
    proof {
        if d.product is None {
            assert(product@ =~= Seq::<char>::empty()) by {
                reveal_strlit("");
            }
        }
    }
    range_contains(&l, 0, l.len(), &f) || range_contains(&l, 0, l.len(), &b)
}

/// One USB interface directory of `/sys/bus/usb/devices`, with the raw
/// contents of its class files (empty when a file could not be read).
#[derive(Debug, Clone)]
pub struct SysfsInterface {
    pub name: String,
    pub class: String,
    pub subclass: String,
    pub protocol: String,
}

/// A sysfs attribute value as compared: trimmed and ASCII-lowercased.
pub open spec fn attr_value(s: Seq<char>) -> Seq<char> {
    lower_seq(trim(s))
}

/// An interface entry (its name holds `:`) whose class files read
/// `ff`, `42` and `03`.
pub open spec fn spec_sysfs_fastboot(i: SysfsInterface) -> bool {
    contains_seq(i.name@, ":"@) && attr_value(i.class@) == "ff"@ && attr_value(i.subclass@)
        == "42"@ && attr_value(i.protocol@) == "03"@
}

fn attr_is(raw: &str, want: &str) -> (r: bool)
    ensures
        r == (attr_value(raw@) == want@),
{
    let v = chars_of(raw);
    let (i, j) = trim_bounds(&v);
    let w = chars_of(want);
    range_lower_eq(&v, i, j, &w)
}

/// Whether a sysfs interface entry is a fastboot interface.
pub fn sysfs_interface_is_fastboot(i: &SysfsInterface) -> (r: bool)
    ensures
        r == spec_sysfs_fastboot(*i),
{
    let n = chars_of(i.name.as_str());
    let colon = chars_of(":");
    assert(n@.subrange(0, n@.len() as int) =~= n@);
    range_contains(&n, 0, n.len(), &colon) && attr_is(i.class.as_str(), "ff") && attr_is(
        i.subclass.as_str(),
        "42",
    ) && attr_is(i.protocol.as_str(), "03")
}

/// A device is in fastboot mode when USB enumeration or sysfs shows one.
pub fn in_fastboot_mode(usb: &[UsbDeviceSummary], sysfs: &[SysfsInterface]) -> (r: bool)
    ensures
        r == ((exists|i: int| 0 <= i < usb@.len() && spec_usb_fastboot(#[trigger] usb@[i])) || (
        exists|i: int| 0 <= i < sysfs@.len() && spec_sysfs_fastboot(#[trigger] sysfs@[i]))),
{
    let mut i: usize = 0;
    while i < usb.len()
        invariant
            i <= usb@.len(),
            forall|k: int| 0 <= k < i ==> !spec_usb_fastboot(#[trigger] usb@[k]),
        decreases usb@.len() - i,
    {
        if usb_device_in_fastboot(&usb[i]) {
            return true;
        }
        i += 1;
    }
    let mut j: usize = 0;
    while j < sysfs.len()
        invariant
            j <= sysfs@.len(),
            forall|k: int| 0 <= k < usb@.len() ==> !spec_usb_fastboot(#[trigger] usb@[k]),
            forall|k: int| 0 <= k < j ==> !spec_sysfs_fastboot(#[trigger] sysfs@[k]),
        decreases sysfs@.len() - j,
    {
        if sysfs_interface_is_fastboot(&sysfs[j]) {
            return true;
        }
        j += 1;
    }
    false
}


// ── Serial port sets ─────────────────────────────────────────────────

/// `name` is one of the strings of `v`.
pub open spec fn names_contain(v: Seq<String>, name: Seq<char>) -> bool {
    string_views(v).contains(name)
}

fn find_name(v: &Vec<String>, name: &str) -> (r: bool)
    ensures
        r == names_contain(v@, name@),
{
    let mut i: usize = 0;
    while i < v.len()
        invariant
            i <= v.len(),
            forall|k: int| 0 <= k < i ==> #[trigger] v@[k]@ != name@,
        decreases v.len() - i,
    {
        if str_eq(v[i].as_str(), name) {
            assert(string_views(v@)[i as int] == name@);
            return true;
        }
        i += 1;
    }
    proof {
        if string_views(v@).contains(name@) {
            let k = choose|k: int| 0 <= k < string_views(v@).len() && string_views(v@)[k] == name@;
            assert(v@[k]@ == name@);
        }
    }
    false
}

/// The candidate preloader ports among the enumerated port names, each
/// once.
pub fn candidate_ports(os: HostOs, names: &Vec<String>) -> (r: Vec<String>)
    ensures
        forall|n: Seq<char>| #[trigger] names_contain(r@, n) <==> (names_contain(names@, n)
            && spec_candidate_port(os, n)),
        string_views(r@).no_duplicates(),
{
    let mut out: Vec<String> = Vec::new();
    let mut i: usize = 0;
    while i < names.len()
        invariant
            i <= names.len(),
            forall|n: Seq<char>| #[trigger] names_contain(out@, n) <==> (string_views(names@.take(i as int)).contains(n)
                && spec_candidate_port(os, n)),
            string_views(out@).no_duplicates(),
        decreases names.len() - i,
    {
        let name = &names[i];
        let ghost old_out = out@;
        let ghost before = string_views(out@);
        let ghost cur = string_views(names@.take(i as int));
        let ghost nxt = string_views(names@.take(i + 1));
        proof {
            assert(nxt =~= cur.push(name@));
        }
        if is_candidate_serial_port(os, name.as_str()) && !find_name(&out, name.as_str()) {
            out.push(name.clone());
            proof {
                let after = string_views(out@);
                assert(after =~= before.push(name@));
                assert forall|n: Seq<char>| #[trigger] names_contain(out@, n) <==> (nxt.contains(n)
                    && spec_candidate_port(os, n)) by {
                    assert(names_contain(old_out, n) <==> (cur.contains(n) && spec_candidate_port(os, n)));
                    if before.contains(n) {
                        let k = choose|k: int| 0 <= k < before.len() && before[k] == n;
                        assert(after[k] == n);
                    }
                    if cur.contains(n) {
                        let k = choose|k: int| 0 <= k < cur.len() && cur[k] == n;
                        assert(nxt[k] == n);
                    }
                    if n == name@ {
                        assert(after[before.len() as int] == n);
                        assert(nxt[i as int] == n);
                    }
                    if after.contains(n) && n != name@ {
                        let k = choose|k: int| 0 <= k < after.len() && after[k] == n;
                        assert(before[k] == n);
                    }
                    if nxt.contains(n) && n != name@ {
                        let k = choose|k: int| 0 <= k < nxt.len() && nxt[k] == n;
                        assert(cur[k] == n);
                    }
                }
            }
        } else {
            proof {
                assert forall|n: Seq<char>| #[trigger] names_contain(out@, n) <==> (nxt.contains(n)
                    && spec_candidate_port(os, n)) by {
                    assert(names_contain(old_out, n) <==> (cur.contains(n) && spec_candidate_port(os, n)));
                    if cur.contains(n) {
                        let k = choose|k: int| 0 <= k < cur.len() && cur[k] == n;
                        assert(nxt[k] == n);
                    }
                    if nxt.contains(n) && n != name@ {
                        let k = choose|k: int| 0 <= k < nxt.len() && nxt[k] == n;
                        assert(cur[k] == n);
                    }
                }
            }
        }
        i += 1;
    }
    assert(names@.take(names.len() as int) =~= names@);
    out
}

/// What a new look at the serial ports shows, against the baseline.
#[derive(Debug)]
pub enum PortPoll {
    /// A port that the baseline did not have.
    Appeared(String),
    /// No port is new, but some are gone: the new set becomes the baseline.
    Changed,
    /// Nothing changed.
    Unchanged,
}

fn first_missing(from: &Vec<String>, other: &Vec<String>) -> (r: Option<usize>)
    ensures
        r matches Some(i) ==> i < from.len() && !names_contain(other@, from@[i as int]@),
        r is None ==> forall|k: int| 0 <= k < from.len() ==> names_contain(other@, #[trigger] from@[k]@),
{
    let mut i: usize = 0;
    while i < from.len()
        invariant
            i <= from.len(),
            forall|k: int| 0 <= k < i ==> names_contain(other@, #[trigger] from@[k]@),
        decreases from.len() - i,
    {
        if !find_name(other, from[i].as_str()) {
            return Some(i);
        }
        i += 1;
    }
    None
}

/// Compare the ports seen now with the baseline while waiting for a
/// preloader: any port not in the baseline is the preloader.
pub fn poll_ports(old: &Vec<String>, new: &Vec<String>) -> (r: PortPoll)
    ensures
        r is Appeared <==> exists|i: int| 0 <= i < new@.len() && !names_contain(old@, #[trigger] new@[i]@),
        r matches PortPoll::Appeared(p) ==> names_contain(new@, p@) && !names_contain(old@, p@),
        r is Changed <==> (forall|i: int| 0 <= i < new@.len() ==> names_contain(old@, #[trigger] new@[i]@))
            && exists|i: int| 0 <= i < old@.len() && !names_contain(new@, #[trigger] old@[i]@),
{
    match first_missing(new, old) {
        Some(i) => {
            assert(string_views(new@)[i as int] == new@[i as int]@);
            PortPoll::Appeared(new[i].clone())
        },
        None => match first_missing(old, new) {
            Some(_) => PortPoll::Changed,
            None => PortPoll::Unchanged,
        },
    }
}

// ── Device listing ───────────────────────────────────────────────────

/// `s` padded with spaces on the right to at least `w` characters.
pub open spec fn pad_right(s: Seq<char>, w: nat) -> Seq<char> {
    if s.len() >= w {
        s
    } else {
        s + Seq::new((w - s.len()) as nat, |i: int| ' ')
    }
}

/// Four lowercase hexadecimal digits.
pub open spec fn hex4(v: u16) -> Seq<char> {
    seq![
        hex_digit(((v / 4096) % 16) as nat),
        hex_digit(((v / 256) % 16) as nat),
        hex_digit(((v / 16) % 16) as nat),
        hex_digit((v % 16) as nat),
    ]
}

/// The line listing a fastboot device: its serial (or `?`) padded to 22
/// characters, `fastboot`, and `vid:pid` in hex, separated by tabs.
pub open spec fn device_line(serial: Option<Seq<char>>, vid: u16, pid: u16) -> Seq<char> {
    pad_right(
        match serial {
            Some(s) => s,
            None => "?"@,
        },
        22,
    ) + "\tfastboot\t"@ + hex4(vid) + ":"@ + hex4(pid)
}

fn push_str_chars(v: &mut Vec<char>, s: &str)
    ensures
        final(v)@ == old(v)@ + s@,
{
    let w = chars_of(s);
    let ghost base = v@;
    let mut i: usize = 0;
    while i < w.len()
        invariant
            i <= w.len(),
            v@ == base + w@.take(i as int),
        decreases w.len() - i,
    {
        v.push(w[i]);
        assert(w@.take(i + 1) =~= w@.take(i as int).push(w@[i as int]));
        i += 1;
    }
    assert(w@.take(w.len() as int) =~= w@);
}

fn push_hex4(v: &mut Vec<char>, x: u16)
    ensures
        final(v)@ == old(v)@ + hex4(x),
{
    let ghost base = v@;
    v.push(hex_digit_char(((x / 4096) % 16) as u8));
    v.push(hex_digit_char(((x / 256) % 16) as u8));
    v.push(hex_digit_char(((x / 16) % 16) as u8));
    v.push(hex_digit_char((x % 16) as u8));
    assert(v@ =~= base + hex4(x));
}

/// The listing line of one fastboot device.
pub fn fastboot_device_line(serial: Option<&str>, vid: u16, pid: u16) -> (r: String)
    ensures
        r@ == device_line(
            match serial {
                Some(s) => Some(s@),
                None => None,
            },
            vid,
            pid,
        ),
{
    let s: &str = match serial {
        Some(s) => s,
        None => "?",
    };
    let mut v = chars_of(s);
    let ghost sv = v@;
    while v.len() < 22
        invariant
            v@.len() <= 22 ==> v@ =~= sv + Seq::new((v@.len() - sv.len()) as nat, |i: int| ' '),
            v@.len() >= sv.len(),
            sv.len() < 22 ==> v@.len() <= 22,
            sv.len() >= 22 ==> v@ == sv,
        decreases 22 - v.len(),
    {
        let ghost before = v@;
        v.push(' ');
        assert(v@ =~= sv + Seq::new((v@.len() - sv.len()) as nat, |i: int| ' '));
    }
    assert(v@ =~= pad_right(sv, 22));
    push_str_chars(&mut v, "\tfastboot\t");
    push_hex4(&mut v, vid);
    push_str_chars(&mut v, ":");
    push_hex4(&mut v, pid);
    string_from_chars(&v)
}

// ── Opening a port with permission recovery ──────────────────────────

/// Where the recovery of a denied serial port stands.
#[derive(Debug, Clone, Copy, PartialEq, Eq, Structural)]
pub enum RecoveryStage {
    /// The first attempt to open the port.
    FirstOpen,
    /// Installing udev rules.
    InstallingRules,
    /// Opening again after the rules were installed.
    OpenAfterRules,
    /// Adding the user to the serial group.
    AddingToGroup,
    /// Opening again after the group change.
    OpenAfterGroup,
    /// The last attempt, after printing manual guidance.
    LastOpen,
}

/// What the caller does next.
#[derive(Debug, Clone, Copy, PartialEq, Eq, Structural)]
pub enum RecoveryAction {
    /// Try to open the port.
    Open,
    /// Install the udev rules; answer whether that worked.
    InstallUdevRules,
    /// Add the user to the serial group; answer whether that worked.
    AddUserToGroup,
    /// Print how to fix the permissions by hand, then try to open.
    GuideThenOpen,
    /// Return the result of the last open.
    ReturnLastOpen,
}

/// The caller's answer.
#[derive(Debug, Clone, Copy, PartialEq, Eq, Structural)]
pub enum RecoveryEvent {
    /// The port opened.
    Opened,
    /// Opening failed; whether the error denies permission.
    OpenFailed { permission_denied: bool },
    /// A fix was applied (`true`) or not.
    Applied(bool),
}

/// The recovery's next stage and action.
pub open spec fn spec_recovery(s: RecoveryStage, e: RecoveryEvent) -> (RecoveryStage, RecoveryAction) {
    match (s, e) {
        (RecoveryStage::FirstOpen, RecoveryEvent::OpenFailed { permission_denied: true }) => (
            RecoveryStage::InstallingRules,
            RecoveryAction::InstallUdevRules,
        ),
        (RecoveryStage::InstallingRules, RecoveryEvent::Applied(true)) => (
            RecoveryStage::OpenAfterRules,
            RecoveryAction::Open,
        ),
        (RecoveryStage::InstallingRules, RecoveryEvent::Applied(false)) => (
            RecoveryStage::AddingToGroup,
            RecoveryAction::AddUserToGroup,
        ),
        (RecoveryStage::OpenAfterRules, RecoveryEvent::OpenFailed { .. }) => (
            RecoveryStage::AddingToGroup,
            RecoveryAction::AddUserToGroup,
        ),
        (RecoveryStage::AddingToGroup, RecoveryEvent::Applied(true)) => (
            RecoveryStage::OpenAfterGroup,
            RecoveryAction::Open,
        ),
        (RecoveryStage::AddingToGroup, RecoveryEvent::Applied(false)) => (
            RecoveryStage::LastOpen,
            RecoveryAction::GuideThenOpen,
        ),
        (RecoveryStage::OpenAfterGroup, RecoveryEvent::OpenFailed { .. }) => (
            RecoveryStage::LastOpen,
            RecoveryAction::GuideThenOpen,
        ),
        (RecoveryStage::InstallingRules, _) | (RecoveryStage::AddingToGroup, _) => (s, if s
            == RecoveryStage::InstallingRules {
            RecoveryAction::InstallUdevRules
        } else {
            RecoveryAction::AddUserToGroup
        }),
        (_, RecoveryEvent::Applied(_)) => (s, if s == RecoveryStage::LastOpen {
            RecoveryAction::GuideThenOpen
        } else {
            RecoveryAction::Open
        }),
        _ => (s, RecoveryAction::ReturnLastOpen),
    }
}

/// Decide the next move of a port opening with permission recovery. A
/// successful open ends it; so does a failure that is not a permission
/// problem, and any result of the last attempt. Otherwise udev rules are
/// installed and the port retried, then the user is added to the serial
/// group and the port retried, and finally the port is opened once more
/// after printing guidance. An answer of the wrong kind repeats the
/// action.
pub fn recovery_step(s: RecoveryStage, e: RecoveryEvent) -> (r: (RecoveryStage, RecoveryAction))
    ensures
        r == spec_recovery(s, e),
{
    match (s, e) {
        (RecoveryStage::FirstOpen, RecoveryEvent::OpenFailed { permission_denied: true }) => (
            RecoveryStage::InstallingRules,
            RecoveryAction::InstallUdevRules,
        ),
        (RecoveryStage::InstallingRules, RecoveryEvent::Applied(true)) => (
            RecoveryStage::OpenAfterRules,
            RecoveryAction::Open,
        ),
        (RecoveryStage::InstallingRules, RecoveryEvent::Applied(false)) => (
            RecoveryStage::AddingToGroup,
            RecoveryAction::AddUserToGroup,
        ),
        (RecoveryStage::OpenAfterRules, RecoveryEvent::OpenFailed { .. }) => (
            RecoveryStage::AddingToGroup,
            RecoveryAction::AddUserToGroup,
        ),
        (RecoveryStage::AddingToGroup, RecoveryEvent::Applied(true)) => (
            RecoveryStage::OpenAfterGroup,
            RecoveryAction::Open,
        ),
        (RecoveryStage::AddingToGroup, RecoveryEvent::Applied(false)) => (
            RecoveryStage::LastOpen,
            RecoveryAction::GuideThenOpen,
        ),
        (RecoveryStage::OpenAfterGroup, RecoveryEvent::OpenFailed { .. }) => (
            RecoveryStage::LastOpen,
            RecoveryAction::GuideThenOpen,
        ),
        (RecoveryStage::InstallingRules, _) => (s, RecoveryAction::InstallUdevRules),
        (RecoveryStage::AddingToGroup, _) => (s, RecoveryAction::AddUserToGroup),
        (RecoveryStage::LastOpen, RecoveryEvent::Applied(_)) => (s, RecoveryAction::GuideThenOpen),
        (_, RecoveryEvent::Applied(_)) => (s, RecoveryAction::Open),
        _ => (s, RecoveryAction::ReturnLastOpen),
    }
}

} // verus!
