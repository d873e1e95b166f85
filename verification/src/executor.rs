//! Decisions of the fastboot flash executor: reboot targets, device
//! serial checks, download-size limits, how an image is sent, slot targets
//! for raw flashing, and the tally of a flash plan.
use vstd::prelude::*;
use crate::errors::FlashError;
use crate::num::{radix_parse, spec_decimal_u32};
use crate::text::{has_prefix, str_eq, owned, concat_str, decimal_string, decimal_chars};

verus! {

/// Reboot target modes understood by fastboot.
#[derive(Debug, Clone, Copy, PartialEq, Eq, Structural)]
pub enum BootTarget {
    System,
    Bootloader,
    Fastboot,
    Recovery,
}

/// Word sent to the device for each reboot target.
pub open spec fn boot_target_text(t: BootTarget) -> Seq<char> {
    match t {
        BootTarget::System => "system"@,
        BootTarget::Bootloader => "bootloader"@,
        BootTarget::Fastboot => "fastboot"@,
        BootTarget::Recovery => "recovery"@,
    }
}

impl BootTarget {
    /// The word for this target (`reboot-<word>`).
    pub fn as_str(&self) -> (r: &'static str)
        ensures
            r@ == boot_target_text(*self),
    {
        match self {
            BootTarget::System => "system",
            BootTarget::Bootloader => "bootloader",
            BootTarget::Fastboot => "fastboot",
            BootTarget::Recovery => "recovery",
        }
    }
}

/// Target named by a user: `fastbootd` and `fastboot` both mean fastbootd.
pub open spec fn spec_parse_boot_target(s: Seq<char>) -> Option<BootTarget> {
    if s == "system"@ {
        Some(BootTarget::System)
    } else if s == "bootloader"@ {
        Some(BootTarget::Bootloader)
    } else if s == "fastbootd"@ || s == "fastboot"@ {
        Some(BootTarget::Fastboot)
    } else if s == "recovery"@ {
        Some(BootTarget::Recovery)
    } else {
        None
    }
}

/// Parse a reboot target given by the user; unknown words give `None`.
pub fn parse_boot_target(s: &str) -> (r: Option<BootTarget>)
    ensures
        r == spec_parse_boot_target(s@),
{
    if str_eq(s, "system") {
        Some(BootTarget::System)
    } else if str_eq(s, "bootloader") {
        Some(BootTarget::Bootloader)
    } else if str_eq(s, "fastbootd") || str_eq(s, "fastboot") {
        Some(BootTarget::Fastboot)
    } else if str_eq(s, "recovery") {
        Some(BootTarget::Recovery)
    } else {
        None
    }
}

/// The parsed target of a word is named by that word (for the words that
/// are not aliases).
pub proof fn law_boot_target_roundtrip(t: BootTarget)
    ensures
        spec_parse_boot_target(boot_target_text(t)) == Some(t),
{
    reveal_strlit("system");
    reveal_strlit("bootloader");
    reveal_strlit("fastboot");
    reveal_strlit("fastbootd");
    reveal_strlit("recovery");
    assert("recovery"@[0] != "fastboot"@[0]);
    assert("system"@.len() != "bootloader"@.len());
}

/// A valid A/B slot name.
/// Reboot targets offered after an interactive flash, the first meaning
/// no reboot.
pub fn reboot_menu() -> (r: Vec<&'static str>)
    ensures
        r@.len() == 5,
        r@[0]@ == "none (skip)"@,
        r@[1]@ == "system"@,
        r@[2]@ == "recovery"@,
        r@[3]@ == "bootloader"@,
        r@[4]@ == "fastbootd"@,
{
    vec!["none (skip)", "system", "recovery", "bootloader", "fastbootd"]
}

/// The reboot a menu choice asks for; any other choice reboots nowhere.
pub open spec fn spec_reboot_choice(s: Seq<char>) -> Option<BootTarget> {
    if s == "system"@ {
        Some(BootTarget::System)
    } else if s == "recovery"@ {
        Some(BootTarget::Recovery)
    } else if s == "bootloader"@ {
        Some(BootTarget::Bootloader)
    } else if s == "fastbootd"@ {
        Some(BootTarget::Fastboot)
    } else {
        None
    }
}

/// The reboot for a choice from [`reboot_menu`].
pub fn reboot_choice(s: &str) -> (r: Option<BootTarget>)
    ensures
        r == spec_reboot_choice(s@),
{
    if str_eq(s, "system") {
        Some(BootTarget::System)
    } else if str_eq(s, "recovery") {
        Some(BootTarget::Recovery)
    } else if str_eq(s, "bootloader") {
        Some(BootTarget::Bootloader)
    } else if str_eq(s, "fastbootd") {
        Some(BootTarget::Fastboot)
    } else {
        None
    }
}

pub open spec fn is_slot(s: Seq<char>) -> bool {
    s == "a"@ || s == "b"@
}

/// Whether `s` names slot `a` or `b`.
pub fn is_valid_slot(s: &str) -> (r: bool)
    ensures
        r == is_slot(s@),
{
    str_eq(s, "a") || str_eq(s, "b")
}

/// How a device's reported serial compares with the one asked for.
#[derive(Debug, Clone, Copy, PartialEq, Eq, Structural)]
pub enum SerialCheck {
    /// No serial was asked for.
    NotRequested,
    /// The device reported the serial asked for.
    Matches,
    /// The device reported no serial; the connection proceeds.
    Unreported,
}

/// Whether a USB device passes the `--serial` filter.
pub fn passes_serial_filter(expected: Option<&str>, device_serial: Option<&str>) -> (r: bool)
    ensures
        r == match expected {
            None => true,
            Some(e) => device_serial is Some && device_serial->0@ == e@,
        },
{
    match expected {
        None => true,
        Some(e) => match device_serial {
            Some(s) => str_eq(s, e),
            None => false,
        },
    }
}

/// Compare the `serialno` a device reported with the expected serial.
pub fn check_device_serial(expected: Option<&str>, reported: Option<&str>) -> (r: Result<
    SerialCheck,
    FlashError,
>)
    ensures
        expected is None ==> r == Ok::<SerialCheck, FlashError>(SerialCheck::NotRequested),
        expected is Some && reported is None ==> r == Ok::<SerialCheck, FlashError>(
            SerialCheck::Unreported,
        ),
        expected is Some && reported is Some ==> if reported->0@ == expected->0@ {
            r == Ok::<SerialCheck, FlashError>(SerialCheck::Matches)
        } else {
            r is Err && r->Err_0 is DeviceMismatch && r->Err_0->DeviceMismatch_expected@ == expected->0@
                && r->Err_0->DeviceMismatch_actual@ == reported->0@
        },
{
    match expected {
        None => Ok(SerialCheck::NotRequested),
        Some(e) => match reported {
            None => Ok(SerialCheck::Unreported),
            Some(s) => if str_eq(s, e) {
                Ok(SerialCheck::Matches)
            } else {
                Err(FlashError::DeviceMismatch { expected: owned(e), actual: owned(s) })
            },
        },
    }
}

/// Variables queried one by one when `getvar:all` gives nothing.
pub fn fallback_var_names() -> (r: Vec<&'static str>)
    ensures
        r@.len() == 5,
        r@[0]@ == "version"@,
        r@[1]@ == "product"@,
        r@[2]@ == "serialno"@,
        r@[3]@ == "current-slot"@,
        r@[4]@ == "max-download-size"@,
{
    vec!["version", "product", "serialno", "current-slot", "max-download-size"]
}

/// What `fastboot_protocol::protocol::parse_u32` gives: hex after a `0x`
/// prefix, decimal otherwise.
pub open spec fn spec_parse_u32(s: Seq<char>) -> Option<nat> {
    if has_prefix(s, "0x"@) {
        radix_parse(s.skip(2), 16, u32::MAX as nat)
    } else {
        spec_decimal_u32(s)
    }
}

/// Calls `fastboot_protocol::protocol::parse_u32`, which reads hex after a
/// `0x` prefix and decimal otherwise (`u32::from_str_radix` semantics);
/// the contract states that as its source shows it.
#[verifier::external_body]
fn fastboot_parse_u32(s: &str) -> (r: Option<u32>)
    ensures
        match r {
            Some(v) => spec_parse_u32(s@) == Some(v as nat),
            None => spec_parse_u32(s@) is None,
        },
{
    fastboot_protocol::protocol::parse_u32(s).ok()
}

/// Download size used when the device does not report a usable one.
pub const DEFAULT_MAX_DOWNLOAD: u32 = 256 * 1024 * 1024;

/// Smallest download size accepted from a device.
pub const MIN_MAX_DOWNLOAD: u32 = 1024 * 1024;

/// The device's `max-download-size`, or the default when it is missing or
/// unreadable.
pub open spec fn spec_max_download(raw: Option<Seq<char>>) -> u32 {
    match raw {
        Some(s) => match spec_parse_u32(s) {
            Some(v) => v as u32,
            None => DEFAULT_MAX_DOWNLOAD,
        },
        None => DEFAULT_MAX_DOWNLOAD,
    }
}

/// Read a `max-download-size` answer (if the query succeeded).
pub fn max_download_or_default(raw: Option<&str>) -> (r: u32)
    ensures
        r == spec_max_download(
            match raw {
                Some(s) => Some(s@),
                None => None,
            },
        ),
{
    match raw {
        Some(s) => match fastboot_parse_u32(s) {
            Some(v) => v,
            None => DEFAULT_MAX_DOWNLOAD,
        },
        None => DEFAULT_MAX_DOWNLOAD,
    }
}

/// `max-download-size` checked for being usable: a value below 1 MiB is
/// refused.
pub fn checked_max_download(raw: Option<&str>) -> (r: Result<u32, FlashError>)
    ensures
        ({
            let v = spec_max_download(
                match raw {
                    Some(s) => Some(s@),
                    None => None,
                },
            );
            if v < MIN_MAX_DOWNLOAD {
                r is Err && r->Err_0 is ActionFailed && r->Err_0->ActionFailed_partition@
                    == "(global)"@ && r->Err_0->ActionFailed_reason@ == "device max-download-size ("@
                    + decimal_chars(v as nat) + ") is unreasonably small"@
            } else {
                r == Ok::<u32, FlashError>(v)
            }
        }),
{
    let val = max_download_or_default(raw);
    if val < MIN_MAX_DOWNLOAD {
        let n = decimal_string(val as u64);
        let head = concat_str("device max-download-size (", n.as_str());
        let reason = concat_str(head.as_str(), ") is unreasonably small");
        return Err(FlashError::ActionFailed { partition: owned("(global)"), reason });
    }
    Ok(val)
}

/// How an image file is sent to a partition.
#[derive(Debug, Clone, Copy, PartialEq, Eq, Structural)]
pub enum FlashRoute {
    /// Already a sparse image: split it and send the pieces.
    Sparse,
    /// Too big for one download: wrap in sparse format and send in pieces.
    SparseWrapped,
    /// Send in one download of `size` bytes.
    Raw { size: u32 },
}

/// Route for an image of `file_len` bytes given the download limit: a
/// sparse image is split; another one is sent whole when it fits in one
/// download (sizes beyond `u32` count as `u32::MAX`), else wrapped.
pub open spec fn spec_route(is_sparse: bool, file_len: u64, max_download: u32) -> FlashRoute {
    if is_sparse {
        FlashRoute::Sparse
    } else {
        let size: u32 = if file_len <= u32::MAX {
            file_len as u32
        } else {
            u32::MAX
        };
        if size > max_download {
            FlashRoute::SparseWrapped
        } else {
            FlashRoute::Raw { size }
        }
    }
}

/// Route for an image of `file_len` bytes given the download limit.
pub fn route_image(is_sparse: bool, file_len: u64, max_download: u32) -> (r: FlashRoute)
    ensures
        r == spec_route(is_sparse, file_len, max_download),
{
    if is_sparse {
        return FlashRoute::Sparse;
    }
    let size: u32 = if file_len <= u32::MAX as u64 {
        file_len as u32
    } else {
        u32::MAX
    };
    if size > max_download {
        FlashRoute::SparseWrapped
    } else {
        FlashRoute::Raw { size }
    }
}

/// One step of writing an image file to a partition.
#[derive(Debug, Clone, Copy, PartialEq, Eq, Structural)]
pub enum FlashStep {
    /// Erase the partition.
    Erase,
    /// Download and flash the image by this route.
    Send(FlashRoute),
}

/// Steps that write an image to a partition: erase it, then send the
/// image by its route.
pub fn image_flash_steps(is_sparse: bool, file_len: u64, max_download: u32) -> (r: Vec<FlashStep>)
    ensures
        r@ == seq![FlashStep::Erase, FlashStep::Send(spec_route(is_sparse, file_len, max_download))],
{
    let route = route_image(is_sparse, file_len, max_download);
    let v = vec![FlashStep::Erase, FlashStep::Send(route)];
    assert(v@ =~= seq![FlashStep::Erase, FlashStep::Send(route)]);
    v
}

/// Why a raw flash request is refused before touching the device.
#[derive(Debug, Clone, PartialEq, Eq)]
pub enum RawFlashError {
    /// `--both` and `--slot` were given together.
    BothAndSlot,
    /// `--slot` is neither `a` nor `b`.
    InvalidSlot(String),
    /// The image file does not exist.
    ImageNotFound,
}

/// Check the slot options of a raw flash.
pub fn check_raw_options(slot: Option<&str>, both: bool) -> (r: Result<(), RawFlashError>)
    ensures
        both && slot is Some ==> r == Err::<(), RawFlashError>(RawFlashError::BothAndSlot),
        !(both && slot is Some) ==> match slot {
            Some(s) => if is_slot(s@) {
                r is Ok
            } else {
                r is Err && r->Err_0 is InvalidSlot && r->Err_0->InvalidSlot_0@ == s@
            },
            None => r is Ok,
        },
{
    if both && slot.is_some() {
        return Err(RawFlashError::BothAndSlot);
    }
    match slot {
        Some(s) => if is_valid_slot(s) {
            Ok(())
        } else {
            Err(RawFlashError::InvalidSlot(owned(s)))
        },
        None => Ok(()),
    }
}

/// Check a raw flash request before any device is contacted: the slot
/// options first, then that the image exists.
pub fn check_raw_request(slot: Option<&str>, both: bool, image_exists: bool) -> (r: Result<
    (),
    RawFlashError,
>)
    ensures
        both && slot is Some ==> r == Err::<(), RawFlashError>(RawFlashError::BothAndSlot),
        !both && slot is Some && !is_slot(slot->0@) ==> r is Err && r->Err_0 is InvalidSlot
            && r->Err_0->InvalidSlot_0@ == slot->0@,
        !(both && slot is Some) && (slot matches Some(s) ==> is_slot(s@)) ==> if image_exists {
            r is Ok
        } else {
            r == Err::<(), RawFlashError>(RawFlashError::ImageNotFound)
        },
{
    match check_raw_options(slot, both) {
        Err(e) => Err(e),
        Ok(()) => if image_exists {
            Ok(())
        } else {
            Err(RawFlashError::ImageNotFound)
        },
    }
}

/// Partitions a raw image goes to: both slots with `--both`, the given
/// slot, the device's current slot, or the bare name.
pub fn raw_targets(partition: &str, slot: Option<&str>, both: bool, current_slot: Option<&str>) -> (r:
    Vec<String>)
    ensures
        both ==> r@.len() == 2 && r@[0]@ == partition@ + "_a"@ && r@[1]@ == partition@ + "_b"@,
        !both && slot is Some ==> r@.len() == 1 && r@[0]@ == partition@ + "_"@ + slot->0@,
        !both && slot is None && current_slot is Some ==> r@.len() == 1 && r@[0]@ == partition@
            + "_"@ + current_slot->0@,
        !both && slot is None && current_slot is None ==> r@.len() == 1 && r@[0]@ == partition@,
{
    if both {
        vec![concat_str(partition, "_a"), concat_str(partition, "_b")]
    } else {
        let chosen = match slot {
            Some(s) => Some(s),
            None => current_slot,
        };
        match chosen {
            Some(s) => {
                let p = concat_str(partition, "_");
                vec![concat_str(p.as_str(), s)]
            },
            None => vec![owned(partition)],
        }
    }
}

/// A raw flash run fails only when every target failed.
pub fn raw_flash_failed(succeeded: usize, failed: usize) -> (r: bool)
    ensures
        r == (failed > 0 && succeeded == 0),
{
    failed > 0 && succeeded == 0
}

/// Outcome of a single flash action.
#[derive(Debug)]
pub struct FlashOutcome {
    pub partition: String,
    pub success: bool,
    /// The device response message (e.g. "Flashing succeeded").
    pub response: Option<String>,
    /// Wall-clock duration of this flash operation.
    pub duration: std::time::Duration,
    pub error: Option<FlashError>,
}

/// Overall result of executing a flash plan.
#[derive(Debug)]
pub struct FlashResult {
    pub total: usize,
    pub succeeded: usize,
    pub failed: usize,
    pub outcomes: Vec<FlashOutcome>,
}

/// Number of successful outcomes.
pub open spec fn count_success(o: Seq<FlashOutcome>) -> nat
    decreases o.len(),
{
    if o.len() == 0 {
        0
    } else {
        count_success(o.drop_last()) + if o.last().success {
            1nat
        } else {
            0nat
        }
    }
}

proof fn lemma_count_success_le(o: Seq<FlashOutcome>)
    ensures
        count_success(o) <= o.len(),
    decreases o.len(),
{
    if o.len() > 0 {
        lemma_count_success_le(o.drop_last());
    }
}

impl FlashResult {
    /// Tally the outcomes of a plan run (one outcome per flash action).
    pub fn from_outcomes(outcomes: Vec<FlashOutcome>) -> (r: FlashResult)
        ensures
            r.outcomes@ == outcomes@,
            r.total == outcomes@.len(),
            r.succeeded == count_success(outcomes@),
            r.failed == outcomes@.len() - count_success(outcomes@),
            r.succeeded + r.failed == r.total,
    {
        let mut succeeded: usize = 0;
        let mut i: usize = 0;
        while i < outcomes.len()
            invariant
                i <= outcomes@.len(),
                succeeded == count_success(outcomes@.take(i as int)),
                succeeded <= i,
            decreases outcomes@.len() - i,
        {
            assert(outcomes@.take(i + 1).drop_last() =~= outcomes@.take(i as int));
            if outcomes[i].success {
                succeeded = succeeded + 1;
            }
            i += 1;
        }
        assert(outcomes@.take(outcomes@.len() as int) =~= outcomes@);
        let total = outcomes.len();
        FlashResult { total, succeeded, failed: total - succeeded, outcomes }
    }
}

/// Only actions of kind `flash` are executed from a plan.
pub fn is_flash_action(action: &str) -> (r: bool)
    ensures
        r == (action@ == "flash"@),
{
    str_eq(action, "flash")
}

/// What a plan run does with one of the plan's actions.
#[derive(Debug, Clone, Copy, PartialEq, Eq, Structural)]
pub enum PlanActionStep {
    /// Not a `flash` action: not run and not counted.
    NotRun,
    /// Counted as failed: the action names no resolved image.
    NoImagePath,
    /// Counted as failed: the image file does not exist.
    ImageMissing,
    /// Counted as succeeded without touching the device (dry run).
    DryRun,
    /// Flash the image to the partition; its result is the outcome.
    Flash,
}

/// The step for an action of kind `action` whose image resolves to
/// `image_path` (when it does), given whether that file exists.
pub open spec fn spec_plan_action_step(action: Seq<char>, has_image_path: bool, image_exists: bool, dry_run: bool) -> PlanActionStep {
    if action != "flash"@ {
        PlanActionStep::NotRun
    } else if !has_image_path {
        PlanActionStep::NoImagePath
    } else if !image_exists {
        PlanActionStep::ImageMissing
    } else if dry_run {
        PlanActionStep::DryRun
    } else {
        PlanActionStep::Flash
    }
}

/// Decide what a plan run does with one action: only `flash` actions
/// run; an action without a resolved image or with a missing image file
/// fails; a dry run succeeds without contacting the device; else the
/// image is flashed.
pub fn plan_action_step(action: &str, has_image_path: bool, image_exists: bool, dry_run: bool) -> (r:
    PlanActionStep)
    ensures
        r == spec_plan_action_step(action@, has_image_path, image_exists, dry_run),
{
    proof {
        reveal_strlit("flash");
    }
    if !is_flash_action(action) {
        PlanActionStep::NotRun
    } else if !has_image_path {
        PlanActionStep::NoImagePath
    } else if !image_exists {
        PlanActionStep::ImageMissing
    } else if dry_run {
        PlanActionStep::DryRun
    } else {
        PlanActionStep::Flash
    }
}

/// Whether vbmeta may be flashed: only in bootloader mode, i.e. unless
/// `is-userspace` reads `yes` or `true`.
pub fn vbmeta_flash_allowed(is_userspace: &str) -> (r: bool)
    ensures
        r == !(is_userspace@ == "yes"@ || is_userspace@ == "true"@),
{
    !(str_eq(is_userspace, "yes") || str_eq(is_userspace, "true"))
}

/// Size of the empty vbmeta image: 512 bytes.
pub const EMPTY_VBMETA_LEN: usize = 512;

/// An empty AVB vbmeta image of 512 bytes: a 256-byte header with magic
/// `AVB0`, libavb 1.0, no descriptors, flags 3 (hashtree and
/// verification disabled) and release string `avbtool 1.3.0`, zero
/// elsewhere and in the 256 bytes that follow it.
pub open spec fn empty_vbmeta_spec() -> Seq<u8> {
    Seq::new(
        512,
        |i: int|
            if i == 0 {
                0x41u8
            } else if i == 1 {
                0x56u8
            } else if i == 2 {
                0x42u8
            } else if i == 3 {
                0x30u8
            } else if i == 7 {
                1u8
            } else if i == 123 {
                3u8
            } else if 128 <= i < 141 {
                avbtool_release()[i - 128]
            } else {
                0u8
            },
    )
}

/// ASCII bytes of `avbtool 1.3.0`.
pub open spec fn avbtool_release() -> Seq<u8> {
    seq![0x61u8, 0x76, 0x62, 0x74, 0x6f, 0x6f, 0x6c, 0x20, 0x31, 0x2e, 0x33, 0x2e, 0x30]
}

/// The empty vbmeta image that disables verified boot.
pub fn empty_vbmeta() -> (r: Vec<u8>)
    ensures
        r@ == empty_vbmeta_spec(),
{
    let rel: [u8; 13] = [0x61, 0x76, 0x62, 0x74, 0x6f, 0x6f, 0x6c, 0x20, 0x31, 0x2e, 0x33, 0x2e, 0x30];
    assert(rel@ =~= avbtool_release());
    let mut v: Vec<u8> = Vec::new();
    let mut i: usize = 0;
    while i < EMPTY_VBMETA_LEN
        invariant
            i <= 512,
            rel@ == avbtool_release(),
            v@ =~= empty_vbmeta_spec().take(i as int),
        decreases 512 - i,
    {
        let b: u8 = if i == 0 {
            0x41
        } else if i == 1 {
            0x56
        } else if i == 2 {
            0x42
        } else if i == 3 {
            0x30
        } else if i == 7 {
            1
        } else if i == 123 {
            3
        } else if 128 <= i && i < 141 {
            rel[i - 128]
        } else {
            0
        };
        v.push(b);
        i += 1;
        assert(v@ =~= empty_vbmeta_spec().take(i as int));
    }
    v
}

/// Partitions the empty vbmeta goes to.
pub fn vbmeta_partitions() -> (r: Vec<&'static str>)
    ensures
        r@.len() == 2,
        r@[0]@ == "vbmeta_a"@,
        r@[1]@ == "vbmeta_b"@,
{
    vec!["vbmeta_a", "vbmeta_b"]
}

} // verus!

verus! {

/// A sparse image is always sent as sparse splits; another image is sent
/// whole, in one download of its own size, when it fits the download
/// limit, and wrapped as sparse splits when it is larger (up to 4 GiB).
pub proof fn law_route_follows_size(is_sparse: bool, file_len: u64, max_download: u32)
    ensures
        is_sparse ==> spec_route(is_sparse, file_len, max_download) == FlashRoute::Sparse,
        !is_sparse && file_len <= max_download ==> spec_route(is_sparse, file_len, max_download)
            == (FlashRoute::Raw { size: file_len as u32 }),
        !is_sparse && max_download < file_len <= u32::MAX ==> spec_route(is_sparse, file_len, max_download)
            == FlashRoute::SparseWrapped,
{
}

} // verus!
