//! Generic System Image (GSI) workflow: fastboot modes, progress steps and
//! events, the order of the workflow stages, and the sizing of the
//! `product_gsi` fallback.
use vstd::prelude::*;
use std::sync::Arc;
use std::sync::atomic::AtomicBool;
use crate::errors::GsiError;
use crate::vars::DeviceVars;
use crate::text::{replace_all, replace_str, concat_str, decimal_chars, decimal_string};

verus! {

/// Fastboot mode: bootloader (fastboot) or userspace fastbootd.
#[derive(Debug, Clone, Copy, PartialEq, Eq, Structural)]
pub enum FastbootMode {
    Bootloader,
    Fastbootd,
}

impl FastbootMode {
    /// Name of the mode as shown to users.
    pub fn as_str(self) -> (r: &'static str)
        ensures
            r@ == (match self {
                FastbootMode::Bootloader => "bootloader"@,
                FastbootMode::Fastbootd => "fastbootd"@,
            }),
    {
        match self {
            FastbootMode::Bootloader => "bootloader",
            FastbootMode::Fastbootd => "fastbootd",
        }
    }
}

/// Step in the GSI flash workflow (human-readable progress).
#[derive(Debug, Clone, Copy, PartialEq, Eq, Structural)]
pub enum GsiStep {
    StartingBootloaderPhase,
    StartingFastbootdPhase,
    PreparingVbmetaFlash,
    FlashingVbmeta,
    CheckingSystemPartition,
    CheckingProductGsiFallback,
    GeneratingProductGsiImage,
    FlashingProductGsi,
    ProductGsiFallbackNotNeeded,
    FlashingSystemGsi,
    WipingUserdata,
    RebootingToBootloader,
    RebootingToFastbootd,
    GsiFlowComplete,
}

/// Text shown for each workflow step.
pub open spec fn step_text(s: GsiStep) -> Seq<char> {
    match s {
        GsiStep::StartingBootloaderPhase => "starting bootloader phase"@,
        GsiStep::StartingFastbootdPhase => "starting fastbootd phase"@,
        GsiStep::PreparingVbmetaFlash => "preparing vbmeta flash"@,
        GsiStep::FlashingVbmeta => "flashing vbmeta"@,
        GsiStep::CheckingSystemPartition => "checking system partition"@,
        GsiStep::CheckingProductGsiFallback => "checking product GSI fallback"@,
        GsiStep::GeneratingProductGsiImage => "generating product GSI image"@,
        GsiStep::FlashingProductGsi => "flashing product GSI"@,
        GsiStep::ProductGsiFallbackNotNeeded => "product GSI fallback not needed"@,
        GsiStep::FlashingSystemGsi => "flashing system GSI"@,
        GsiStep::WipingUserdata => "wiping userdata"@,
        GsiStep::RebootingToBootloader => "rebooting to bootloader"@,
        GsiStep::RebootingToFastbootd => "rebooting to fastbootd"@,
        GsiStep::GsiFlowComplete => "GSI flow complete"@,
    }
}

impl GsiStep {
    /// Text of the step as shown to users.
    pub fn as_str(self) -> (r: &'static str)
        ensures
            r@ == step_text(self),
    {
        match self {
            GsiStep::StartingBootloaderPhase => "starting bootloader phase",
            GsiStep::StartingFastbootdPhase => "starting fastbootd phase",
            GsiStep::PreparingVbmetaFlash => "preparing vbmeta flash",
            GsiStep::FlashingVbmeta => "flashing vbmeta",
            GsiStep::CheckingSystemPartition => "checking system partition",
            GsiStep::CheckingProductGsiFallback => "checking product GSI fallback",
            GsiStep::GeneratingProductGsiImage => "generating product GSI image",
            GsiStep::FlashingProductGsi => "flashing product GSI",
            GsiStep::ProductGsiFallbackNotNeeded => "product GSI fallback not needed",
            GsiStep::FlashingSystemGsi => "flashing system GSI",
            GsiStep::WipingUserdata => "wiping userdata",
            GsiStep::RebootingToBootloader => "rebooting to bootloader",
            GsiStep::RebootingToFastbootd => "rebooting to fastbootd",
            GsiStep::GsiFlowComplete => "GSI flow complete",
        }
    }
}

/// Progress events emitted during the GSI flash workflow.
#[derive(Debug, Clone, PartialEq, Eq)]
pub enum GsiEvent {
    Step(GsiStep),
    ModeDetected(FastbootMode),
    ModeReady(FastbootMode),
    ResolvedPartition { base: &'static str, partition: String, size_bytes: u64 },
    Flashing { partition: String, size_bytes: u64 },
    Wiping { partition: String },
    PartitionSkipped { partition: String, reason: String },
}

/// Options for the GSI flash workflow.
#[derive(Debug, Clone)]
pub struct GsiFlashOptions {
    pub wipe_data: bool,
    pub cancel_token: Option<Arc<AtomicBool>>,
}

impl Default for GsiFlashOptions {
    fn default() -> (r: Self)
        ensures
            r.wipe_data,
            r.cancel_token is None,
    {
        GsiFlashOptions { wipe_data: true, cancel_token: None }
    }
}

/// Summary statistics from a completed GSI flash.
#[derive(Debug, Clone, PartialEq, Eq, Structural)]
pub struct GsiFlashSummary {
    pub flash_count: usize,
    pub wipe_count: usize,
    pub skipped_count: usize,
    pub total_bytes: u64,
}

impl Default for GsiFlashSummary {
    fn default() -> (r: Self)
        ensures
            r.flash_count == 0 && r.wipe_count == 0 && r.skipped_count == 0 && r.total_bytes == 0,
    {
        GsiFlashSummary { flash_count: 0, wipe_count: 0, skipped_count: 0, total_bytes: 0 }
    }
}

/// Outcome of a GSI flash operation.
pub struct GsiFlashOutcome {
    pub summary: GsiFlashSummary,
}

/// Running counts of the events that a GSI flash reported.
#[derive(Debug, Clone, Copy, PartialEq, Eq, Structural)]
pub struct GsiCounters {
    pub flash_count: u64,
    pub wipe_count: u64,
    pub skipped_count: u64,
    pub total_bytes: u64,
}

/// Counters after one more event; events other than flashing, wiping and
/// skipping leave them unchanged.
pub open spec fn counters_after(c: GsiCounters, e: GsiEvent) -> GsiCounters {
    match e {
        GsiEvent::Flashing { size_bytes, .. } => GsiCounters {
            flash_count: (c.flash_count + 1) as u64,
            total_bytes: (c.total_bytes + size_bytes) as u64,
            ..c
        },
        GsiEvent::Wiping { .. } => GsiCounters { wipe_count: (c.wipe_count + 1) as u64, ..c },
        GsiEvent::PartitionSkipped { .. } => GsiCounters {
            skipped_count: (c.skipped_count + 1) as u64,
            ..c
        },
        _ => c,
    }
}

/// Counting `e` overflows none of the counters.
pub open spec fn can_count(c: GsiCounters, e: GsiEvent) -> bool {
    match e {
        GsiEvent::Flashing { size_bytes, .. } => c.flash_count < u64::MAX && c.total_bytes
            + size_bytes <= u64::MAX,
        GsiEvent::Wiping { .. } => c.wipe_count < u64::MAX,
        GsiEvent::PartitionSkipped { .. } => c.skipped_count < u64::MAX,
        _ => true,
    }
}

impl GsiCounters {
    /// All counts zero.
    pub fn new() -> (r: Self)
        ensures
            r == zero_counters(),
    {
        GsiCounters { flash_count: 0, wipe_count: 0, skipped_count: 0, total_bytes: 0 }
    }

    /// Count one reported event.
    pub fn record(&mut self, event: &GsiEvent)
        requires
            can_count(*old(self), *event),
        ensures
            *final(self) == counters_after(*old(self), *event),
    {
        match event {
            GsiEvent::Flashing { size_bytes, .. } => {
                self.flash_count = self.flash_count + 1;
                self.total_bytes = self.total_bytes + *size_bytes;
            },
            GsiEvent::Wiping { .. } => {
                self.wipe_count = self.wipe_count + 1;
            },
            GsiEvent::PartitionSkipped { .. } => {
                self.skipped_count = self.skipped_count + 1;
            },
            _ => {},
        }
    }

    /// The summary that the counts make.
    pub fn summary(&self) -> (r: GsiFlashSummary)
        requires
            self.flash_count <= usize::MAX,
            self.wipe_count <= usize::MAX,
            self.skipped_count <= usize::MAX,
        ensures
            r.flash_count == self.flash_count,
            r.wipe_count == self.wipe_count,
            r.skipped_count == self.skipped_count,
            r.total_bytes == self.total_bytes,
    {
        GsiFlashSummary {
            flash_count: self.flash_count as usize,
            wipe_count: self.wipe_count as usize,
            skipped_count: self.skipped_count as usize,
            total_bytes: self.total_bytes,
        }
    }
}

/// All counts zero.
pub open spec fn zero_counters() -> GsiCounters {
    GsiCounters { flash_count: 0, wipe_count: 0, skipped_count: 0, total_bytes: 0 }
}

/// Counting a sequence of events, one after the other.
pub open spec fn counters_after_all(c: GsiCounters, es: Seq<GsiEvent>) -> GsiCounters
    decreases es.len(),
{
    if es.len() == 0 {
        c
    } else {
        counters_after(counters_after_all(c, es.drop_last()), es.last())
    }
}

/// Number of events in `es` that satisfy `f`.
pub open spec fn count_where(es: Seq<GsiEvent>, f: spec_fn(GsiEvent) -> bool) -> nat
    decreases es.len(),
{
    if es.len() == 0 {
        0
    } else {
        count_where(es.drop_last(), f) + if f(es.last()) {
            1nat
        } else {
            0nat
        }
    }
}

/// Starting from zero, the counters hold the number of flashing, wiping
/// and skipping events reported so far (as long as nothing overflowed).
pub proof fn law_counters_count_events(es: Seq<GsiEvent>)
    requires
        es.len() < u64::MAX,
    ensures
        counters_after_all(zero_counters(), es).flash_count == count_where(
            es,
            |e: GsiEvent| e is Flashing,
        ),
        counters_after_all(zero_counters(), es).wipe_count == count_where(
            es,
            |e: GsiEvent| e is Wiping,
        ),
        counters_after_all(zero_counters(), es).skipped_count == count_where(
            es,
            |e: GsiEvent| e is PartitionSkipped,
        ),
    decreases es.len(),
{
    if es.len() > 0 {
        law_counters_count_events(es.drop_last());
        lemma_count_le(es.drop_last(), |e: GsiEvent| e is Flashing);
        lemma_count_le(es.drop_last(), |e: GsiEvent| e is Wiping);
        lemma_count_le(es.drop_last(), |e: GsiEvent| e is PartitionSkipped);
    }
}

proof fn lemma_count_le(es: Seq<GsiEvent>, f: spec_fn(GsiEvent) -> bool)
    ensures
        count_where(es, f) <= es.len(),
    decreases es.len(),
{
    if es.len() > 0 {
        lemma_count_le(es.drop_last(), f);
    }
}

/// Stages of the GSI workflow.
#[derive(Debug, Clone, Copy, PartialEq, Eq, Structural)]
pub enum GsiStage {
    FlashVbmeta,
    WipeUserdata,
    FlashSystem,
}

/// The stages run in bootloader mode.
pub open spec fn bootloader_stages() -> Seq<GsiStage> {
    seq![GsiStage::FlashVbmeta, GsiStage::WipeUserdata]
}

/// The stages run in fastbootd mode.
pub open spec fn fastbootd_stages() -> Seq<GsiStage> {
    seq![GsiStage::FlashSystem]
}

/// The order of stage groups: the group for the mode the device is in
/// comes first, so at most one mode switch is needed.
pub open spec fn stage_order(mode: FastbootMode) -> Seq<(FastbootMode, Seq<GsiStage>)> {
    match mode {
        FastbootMode::Bootloader => seq![
            (FastbootMode::Bootloader, bootloader_stages()),
            (FastbootMode::Fastbootd, fastbootd_stages()),
        ],
        FastbootMode::Fastbootd => seq![
            (FastbootMode::Fastbootd, fastbootd_stages()),
            (FastbootMode::Bootloader, bootloader_stages()),
        ],
    }
}

/// Stage groups, each with the mode it needs, for a device starting in `mode`.
pub fn plan_stage_groups(mode: FastbootMode) -> (r: Vec<(FastbootMode, Vec<GsiStage>)>)
    ensures
        r@.len() == stage_order(mode).len(),
        forall|i: int|
            0 <= i < r@.len() ==> #[trigger] r@[i].0 == stage_order(mode)[i].0 && r@[i].1@
                == stage_order(mode)[i].1,
{
    let boot = (FastbootMode::Bootloader, vec![GsiStage::FlashVbmeta, GsiStage::WipeUserdata]);
    let fbd = (FastbootMode::Fastbootd, vec![GsiStage::FlashSystem]);
    assert(boot.1@ =~= bootloader_stages());
    assert(fbd.1@ =~= fastbootd_stages());
    match mode {
        FastbootMode::Bootloader => vec![boot, fbd],
        FastbootMode::Fastbootd => vec![fbd, boot],
    }
}

/// Every stage of the workflow is planned exactly once, and the first
/// group needs the mode the device starts in.
pub proof fn law_stage_plan_complete(mode: FastbootMode)
    ensures
        stage_order(mode)[0].0 == mode,
        stage_order(mode)[1].0 != mode,
        stage_order(mode)[0].1 + stage_order(mode)[1].1 =~= (match mode {
            FastbootMode::Bootloader => seq![
                GsiStage::FlashVbmeta,
                GsiStage::WipeUserdata,
                GsiStage::FlashSystem,
            ],
            FastbootMode::Fastbootd => seq![
                GsiStage::FlashSystem,
                GsiStage::FlashVbmeta,
                GsiStage::WipeUserdata,
            ],
        }),
{
}

/// Values of `is-userspace` that mean the device runs fastbootd.
pub open spec fn is_truthy(v: Seq<char>) -> bool {
    v == "yes"@ || v == "true"@ || v == "1"@ || v == "on"@
}

/// The mode the variables describe.
pub open spec fn spec_mode(vars: Map<Seq<char>, Seq<char>>) -> FastbootMode {
    if vars.contains_key("is-userspace"@) && is_truthy(vars["is-userspace"@]) {
        FastbootMode::Fastbootd
    } else {
        FastbootMode::Bootloader
    }
}

/// Fastboot mode from the device's `is-userspace` variable.
pub fn detect_fastboot_mode(vars: &DeviceVars) -> (r: FastbootMode)
    ensures
        r == spec_mode(vars@),
{
    match vars.get("is-userspace") {
        Some(v) => {
            if crate::text::str_eq(v, "yes") || crate::text::str_eq(v, "true")
                || crate::text::str_eq(v, "1") || crate::text::str_eq(v, "on") {
                FastbootMode::Fastbootd
            } else {
                FastbootMode::Bootloader
            }
        },
        None => FastbootMode::Bootloader,
    }
}

/// One mebibyte.
pub const MIB: u64 = 1024 * 1024;

/// Size needed for a `product_gsi` partition when the GSI image exceeds the
/// system partition: the overflow rounded up to whole MiB; zero without
/// overflow.
pub fn product_gsi_overflow_size(system_partition_size: u64, gsi_expanded_size: u64) -> (r: u64)
    requires
        gsi_expanded_size > system_partition_size ==> gsi_expanded_size - system_partition_size
            <= u64::MAX - (MIB - 1),
    ensures
        gsi_expanded_size <= system_partition_size ==> r == 0,
        gsi_expanded_size > system_partition_size ==> {
            let o = gsi_expanded_size - system_partition_size;
            &&& r % MIB == 0
            &&& o <= r
            &&& r < o + MIB
        },
{
    if gsi_expanded_size > system_partition_size {
        let overflow = gsi_expanded_size - system_partition_size;
        let rem = overflow % MIB;
        if rem == 0 {
            overflow
        } else {
            let r = overflow + (MIB - rem);
            assert(r % MIB == 0) by (nonlinear_arith)
                requires
                    rem == overflow % MIB,
                    r == overflow + (MIB - rem),
                    MIB == 1048576,
            ;
            r
        }
    } else {
        0
    }
}

/// Whether the GSI needs more room than the system partition has.
pub fn should_flash_product_gsi(system_partition_size: u64, gsi_expanded_size: u64) -> (r:
    bool)
    ensures
        r == (gsi_expanded_size > system_partition_size),
{
    gsi_expanded_size > system_partition_size
}

/// `Cancelled` exactly when cancellation was asked for.
pub fn cancel_outcome(cancelled: bool) -> (r: Result<(), GsiError>)
    ensures
        cancelled ==> r matches Err(GsiError::Cancelled),
        !cancelled ==> r is Ok,
{
    if cancelled {
        Err(GsiError::Cancelled)
    } else {
        Ok(())
    }
}

/// Stop with `Cancelled` when the cancel token is set. The token is read
/// once; what it holds depends on other threads, so which of the two
/// outcomes comes is not stated beyond this.
pub fn check_cancelled(cancel_token: Option<&Arc<AtomicBool>>) -> (r: Result<(), GsiError>)
    ensures
        cancel_token is None ==> r is Ok,
        r is Err ==> r->Err_0 is Cancelled,
{
    let cancelled = match cancel_token {
        Some(token) => token.load(std::sync::atomic::Ordering::Relaxed),
        None => false,
    };
    cancel_outcome(cancelled)
}

/// The product partition that goes with a system partition.
pub fn product_partition_for(system_partition: &str) -> (r: String)
    ensures
        r@ == replace_all(system_partition@, "system"@, "product"@),
{
    proof {
        reveal_strlit("system");
    }
    replace_str(system_partition, "system", "product")
}


/// Name of a fastboot mode as shown to users.
pub open spec fn mode_text(m: FastbootMode) -> Seq<char> {
    match m {
        FastbootMode::Bootloader => "bootloader"@,
        FastbootMode::Fastbootd => "fastbootd"@,
    }
}

/// The log line for a progress event.
pub open spec fn event_line(e: GsiEvent) -> Seq<char> {
    match e {
        GsiEvent::Step(s) => "[gsi] "@ + step_text(s),
        GsiEvent::ModeDetected(m) => "[gsi] detected mode: "@ + mode_text(m),
        GsiEvent::ModeReady(m) => "[gsi] ready in mode: "@ + mode_text(m),
        GsiEvent::ResolvedPartition { base, partition, size_bytes } => "[gsi] resolved "@ + base@
            + " -> "@ + partition@ + " ("@ + decimal_chars(size_bytes as nat) + " bytes)"@,
        GsiEvent::Flashing { partition, size_bytes } => "[gsi] flashing "@ + partition@ + " ("@
            + decimal_chars(size_bytes as nat) + " bytes)"@,
        GsiEvent::Wiping { partition } => "[gsi] wiping "@ + partition@,
        GsiEvent::PartitionSkipped { partition, reason } => "[gsi] skipped "@ + partition@
            + ": "@ + reason@,
    }
}

fn sized(head: &str, name: &str, size: u64) -> (r: String)
    ensures
        r@ == head@ + name@ + " ("@ + decimal_chars(size as nat) + " bytes)"@,
{
    let a = concat_str(head, name);
    let b = concat_str(a.as_str(), " (");
    let c = concat_str(b.as_str(), decimal_string(size).as_str());
    concat_str(c.as_str(), " bytes)")
}

/// The log line for a progress event (the verbose progress display).
pub fn event_log_line(e: &GsiEvent) -> (r: String)
    ensures
        r@ == event_line(*e),
{
    match e {
        GsiEvent::Step(s) => concat_str("[gsi] ", s.as_str()),
        GsiEvent::ModeDetected(m) => concat_str("[gsi] detected mode: ", m.as_str()),
        GsiEvent::ModeReady(m) => concat_str("[gsi] ready in mode: ", m.as_str()),
        GsiEvent::ResolvedPartition { base, partition, size_bytes } => {
            let a = concat_str("[gsi] resolved ", base);
            let b = concat_str(a.as_str(), " -> ");
            sized(b.as_str(), partition.as_str(), *size_bytes)
        },
        GsiEvent::Flashing { partition, size_bytes } => sized(
            "[gsi] flashing ",
            partition.as_str(),
            *size_bytes,
        ),
        GsiEvent::Wiping { partition } => concat_str("[gsi] wiping ", partition.as_str()),
        GsiEvent::PartitionSkipped { partition, reason } => {
            let a = concat_str("[gsi] skipped ", partition.as_str());
            let b = concat_str(a.as_str(), ": ");
            concat_str(b.as_str(), reason.as_str())
        },
    }
}

} // verus!

verus! {

/// The device runs fastbootd exactly when it reports `is-userspace` as
/// `yes`, `true`, `1` or `on`; without the variable, or with another
/// value such as `no`, it is in the bootloader.
pub proof fn law_userspace_decides_mode(vars: Map<Seq<char>, Seq<char>>)
    ensures
        vars.contains_key("is-userspace"@) && (vars["is-userspace"@] == "yes"@ || vars["is-userspace"@]
            == "true"@ || vars["is-userspace"@] == "1"@ || vars["is-userspace"@] == "on"@) ==> spec_mode(vars)
            == FastbootMode::Fastbootd,
        !vars.contains_key("is-userspace"@) ==> spec_mode(vars) == FastbootMode::Bootloader,
        vars.contains_key("is-userspace"@) && vars["is-userspace"@] == "no"@ ==> spec_mode(vars)
            == FastbootMode::Bootloader,
{
    reveal_strlit("no");
    reveal_strlit("yes");
    reveal_strlit("true");
    reveal_strlit("1");
    reveal_strlit("on");
    assert("no"@ != "on"@) by {
        assert("no"@[0] != "on"@[0]);
    }
}

} // verus!
