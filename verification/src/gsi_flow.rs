//! The GSI flash workflow as a state machine. The caller performs each
//! command (device I/O, tool runs, file reads) and answers with a reply; the
//! machine decides what comes next, which progress events are reported and
//! where a cancel request is honoured, and finally yields the outcome.
use vstd::prelude::*;
use crate::errors::GsiError;
use crate::executor::BootTarget;
use crate::format::{parse_getvar_hex_u64, spec_getvar_hex};
use crate::gsi::{
    FastbootMode, GsiCounters, GsiEvent, GsiFlashSummary, GsiStage, GsiStep, stage_order,
    plan_stage_groups, product_gsi_overflow_size, MIB,
};
use crate::mkfs::MINIMAL_PRODUCT_GSI_SIZE;
use crate::text::{concat_str, owned, replace_all};

verus! {

// ── Commands, replies, views ─────────────────────────────────────────

/// What the caller does next for the GSI workflow.
#[derive(Debug)]
pub enum GsiCommand {
    /// Unpack the bundled filesystem tools.
    ExtractFormatTools,
    /// Reboot to the target and wait for the device; reply with its mode.
    RebootAndWait(BootTarget),
    /// Wait for a device to appear; reply with its mode.
    WaitForDevice,
    /// Flash an empty vbmeta with verification disabled.
    FlashEmptyVbmeta,
    /// Format the data partitions.
    FormatData { clean_test: bool },
    /// Query a fastboot variable; reply with its text.
    GetVar(String),
    /// Read the size of the GSI image file; reply with it.
    ImageFileSize,
    /// Ask whether a partition is logical; reply with the answer.
    IsLogical(String),
    /// Resize a logical partition.
    Resize { partition: String, size: u64 },
    /// Generate the minimal `product_gsi` image.
    GenerateProductGsi,
    /// Flash the generated `product_gsi` image to the partition.
    FlashProductGsi(String),
    /// Flash the GSI image to the partition.
    FlashGsi(String),
    /// Reboot the device to the system.
    Reboot,
}

/// Done before a command, in order.
#[derive(Debug)]
pub enum GsiOp {
    /// Stop with `Cancelled` if cancellation was requested.
    CheckCancel,
    /// Report a progress event.
    Report(GsiEvent),
}

/// One step of work for the caller.
#[derive(Debug)]
pub struct GsiAction {
    pub prelude: Vec<GsiOp>,
    pub command: GsiCommand,
}

/// The caller's answer to a command.
#[derive(Debug)]
pub enum GsiReply {
    Done,
    Mode(FastbootMode),
    Text(String),
    Size(u64),
    Logical(bool),
    Failed(GsiError),
}

/// A progress event with its text as characters.
pub ghost enum EventView {
    Step(GsiStep),
    ModeDetected(FastbootMode),
    ModeReady(FastbootMode),
    ResolvedPartition { base: Seq<char>, partition: Seq<char>, size_bytes: u64 },
    Flashing { partition: Seq<char>, size_bytes: u64 },
    Wiping { partition: Seq<char> },
    PartitionSkipped { partition: Seq<char>, reason: Seq<char> },
}

pub open spec fn event_view(e: GsiEvent) -> EventView {
    match e {
        GsiEvent::Step(s) => EventView::Step(s),
        GsiEvent::ModeDetected(m) => EventView::ModeDetected(m),
        GsiEvent::ModeReady(m) => EventView::ModeReady(m),
        GsiEvent::ResolvedPartition { base, partition, size_bytes } => EventView::ResolvedPartition {
            base: base@,
            partition: partition@,
            size_bytes,
        },
        GsiEvent::Flashing { partition, size_bytes } => EventView::Flashing {
            partition: partition@,
            size_bytes,
        },
        GsiEvent::Wiping { partition } => EventView::Wiping { partition: partition@ },
        GsiEvent::PartitionSkipped { partition, reason } => EventView::PartitionSkipped {
            partition: partition@,
            reason: reason@,
        },
    }
}

/// A prelude operation with its event as characters.
pub ghost enum OpView {
    CheckCancel,
    Report(EventView),
}

pub open spec fn op_view(o: GsiOp) -> OpView {
    match o {
        GsiOp::CheckCancel => OpView::CheckCancel,
        GsiOp::Report(e) => OpView::Report(event_view(e)),
    }
}

pub open spec fn ops_view(v: Seq<GsiOp>) -> Seq<OpView> {
    v.map_values(|o: GsiOp| op_view(o))
}

/// A command with its text as characters.
pub ghost enum CommandView {
    ExtractFormatTools,
    RebootAndWait(BootTarget),
    WaitForDevice,
    FlashEmptyVbmeta,
    FormatData(bool),
    GetVar(Seq<char>),
    ImageFileSize,
    IsLogical(Seq<char>),
    Resize(Seq<char>, u64),
    GenerateProductGsi,
    FlashProductGsi(Seq<char>),
    FlashGsi(Seq<char>),
    Reboot,
}

pub open spec fn command_view(c: GsiCommand) -> CommandView {
    match c {
        GsiCommand::ExtractFormatTools => CommandView::ExtractFormatTools,
        GsiCommand::RebootAndWait(t) => CommandView::RebootAndWait(t),
        GsiCommand::WaitForDevice => CommandView::WaitForDevice,
        GsiCommand::FlashEmptyVbmeta => CommandView::FlashEmptyVbmeta,
        GsiCommand::FormatData { clean_test } => CommandView::FormatData(clean_test),
        GsiCommand::GetVar(n) => CommandView::GetVar(n@),
        GsiCommand::ImageFileSize => CommandView::ImageFileSize,
        GsiCommand::IsLogical(n) => CommandView::IsLogical(n@),
        GsiCommand::Resize { partition, size } => CommandView::Resize(partition@, size),
        GsiCommand::GenerateProductGsi => CommandView::GenerateProductGsi,
        GsiCommand::FlashProductGsi(p) => CommandView::FlashProductGsi(p@),
        GsiCommand::FlashGsi(p) => CommandView::FlashGsi(p@),
        GsiCommand::Reboot => CommandView::Reboot,
    }
}

/// Whether `r` is the kind of reply that `c` is answered with.
pub open spec fn answers(c: CommandView, r: GsiReply) -> bool {
    match r {
        GsiReply::Failed(_) => true,
        GsiReply::Done => match c {
            CommandView::RebootAndWait(_) | CommandView::WaitForDevice | CommandView::GetVar(_)
            | CommandView::ImageFileSize | CommandView::IsLogical(_) => false,
            _ => true,
        },
        GsiReply::Mode(_) => c is RebootAndWait || c is WaitForDevice,
        GsiReply::Text(_) => c is GetVar,
        GsiReply::Size(_) => c is ImageFileSize,
        GsiReply::Logical(_) => c is IsLogical,
    }
}

// ── The machine's state ──────────────────────────────────────────────

/// Where the workflow stands, by the command it waits on.
#[derive(Debug)]
pub enum GsiPhase {
    ExtractingTools,
    Rebooting { attempt: u8 },
    WaitingForDevice,
    VbmetaFlash,
    Wiping,
    SlotQuery,
    SizeQuery { slot: String, candidate: u8 },
    ImageSize { system: String, system_size: u64 },
    ProductLogical { system: String, product: String, file_size: u64 },
    SystemLogical { system: String, product: String, file_size: u64, product_logical: bool },
    ProductResize { system: String, product: String, file_size: u64, system_logical: bool },
    SystemResize { system: String, product: String, file_size: u64 },
    Generating { system: String, product: String, file_size: u64 },
    ProductFlash { system: String, file_size: u64 },
    SystemFlash,
    FinalReboot,
}

/// A phase with its text as characters.
pub ghost enum PhaseView {
    ExtractingTools,
    Rebooting(u8),
    WaitingForDevice,
    VbmetaFlash,
    Wiping,
    SlotQuery,
    SizeQuery(Seq<char>, u8),
    ImageSize(Seq<char>, u64),
    ProductLogical(Seq<char>, Seq<char>, u64),
    SystemLogical(Seq<char>, Seq<char>, u64, bool),
    ProductResize(Seq<char>, Seq<char>, u64, bool),
    SystemResize(Seq<char>, Seq<char>, u64),
    Generating(Seq<char>, Seq<char>, u64),
    ProductFlash(Seq<char>, u64),
    SystemFlash,
    FinalReboot,
}

pub open spec fn phase_view(p: GsiPhase) -> PhaseView {
    match p {
        GsiPhase::ExtractingTools => PhaseView::ExtractingTools,
        GsiPhase::Rebooting { attempt } => PhaseView::Rebooting(attempt),
        GsiPhase::WaitingForDevice => PhaseView::WaitingForDevice,
        GsiPhase::VbmetaFlash => PhaseView::VbmetaFlash,
        GsiPhase::Wiping => PhaseView::Wiping,
        GsiPhase::SlotQuery => PhaseView::SlotQuery,
        GsiPhase::SizeQuery { slot, candidate } => PhaseView::SizeQuery(slot@, candidate),
        GsiPhase::ImageSize { system, system_size } => PhaseView::ImageSize(system@, system_size),
        GsiPhase::ProductLogical { system, product, file_size } => PhaseView::ProductLogical(
            system@,
            product@,
            file_size,
        ),
        GsiPhase::SystemLogical { system, product, file_size, product_logical } =>
            PhaseView::SystemLogical(system@, product@, file_size, product_logical),
        GsiPhase::ProductResize { system, product, file_size, system_logical } =>
            PhaseView::ProductResize(system@, product@, file_size, system_logical),
        GsiPhase::SystemResize { system, product, file_size } => PhaseView::SystemResize(
            system@,
            product@,
            file_size,
        ),
        GsiPhase::Generating { system, product, file_size } => PhaseView::Generating(
            system@,
            product@,
            file_size,
        ),
        GsiPhase::ProductFlash { system, file_size } => PhaseView::ProductFlash(system@, file_size),
        GsiPhase::SystemFlash => PhaseView::SystemFlash,
        GsiPhase::FinalReboot => PhaseView::FinalReboot,
    }
}

/// The events that a prelude reports.
pub open spec fn reports_of(ops: Seq<OpView>) -> Seq<EventView>
    decreases ops.len(),
{
    if ops.len() == 0 {
        Seq::empty()
    } else {
        match ops.last() {
            OpView::Report(e) => reports_of(ops.drop_last()).push(e),
            OpView::CheckCancel => reports_of(ops.drop_last()),
        }
    }
}

/// The number of flashing events among `es`.
pub open spec fn flash_events(es: Seq<EventView>) -> nat
    decreases es.len(),
{
    if es.len() == 0 {
        0
    } else {
        flash_events(es.drop_last()) + if es.last() is Flashing {
            1nat
        } else {
            0nat
        }
    }
}

/// The bytes of the flashing events among `es`.
pub open spec fn flashed_bytes(es: Seq<EventView>) -> nat
    decreases es.len(),
{
    if es.len() == 0 {
        0
    } else {
        flashed_bytes(es.drop_last()) + match es.last() {
            EventView::Flashing { size_bytes, .. } => size_bytes as nat,
            _ => 0nat,
        }
    }
}

/// The GSI workflow in progress.
pub struct GsiFlow {
    /// The mode the device started in; it fixes the order of stages.
    pub start: FastbootMode,
    /// Index of the current stage group.
    pub group: usize,
    /// Index of the current stage within its group.
    pub stage: usize,
    /// The mode the device is known to be in.
    pub mode: FastbootMode,
    /// Size of the GSI once written to a partition.
    pub gsi_size: u64,
    /// Erase data partitions without formatting them.
    pub clean_test: bool,
    pub phase: GsiPhase,
    /// Counts of the events reported so far.
    pub counters: GsiCounters,
    /// Every event reported so far.
    pub reported: Ghost<Seq<EventView>>,
    /// The command the machine waits on.
    pub pending: GsiCommand,
}

/// The flow's data with text as characters.
pub ghost struct FlowView {
    pub start: FastbootMode,
    pub group: int,
    pub stage: int,
    pub mode: FastbootMode,
    pub gsi_size: u64,
    pub clean_test: bool,
    pub phase: PhaseView,
    pub reported: Seq<EventView>,
    pub pending: CommandView,
}

impl GsiFlow {
    pub open spec fn view(&self) -> FlowView {
        FlowView {
            start: self.start,
            group: self.group as int,
            stage: self.stage as int,
            mode: self.mode,
            gsi_size: self.gsi_size,
            clean_test: self.clean_test,
            phase: phase_view(self.phase),
            reported: self.reported@,
            pending: command_view(self.pending),
        }
    }
}

/// How the workflow ended, as the contract states it.
pub ghost enum FinishView {
    Success(GsiFlashSummary),
    Fail(GsiError),
    Unresolved(Seq<char>),
}

pub open spec fn finish_matches(r: Result<GsiFlashSummary, GsiError>, f: FinishView) -> bool {
    match f {
        FinishView::Success(s) => r == Ok::<GsiFlashSummary, GsiError>(s),
        FinishView::Fail(e) => r == Err::<GsiFlashSummary, GsiError>(e),
        FinishView::Unresolved(msg) => r matches Err(GsiError::PartitionResolution(m)) && m@ == msg,
    }
}

/// What a step yields, as the contract states it.
pub ghost enum NextView {
    Continue(FlowView, Seq<OpView>, CommandView),
    Finished(FinishView),
}

/// What a step of the workflow yields.
pub enum GsiNext {
    Continue(GsiFlow, GsiAction),
    Finished(Result<GsiFlashSummary, GsiError>),
}

pub open spec fn next_matches(n: GsiNext, v: NextView) -> bool {
    match v {
        NextView::Continue(f, ops, c) => n matches GsiNext::Continue(flow, a) && flow.view() == f
            && ops_view(a.prelude@) == ops && command_view(a.command) == c && flow.wf(),
        NextView::Finished(fv) => n matches GsiNext::Finished(r) && finish_matches(r, fv),
    }
}

// ── The workflow, specified ──────────────────────────────────────────

/// The reboot target that reaches a mode.
pub open spec fn target_for(m: FastbootMode) -> BootTarget {
    match m {
        FastbootMode::Fastbootd => BootTarget::Fastboot,
        FastbootMode::Bootloader => BootTarget::Bootloader,
    }
}

pub open spec fn group_mode(start: FastbootMode, g: int) -> FastbootMode {
    stage_order(start)[g].0
}

pub open spec fn group_len(start: FastbootMode, g: int) -> int {
    stage_order(start)[g].1.len() as int
}

pub open spec fn stage_at(start: FastbootMode, g: int, s: int) -> GsiStage {
    stage_order(start)[g].1[s]
}

pub open spec fn step_op(s: GsiStep) -> OpView {
    OpView::Report(EventView::Step(s))
}

pub open spec fn mode_name(m: FastbootMode) -> Seq<char> {
    match m {
        FastbootMode::Bootloader => "bootloader"@,
        FastbootMode::Fastbootd => "fastbootd"@,
    }
}

/// The error when the device does not reach the mode after a retry.
pub open spec fn no_switch_message(m: FastbootMode) -> Seq<char> {
    "device did not switch to "@ + mode_name(m) + " after retry"@
}

/// The error when no system partition is found.
pub open spec fn no_system_message(slot: Seq<char>) -> Seq<char> {
    "neither system_"@ + slot + " nor system found in device partitions"@
}

/// The partition queried for a candidate.
pub open spec fn candidate_name(slot: Seq<char>, c: u8) -> Seq<char> {
    if c == 0 {
        "system_"@ + slot
    } else {
        "system"@
    }
}

/// Move on with the given phase, prelude and command at position `(g, s)`.
pub open spec fn emit(f: FlowView, g: int, s: int, phase: PhaseView, ops: Seq<OpView>, cmd: CommandView) -> NextView {
    NextView::Continue(
        FlowView {
            group: g,
            stage: s,
            phase,
            reported: f.reported + reports_of(ops),
            pending: cmd,
            ..f
        },
        ops,
        cmd,
    )
}

/// Begin stage `s` of group `g` (or finish when the groups are done),
/// after the prelude `pre`.
pub open spec fn enter(f: FlowView, g: int, s: int, pre: Seq<OpView>) -> NextView {
    if g >= 2 {
        emit(f, g, s, PhaseView::FinalReboot, pre.push(step_op(GsiStep::GsiFlowComplete)), CommandView::Reboot)
    } else if s == 0 && group_mode(f.start, g) != f.mode {
        emit(
            f,
            g,
            s,
            PhaseView::Rebooting(0),
            pre.push(OpView::CheckCancel),
            CommandView::RebootAndWait(target_for(group_mode(f.start, g))),
        )
    } else {
        match stage_at(f.start, g, s) {
            GsiStage::FlashVbmeta => emit(
                f,
                g,
                s,
                PhaseView::VbmetaFlash,
                pre + seq![
                    OpView::CheckCancel,
                    step_op(GsiStep::PreparingVbmetaFlash),
                    step_op(GsiStep::FlashingVbmeta),
                ],
                CommandView::FlashEmptyVbmeta,
            ),
            GsiStage::WipeUserdata => emit(
                f,
                g,
                s,
                PhaseView::Wiping,
                pre + seq![OpView::CheckCancel, step_op(GsiStep::WipingUserdata)],
                CommandView::FormatData(f.clean_test),
            ),
            GsiStage::FlashSystem => emit(
                f,
                g,
                s,
                PhaseView::SlotQuery,
                pre.push(OpView::CheckCancel),
                CommandView::GetVar("current-slot"@),
            ),
        }
    }
}

/// The stage after the current one.
pub open spec fn advance(f: FlowView) -> NextView {
    if f.stage + 1 < group_len(f.start, f.group) {
        enter(f, f.group, f.stage + 1, Seq::empty())
    } else {
        enter(f, f.group + 1, 0, Seq::empty())
    }
}

/// The prelude before generating the `product_gsi` image.
pub open spec fn generate_ops() -> Seq<OpView> {
    seq![OpView::CheckCancel, step_op(GsiStep::GeneratingProductGsiImage)]
}

/// After the logical-partition questions: resize what is logical, then
/// generate.
pub open spec fn after_logical(
    f: FlowView,
    system: Seq<char>,
    product: Seq<char>,
    file_size: u64,
    product_logical: bool,
    system_logical: bool,
) -> NextView {
    if product_logical {
        emit(
            f,
            f.group,
            f.stage,
            PhaseView::ProductResize(system, product, file_size, system_logical),
            seq![OpView::CheckCancel],
            CommandView::Resize(product, MINIMAL_PRODUCT_GSI_SIZE),
        )
    } else if system_logical {
        emit(
            f,
            f.group,
            f.stage,
            PhaseView::SystemResize(system, product, file_size),
            seq![OpView::CheckCancel],
            CommandView::Resize(system, f.gsi_size),
        )
    } else {
        emit(
            f,
            f.group,
            f.stage,
            PhaseView::Generating(system, product, file_size),
            seq![OpView::CheckCancel] + generate_ops(),
            CommandView::GenerateProductGsi,
        )
    }
}

/// The prelude and command that flash the GSI to `system`.
pub open spec fn flash_system_ops(system: Seq<char>, file_size: u64) -> Seq<OpView> {
    seq![
        step_op(GsiStep::FlashingSystemGsi),
        OpView::Report(EventView::Flashing { partition: system, size_bytes: file_size }),
    ]
}

/// What one reply does to the workflow.
pub open spec fn gsi_step_spec(f: FlowView, r: GsiReply) -> NextView {
    if !answers(f.pending, r) {
        NextView::Continue(f, Seq::empty(), f.pending)
    } else {
        match f.phase {
            PhaseView::ExtractingTools => match r {
                GsiReply::Failed(e) => NextView::Finished(FinishView::Fail(e)),
                _ => enter(f, 0, 0, Seq::empty()),
            },
            PhaseView::Rebooting(attempt) => match r {
                GsiReply::Failed(e) => NextView::Finished(FinishView::Fail(e)),
                GsiReply::Mode(m) => {
                    let target = group_mode(f.start, f.group);
                    if m == target {
                        enter(
                            FlowView { mode: m, ..f },
                            f.group,
                            0,
                            seq![OpView::Report(EventView::ModeReady(target))],
                        )
                    } else if attempt == 0 {
                        emit(f, f.group, f.stage, PhaseView::WaitingForDevice, Seq::empty(), CommandView::WaitForDevice)
                    } else {
                        NextView::Finished(FinishView::Unresolved(no_switch_message(target)))
                    }
                },
                _ => NextView::Continue(f, Seq::empty(), f.pending),
            },
            PhaseView::WaitingForDevice => match r {
                GsiReply::Failed(e) => NextView::Finished(FinishView::Fail(e)),
                _ => emit(
                    f,
                    f.group,
                    f.stage,
                    PhaseView::Rebooting(1),
                    Seq::empty(),
                    CommandView::RebootAndWait(target_for(group_mode(f.start, f.group))),
                ),
            },
            PhaseView::VbmetaFlash | PhaseView::Wiping | PhaseView::SystemFlash => match r {
                GsiReply::Failed(e) => NextView::Finished(FinishView::Fail(e)),
                _ => advance(f),
            },
            PhaseView::SlotQuery => {
                let slot = match r {
                    GsiReply::Text(t) => t@,
                    _ => "a"@,
                };
                emit(
                    f,
                    f.group,
                    f.stage,
                    PhaseView::SizeQuery(slot, 0),
                    Seq::empty(),
                    CommandView::GetVar("partition-size:"@ + candidate_name(slot, 0)),
                )
            },
            PhaseView::SizeQuery(slot, c) => {
                let size = match r {
                    GsiReply::Text(t) => spec_getvar_hex(t@),
                    _ => None,
                };
                if size matches Some(n) && n > 0 {
                    let name = candidate_name(slot, c);
                    emit(
                        f,
                        f.group,
                        f.stage,
                        PhaseView::ImageSize(name, size->0 as u64),
                        seq![
                            OpView::Report(EventView::ResolvedPartition {
                                base: "system"@,
                                partition: name,
                                size_bytes: size->0 as u64,
                            }),
                            OpView::CheckCancel,
                            step_op(GsiStep::CheckingProductGsiFallback),
                        ],
                        CommandView::ImageFileSize,
                    )
                } else if c == 0 {
                    emit(
                        f,
                        f.group,
                        f.stage,
                        PhaseView::SizeQuery(slot, 1),
                        Seq::empty(),
                        CommandView::GetVar("partition-size:"@ + candidate_name(slot, 1)),
                    )
                } else {
                    NextView::Finished(FinishView::Unresolved(no_system_message(slot)))
                }
            },
            PhaseView::ImageSize(system, system_size) => match r {
                GsiReply::Failed(e) => NextView::Finished(FinishView::Fail(e)),
                GsiReply::Size(file_size) => if f.gsi_size > system_size {
                    let product = replace_all(system, "system"@, "product"@);
                    emit(
                        f,
                        f.group,
                        f.stage,
                        PhaseView::ProductLogical(system, product, file_size),
                        Seq::empty(),
                        CommandView::IsLogical(product),
                    )
                } else {
                    emit(
                        f,
                        f.group,
                        f.stage,
                        PhaseView::SystemFlash,
                        seq![OpView::CheckCancel, step_op(GsiStep::ProductGsiFallbackNotNeeded)]
                            + flash_system_ops(system, file_size),
                        CommandView::FlashGsi(system),
                    )
                },
                _ => NextView::Continue(f, Seq::empty(), f.pending),
            },
            PhaseView::ProductLogical(system, product, file_size) => emit(
                f,
                f.group,
                f.stage,
                PhaseView::SystemLogical(system, product, file_size, r matches GsiReply::Logical(b) && b),
                Seq::empty(),
                CommandView::IsLogical(system),
            ),
            PhaseView::SystemLogical(system, product, file_size, pl) => after_logical(
                f,
                system,
                product,
                file_size,
                pl,
                r matches GsiReply::Logical(b) && b,
            ),
            PhaseView::ProductResize(system, product, file_size, sl) => match r {
                GsiReply::Failed(e) => NextView::Finished(FinishView::Fail(e)),
                _ => if sl {
                    emit(
                        f,
                        f.group,
                        f.stage,
                        PhaseView::SystemResize(system, product, file_size),
                        Seq::empty(),
                        CommandView::Resize(system, f.gsi_size),
                    )
                } else {
                    emit(
                        f,
                        f.group,
                        f.stage,
                        PhaseView::Generating(system, product, file_size),
                        generate_ops(),
                        CommandView::GenerateProductGsi,
                    )
                },
            },
            PhaseView::SystemResize(system, product, file_size) => match r {
                GsiReply::Failed(e) => NextView::Finished(FinishView::Fail(e)),
                _ => emit(
                    f,
                    f.group,
                    f.stage,
                    PhaseView::Generating(system, product, file_size),
                    generate_ops(),
                    CommandView::GenerateProductGsi,
                ),
            },
            PhaseView::Generating(system, product, file_size) => match r {
                GsiReply::Failed(e) => NextView::Finished(FinishView::Fail(e)),
                _ => emit(
                    f,
                    f.group,
                    f.stage,
                    PhaseView::ProductFlash(system, file_size),
                    seq![
                        OpView::CheckCancel,
                        step_op(GsiStep::FlashingProductGsi),
                        OpView::Report(EventView::Flashing {
                            partition: product,
                            size_bytes: MINIMAL_PRODUCT_GSI_SIZE,
                        }),
                    ],
                    CommandView::FlashProductGsi(product),
                ),
            },
            PhaseView::ProductFlash(system, file_size) => match r {
                GsiReply::Failed(e) => NextView::Finished(FinishView::Fail(e)),
                _ => emit(
                    f,
                    f.group,
                    f.stage,
                    PhaseView::SystemFlash,
                    seq![OpView::CheckCancel] + flash_system_ops(system, file_size),
                    CommandView::FlashGsi(system),
                ),
            },
            PhaseView::FinalReboot => match r {
                GsiReply::Failed(e) => NextView::Finished(FinishView::Fail(e)),
                _ => NextView::Finished(
                    FinishView::Success(
                        GsiFlashSummary {
                            flash_count: flash_events(f.reported) as usize,
                            wipe_count: 0,
                            skipped_count: 0,
                            total_bytes: flashed_bytes(f.reported) as u64,
                        },
                    ),
                ),
            },
        }
    }
}


// ── Invariant ────────────────────────────────────────────────────────

/// The group that holds the system flash.
pub open spec fn system_group(start: FastbootMode) -> int {
    match start {
        FastbootMode::Bootloader => 1,
        FastbootMode::Fastbootd => 0,
    }
}

/// Phases of the system flash before anything is flashed.
pub open spec fn preparing_system(p: PhaseView) -> bool {
    ||| p is SlotQuery
    ||| p is SizeQuery
    ||| p is ImageSize
    ||| p is ProductLogical
    ||| p is SystemLogical
    ||| p is ProductResize
    ||| p is SystemResize
    ||| p is Generating
}

/// The image size that a phase carries, if any.
pub open spec fn phase_file_size(p: PhaseView) -> Option<u64> {
    match p {
        PhaseView::ProductLogical(_, _, n) => Some(n),
        PhaseView::SystemLogical(_, _, n, _) => Some(n),
        PhaseView::ProductResize(_, _, n, _) => Some(n),
        PhaseView::SystemResize(_, _, n) => Some(n),
        PhaseView::Generating(_, _, n) => Some(n),
        PhaseView::ProductFlash(_, n) => Some(n),
        _ => None,
    }
}

/// Nothing has been flashed before the system stage starts.
pub open spec fn before_system(f: FlowView) -> bool {
    ||| f.group < system_group(f.start)
    ||| (f.group == system_group(f.start) && (f.phase is ExtractingTools || f.phase is Rebooting
        || f.phase is WaitingForDevice || preparing_system(f.phase)))
}

/// The flow's data is consistent.
pub open spec fn flow_wf(f: FlowView) -> bool {
    &&& f.gsi_size <= u64::MAX - (MIB - 1)
    &&& 0 <= f.group <= 2
    &&& 0 <= f.stage
    &&& f.group < 2 ==> f.stage < group_len(f.start, f.group)
    &&& f.phase is FinalReboot <==> f.group == 2
    &&& f.phase is ExtractingTools ==> f.group == 0 && f.stage == 0 && f.mode == f.start
    &&& (preparing_system(f.phase) || f.phase is ProductFlash || f.phase is SystemFlash) ==> f.group
        == system_group(f.start) && f.stage == 0
    &&& (f.phase is Rebooting || f.phase is WaitingForDevice) ==> f.stage == 0
    &&& flash_events(f.reported) <= 2
    &&& flashed_bytes(f.reported) <= u64::MAX
    &&& before_system(f) ==> flash_events(f.reported) == 0 && flashed_bytes(f.reported) == 0
    &&& f.phase is ProductFlash ==> flash_events(f.reported) == 1 && flashed_bytes(f.reported)
        == MINIMAL_PRODUCT_GSI_SIZE
    &&& phase_file_size(f.phase) matches Some(n) ==> n <= u64::MAX - MINIMAL_PRODUCT_GSI_SIZE
}

impl GsiFlow {
    /// The flow is consistent and its counters count the reported events.
    pub open spec fn wf(&self) -> bool {
        &&& flow_wf(self.view())
        &&& self.counters.flash_count == flash_events(self.reported@)
        &&& self.counters.total_bytes == flashed_bytes(self.reported@)
        &&& self.counters.wipe_count == 0
        &&& self.counters.skipped_count == 0
    }
}

/// A reply the workflow can take: an image size leaves room for the
/// `product_gsi` image in the byte count.
pub open spec fn reply_ok(r: GsiReply) -> bool {
    r matches GsiReply::Size(n) ==> n <= u64::MAX - MINIMAL_PRODUCT_GSI_SIZE
}

// ── Counting lemmas ──────────────────────────────────────────────────

proof fn lemma_reports_push(ops: Seq<OpView>, o: OpView)
    ensures
        reports_of(ops.push(o)) == match o {
            OpView::Report(e) => reports_of(ops).push(e),
            OpView::CheckCancel => reports_of(ops),
        },
{
    assert(ops.push(o).drop_last() =~= ops);
}

proof fn lemma_counts_push(es: Seq<EventView>, e: EventView)
    ensures
        flash_events(es.push(e)) == flash_events(es) + if e is Flashing {
            1nat
        } else {
            0nat
        },
        flashed_bytes(es.push(e)) == flashed_bytes(es) + match e {
            EventView::Flashing { size_bytes, .. } => size_bytes as nat,
            _ => 0nat,
        },
{
    assert(es.push(e).drop_last() =~= es);
}

proof fn lemma_counts_prefix(base: Seq<EventView>, ops: Seq<OpView>, i: int)
    requires
        0 <= i <= ops.len(),
    ensures
        flash_events(base + reports_of(ops.take(i))) <= flash_events(base + reports_of(ops)),
        flashed_bytes(base + reports_of(ops.take(i))) <= flashed_bytes(base + reports_of(ops)),
    decreases ops.len() - i,
{
    if i < ops.len() {
        lemma_counts_prefix(base, ops, i + 1);
        assert(ops.take(i + 1) =~= ops.take(i).push(ops[i]));
        lemma_reports_push(ops.take(i), ops[i]);
        match ops[i] {
            OpView::Report(e) => {
                assert(base + reports_of(ops.take(i)).push(e) =~= (base + reports_of(ops.take(i))).push(e));
                lemma_counts_push(base + reports_of(ops.take(i)), e);
            },
            OpView::CheckCancel => {},
        }
    } else {
        assert(ops.take(i) =~= ops);
    }
}

fn count_prelude(c: &mut GsiCounters, ops: &Vec<GsiOp>, Ghost(base): Ghost<Seq<EventView>>)
    requires
        old(c).flash_count == flash_events(base),
        old(c).total_bytes == flashed_bytes(base),
        flash_events(base + reports_of(ops_view(ops@))) <= u64::MAX,
        flashed_bytes(base + reports_of(ops_view(ops@))) <= u64::MAX,
    ensures
        final(c).flash_count == flash_events(base + reports_of(ops_view(ops@))),
        final(c).total_bytes == flashed_bytes(base + reports_of(ops_view(ops@))),
        final(c).wipe_count == old(c).wipe_count,
        final(c).skipped_count == old(c).skipped_count,
{
    let ghost ov = ops_view(ops@);
    let mut i: usize = 0;
    assert(ov.take(0) =~= Seq::<OpView>::empty());
    assert(base + reports_of(ov.take(0)) =~= base);
    while i < ops.len()
        invariant
            i <= ops.len(),
            ov == ops_view(ops@),
            c.flash_count == flash_events(base + reports_of(ov.take(i as int))),
            c.total_bytes == flashed_bytes(base + reports_of(ov.take(i as int))),
            c.wipe_count == old(c).wipe_count,
            c.skipped_count == old(c).skipped_count,
            flash_events(base + reports_of(ov)) <= u64::MAX,
            flashed_bytes(base + reports_of(ov)) <= u64::MAX,
        decreases ops.len() - i,
    {
        proof {
            assert(ov.take(i + 1) =~= ov.take(i as int).push(ov[i as int]));
            lemma_reports_push(ov.take(i as int), ov[i as int]);
            lemma_counts_prefix(base, ov, i + 1);
        }
        match &ops[i] {
            GsiOp::Report(e) => {
                proof {
                    let ev = event_view(*e);
                    assert(ov[i as int] == OpView::Report(ev));
                    assert(base + reports_of(ov.take(i as int)).push(ev) =~= (base + reports_of(
                        ov.take(i as int),
                    )).push(ev));
                    lemma_counts_push(base + reports_of(ov.take(i as int)), ev);
                }
                match e {
                    GsiEvent::Flashing { size_bytes, .. } => {
                        c.flash_count = c.flash_count + 1;
                        c.total_bytes = c.total_bytes + *size_bytes;
                    },
                    _ => {},
                }
            },
            GsiOp::CheckCancel => {},
        }
        i += 1;
    }
    assert(ov.take(ops.len() as int) =~= ov);
}


/// No report of a prelude is a flashing event.
pub open spec fn no_flash_ops(ops: Seq<OpView>) -> bool {
    forall|i: int| 0 <= i < ops.len() ==> !(#[trigger] ops[i] matches OpView::Report(EventView::Flashing { .. }))
}

proof fn lemma_no_flash(base: Seq<EventView>, ops: Seq<OpView>)
    requires
        no_flash_ops(ops),
    ensures
        flash_events(base + reports_of(ops)) == flash_events(base),
        flashed_bytes(base + reports_of(ops)) == flashed_bytes(base),
    decreases ops.len(),
{
    if ops.len() > 0 {
        let init = ops.drop_last();
        assert(no_flash_ops(init)) by {
            assert forall|i: int| 0 <= i < init.len() implies !(#[trigger] init[i] matches OpView::Report(
                EventView::Flashing { .. },
            )) by {
                assert(init[i] == ops[i]);
            }
        }
        lemma_no_flash(base, init);
        assert(init.push(ops.last()) =~= ops);
        lemma_reports_push(init, ops.last());
        assert(ops[ops.len() - 1] == ops.last());
        match ops.last() {
            OpView::Report(e) => {
                assert(base + reports_of(init).push(e) =~= (base + reports_of(init)).push(e));
                lemma_counts_push(base + reports_of(init), e);
            },
            OpView::CheckCancel => {},
        }
    } else {
        assert(base + reports_of(ops) =~= base);
    }
}

proof fn lemma_one_flash(base: Seq<EventView>, pre: Seq<OpView>, p: Seq<char>, n: u64)
    requires
        no_flash_ops(pre),
    ensures
        flash_events(base + reports_of(pre.push(OpView::Report(EventView::Flashing { partition: p, size_bytes: n })))) == flash_events(base) + 1,
        flashed_bytes(base + reports_of(pre.push(OpView::Report(EventView::Flashing { partition: p, size_bytes: n })))) == flashed_bytes(base) + n,
{
    let e = EventView::Flashing { partition: p, size_bytes: n };
    lemma_no_flash(base, pre);
    lemma_reports_push(pre, OpView::Report(e));
    assert(base + reports_of(pre).push(e) =~= (base + reports_of(pre)).push(e));
    lemma_counts_push(base + reports_of(pre), e);
}

/// A step that continues leaves a consistent flow.
pub open spec fn continue_wf(n: NextView) -> bool {
    n matches NextView::Continue(f2, _, _) ==> flow_wf(f2)
}

proof fn lemma_enter_wf(f: FlowView, g: int, s: int, pre: Seq<OpView>)
    requires
        f.gsi_size <= u64::MAX - (MIB - 1),
        0 <= g <= 2,
        0 <= s,
        g < 2 ==> s < group_len(f.start, g),
        no_flash_ops(pre),
        flash_events(f.reported) <= 2,
        flashed_bytes(f.reported) <= u64::MAX,
        (g < system_group(f.start) || (g == system_group(f.start) && s == 0)) ==> flash_events(
            f.reported,
        ) == 0 && flashed_bytes(f.reported) == 0,
    ensures
        continue_wf(enter(f, g, s, pre)),
{
    if g >= 2 {
        let ops = pre.push(step_op(GsiStep::GsiFlowComplete));
        assert(no_flash_ops(ops)) by {
            assert forall|i: int| 0 <= i < ops.len() implies !(#[trigger] ops[i] matches OpView::Report(
                EventView::Flashing { .. },
            )) by {
                if i < pre.len() {
                    assert(ops[i] == pre[i]);
                }
            }
        }
        lemma_no_flash(f.reported, ops);
    } else if s == 0 && group_mode(f.start, g) != f.mode {
        let ops = pre.push(OpView::CheckCancel);
        assert(no_flash_ops(ops)) by {
            assert forall|i: int| 0 <= i < ops.len() implies !(#[trigger] ops[i] matches OpView::Report(
                EventView::Flashing { .. },
            )) by {
                if i < pre.len() {
                    assert(ops[i] == pre[i]);
                }
            }
        }
        lemma_no_flash(f.reported, ops);
    } else {
        let tail = match stage_at(f.start, g, s) {
            GsiStage::FlashVbmeta => seq![
                OpView::CheckCancel,
                step_op(GsiStep::PreparingVbmetaFlash),
                step_op(GsiStep::FlashingVbmeta),
            ],
            GsiStage::WipeUserdata => seq![OpView::CheckCancel, step_op(GsiStep::WipingUserdata)],
            GsiStage::FlashSystem => seq![OpView::CheckCancel],
        };
        let ops = pre + tail;
        assert(no_flash_ops(ops)) by {
            assert forall|i: int| 0 <= i < ops.len() implies !(#[trigger] ops[i] matches OpView::Report(
                EventView::Flashing { .. },
            )) by {
                if i < pre.len() {
                    assert(ops[i] == pre[i]);
                } else {
                    assert(ops[i] == tail[i - pre.len()]);
                }
            }
        }
        lemma_no_flash(f.reported, ops);
        assert(pre.push(OpView::CheckCancel) =~= pre + seq![OpView::CheckCancel]);
    }
}

/// Every step keeps the workflow consistent: whatever the caller replies,
/// a workflow that goes on is well formed, has reported at most two
/// flashing events, and nothing was flashed before the system stage.
pub proof fn law_step_keeps_flow_consistent(f: FlowView, r: GsiReply)
    requires
        flow_wf(f),
        reply_ok(r),
    ensures
        continue_wf(gsi_step_spec(f, r)),
{
    if !answers(f.pending, r) {
        return;
    }
    match f.phase {
        PhaseView::ExtractingTools => {
            lemma_enter_wf(f, 0, 0, Seq::empty());
        },
        PhaseView::Rebooting(attempt) => {
            if let GsiReply::Mode(m) = r {
                let target = group_mode(f.start, f.group);
                if m == target {
                    let pre = seq![OpView::Report(EventView::ModeReady(target))];
                    lemma_enter_wf(FlowView { mode: m, ..f }, f.group, 0, pre);
                } else if attempt == 0 {
                    lemma_no_flash(f.reported, Seq::empty());
                }
            }
        },
        PhaseView::WaitingForDevice => {
            lemma_no_flash(f.reported, Seq::empty());
        },
        PhaseView::VbmetaFlash | PhaseView::Wiping | PhaseView::SystemFlash => {
            if f.stage + 1 < group_len(f.start, f.group) {
                lemma_enter_wf(f, f.group, f.stage + 1, Seq::empty());
            } else {
                lemma_enter_wf(f, f.group + 1, 0, Seq::empty());
            }
        },
        PhaseView::SlotQuery => {
            lemma_no_flash(f.reported, Seq::empty());
        },
        PhaseView::SizeQuery(slot, c) => {
            lemma_no_flash(f.reported, Seq::empty());
            let size = match r {
                GsiReply::Text(t) => spec_getvar_hex(t@),
                _ => None,
            };
            if size matches Some(n) && n > 0 {
                let name = candidate_name(slot, c);
                lemma_no_flash(
                    f.reported,
                    seq![
                        OpView::Report(EventView::ResolvedPartition {
                            base: "system"@,
                            partition: name,
                            size_bytes: size->0 as u64,
                        }),
                        OpView::CheckCancel,
                        step_op(GsiStep::CheckingProductGsiFallback),
                    ],
                );
            }
        },
        PhaseView::ImageSize(system, system_size) => {
            if let GsiReply::Size(file_size) = r {
                if f.gsi_size > system_size {
                    lemma_no_flash(f.reported, Seq::empty());
                } else {
                    let pre = seq![
                        OpView::CheckCancel,
                        step_op(GsiStep::ProductGsiFallbackNotNeeded),
                        step_op(GsiStep::FlashingSystemGsi),
                    ];
                    lemma_one_flash(f.reported, pre, system, file_size);
                    assert(seq![OpView::CheckCancel, step_op(GsiStep::ProductGsiFallbackNotNeeded)]
                        + flash_system_ops(system, file_size) =~= pre.push(
                        OpView::Report(EventView::Flashing { partition: system, size_bytes: file_size }),
                    ));
                }
            }
        },
        PhaseView::ProductLogical(..) => {
            lemma_no_flash(f.reported, Seq::empty());
        },
        PhaseView::SystemLogical(..) => {
            lemma_no_flash(f.reported, seq![OpView::CheckCancel]);
            lemma_no_flash(f.reported, seq![OpView::CheckCancel] + generate_ops());
        },
        PhaseView::ProductResize(..) | PhaseView::SystemResize(..) => {
            lemma_no_flash(f.reported, Seq::empty());
            lemma_no_flash(f.reported, generate_ops());
        },
        PhaseView::Generating(system, product, file_size) => {
            let pre = seq![OpView::CheckCancel, step_op(GsiStep::FlashingProductGsi)];
            lemma_one_flash(f.reported, pre, product, MINIMAL_PRODUCT_GSI_SIZE);
            assert(seq![
                OpView::CheckCancel,
                step_op(GsiStep::FlashingProductGsi),
                OpView::Report(EventView::Flashing {
                    partition: product,
                    size_bytes: MINIMAL_PRODUCT_GSI_SIZE,
                }),
            ] =~= pre.push(
                OpView::Report(EventView::Flashing { partition: product, size_bytes: MINIMAL_PRODUCT_GSI_SIZE }),
            ));
        },
        PhaseView::ProductFlash(system, file_size) => {
            let pre = seq![OpView::CheckCancel, step_op(GsiStep::FlashingSystemGsi)];
            lemma_one_flash(f.reported, pre, system, file_size);
            assert(seq![OpView::CheckCancel] + flash_system_ops(system, file_size) =~= pre.push(
                OpView::Report(EventView::Flashing { partition: system, size_bytes: file_size }),
            ));
        },
        PhaseView::FinalReboot => {},
    }
}


// ── What a whole run reports ────────────────────────────────────────

/// An event the workflow may report: it never reports wipes or skips.
pub open spec fn quiet_event(e: EventView) -> bool {
    !(e is Wiping) && !(e is PartitionSkipped)
}

/// No report of a prelude is a wipe or a skip.
pub open spec fn ops_quiet(ops: Seq<OpView>) -> bool {
    forall|i: int| 0 <= i < ops.len() ==> match #[trigger] ops[i] {
        OpView::Report(e) => quiet_event(e),
        OpView::CheckCancel => true,
    }
}

/// The number of wiping events among `es`.
pub open spec fn wipe_events(es: Seq<EventView>) -> nat
    decreases es.len(),
{
    if es.len() == 0 {
        0
    } else {
        wipe_events(es.drop_last()) + if es.last() is Wiping {
            1nat
        } else {
            0nat
        }
    }
}

/// The number of skipped-partition events among `es`.
pub open spec fn skip_events(es: Seq<EventView>) -> nat
    decreases es.len(),
{
    if es.len() == 0 {
        0
    } else {
        skip_events(es.drop_last()) + if es.last() is PartitionSkipped {
            1nat
        } else {
            0nat
        }
    }
}

/// What a run has reported so far: it opens with the mode the device
/// started in, holds no wipe or skip event, and at the final reboot ends
/// with the completion step.
pub open spec fn run_record(f: FlowView) -> bool {
    &&& f.reported.len() > 0
    &&& f.reported[0] == EventView::ModeDetected(f.start)
    &&& forall|i: int| 0 <= i < f.reported.len() ==> quiet_event(#[trigger] f.reported[i])
    &&& f.phase is FinalReboot ==> f.reported.last() == EventView::Step(GsiStep::GsiFlowComplete)
}

proof fn lemma_reports_quiet(ops: Seq<OpView>)
    requires
        ops_quiet(ops),
    ensures
        forall|i: int| 0 <= i < reports_of(ops).len() ==> quiet_event(#[trigger] reports_of(ops)[i]),
    decreases ops.len(),
{
    if ops.len() > 0 {
        let init = ops.drop_last();
        assert(ops_quiet(init)) by {
            assert forall|i: int| 0 <= i < init.len() implies match #[trigger] init[i] {
                OpView::Report(e) => quiet_event(e),
                OpView::CheckCancel => true,
            } by {
                assert(init[i] == ops[i]);
            }
        }
        lemma_reports_quiet(init);
        assert(ops[ops.len() - 1] == ops.last());
        assert(init.push(ops.last()) =~= ops);
        lemma_reports_push(init, ops.last());
        let ri = reports_of(init);
        match ops.last() {
            OpView::Report(e) => {
                assert forall|i: int| 0 <= i < reports_of(ops).len() implies quiet_event(#[trigger] reports_of(ops)[i]) by {
                    if i < ri.len() {
                        assert(reports_of(ops)[i] == ri[i]);
                    }
                }
            },
            OpView::CheckCancel => {},
        }
    }
}

proof fn lemma_quiet_none(es: Seq<EventView>)
    requires
        forall|i: int| 0 <= i < es.len() ==> quiet_event(#[trigger] es[i]),
    ensures
        wipe_events(es) == 0,
        skip_events(es) == 0,
    decreases es.len(),
{
    if es.len() > 0 {
        let init = es.drop_last();
        assert forall|i: int| 0 <= i < init.len() implies quiet_event(#[trigger] init[i]) by {
            assert(init[i] == es[i]);
        }
        lemma_quiet_none(init);
        assert(quiet_event(es[es.len() - 1]));
    }
}

/// A step that continues keeps the run's record.
pub open spec fn continue_record(n: NextView) -> bool {
    n matches NextView::Continue(f2, _, _) ==> run_record(f2)
}

proof fn lemma_emit_record(f: FlowView, g: int, s: int, phase: PhaseView, ops: Seq<OpView>, cmd: CommandView)
    requires
        run_record(f),
        ops_quiet(ops),
        phase is FinalReboot ==> ops.len() > 0 && ops.last() == step_op(GsiStep::GsiFlowComplete),
    ensures
        continue_record(emit(f, g, s, phase, ops, cmd)),
{
    let rs = reports_of(ops);
    let all = f.reported + rs;
    lemma_reports_quiet(ops);
    assert forall|i: int| 0 <= i < all.len() implies quiet_event(#[trigger] all[i]) by {
        if i < f.reported.len() {
            assert(all[i] == f.reported[i]);
        } else {
            assert(all[i] == rs[i - f.reported.len()]);
        }
    }
    assert(all[0] == f.reported[0]);
    if phase is FinalReboot {
        lemma_reports_push(ops.drop_last(), ops.last());
        assert(ops.drop_last().push(ops.last()) =~= ops);
        assert(rs.len() > 0 && rs.last() == EventView::Step(GsiStep::GsiFlowComplete));
        assert(all.last() == rs.last());
    }
}

proof fn lemma_quiet_append(pre: Seq<OpView>, tail: Seq<OpView>)
    requires
        ops_quiet(pre),
        ops_quiet(tail),
    ensures
        ops_quiet(pre + tail),
{
    let ops = pre + tail;
    assert forall|i: int| 0 <= i < ops.len() implies match #[trigger] ops[i] {
        OpView::Report(e) => quiet_event(e),
        OpView::CheckCancel => true,
    } by {
        if i < pre.len() {
            assert(ops[i] == pre[i]);
        } else {
            assert(ops[i] == tail[i - pre.len()]);
        }
    }
}

proof fn lemma_enter_record(f: FlowView, g: int, s: int, pre: Seq<OpView>)
    requires
        run_record(f),
        ops_quiet(pre),
    ensures
        continue_record(enter(f, g, s, pre)),
{
    if g >= 2 {
        let tail = seq![step_op(GsiStep::GsiFlowComplete)];
        lemma_quiet_append(pre, tail);
        assert(pre.push(step_op(GsiStep::GsiFlowComplete)) =~= pre + tail);
        lemma_emit_record(f, g, s, PhaseView::FinalReboot, pre + tail, CommandView::Reboot);
    } else if s == 0 && group_mode(f.start, g) != f.mode {
        let tail = seq![OpView::CheckCancel];
        lemma_quiet_append(pre, tail);
        assert(pre.push(OpView::CheckCancel) =~= pre + tail);
        lemma_emit_record(
            f,
            g,
            s,
            PhaseView::Rebooting(0),
            pre + tail,
            CommandView::RebootAndWait(target_for(group_mode(f.start, g))),
        );
    } else {
        let tail = match stage_at(f.start, g, s) {
            GsiStage::FlashVbmeta => seq![
                OpView::CheckCancel,
                step_op(GsiStep::PreparingVbmetaFlash),
                step_op(GsiStep::FlashingVbmeta),
            ],
            GsiStage::WipeUserdata => seq![OpView::CheckCancel, step_op(GsiStep::WipingUserdata)],
            GsiStage::FlashSystem => seq![OpView::CheckCancel],
        };
        lemma_quiet_append(pre, tail);
        assert(pre.push(OpView::CheckCancel) =~= pre + seq![OpView::CheckCancel]);
        match stage_at(f.start, g, s) {
            GsiStage::FlashVbmeta => lemma_emit_record(f, g, s, PhaseView::VbmetaFlash, pre + tail, CommandView::FlashEmptyVbmeta),
            GsiStage::WipeUserdata => lemma_emit_record(f, g, s, PhaseView::Wiping, pre + tail, CommandView::FormatData(f.clean_test)),
            GsiStage::FlashSystem => lemma_emit_record(f, g, s, PhaseView::SlotQuery, pre + tail, CommandView::GetVar("current-slot"@)),
        }
    }
}

/// Every step keeps the record of a run: whatever the caller replies, the
/// events reported still open with the detected start mode, hold no wipe
/// or skip event, and end with the completion step at the final reboot.
pub proof fn law_step_keeps_run_record(f: FlowView, r: GsiReply)
    requires
        run_record(f),
    ensures
        continue_record(gsi_step_spec(f, r)),
{
    let e: Seq<OpView> = Seq::empty();
    if !answers(f.pending, r) {
        return;
    }
    match f.phase {
        PhaseView::ExtractingTools => lemma_enter_record(f, 0, 0, e),
        PhaseView::Rebooting(attempt) => {
            if let GsiReply::Mode(m) = r {
                let target = group_mode(f.start, f.group);
                if m == target {
                    lemma_enter_record(FlowView { mode: m, ..f }, f.group, 0, seq![OpView::Report(EventView::ModeReady(target))]);
                } else if attempt == 0 {
                    lemma_emit_record(f, f.group, f.stage, PhaseView::WaitingForDevice, e, CommandView::WaitForDevice);
                }
            }
        },
        PhaseView::WaitingForDevice => lemma_emit_record(
            f,
            f.group,
            f.stage,
            PhaseView::Rebooting(1),
            e,
            CommandView::RebootAndWait(target_for(group_mode(f.start, f.group))),
        ),
        PhaseView::VbmetaFlash | PhaseView::Wiping | PhaseView::SystemFlash => {
            lemma_enter_record(f, f.group, f.stage + 1, e);
            lemma_enter_record(f, f.group + 1, 0, e);
        },
        PhaseView::SlotQuery => {
            let slot = match r {
                GsiReply::Text(t) => t@,
                _ => "a"@,
            };
            lemma_emit_record(f, f.group, f.stage, PhaseView::SizeQuery(slot, 0), e,
                CommandView::GetVar("partition-size:"@ + candidate_name(slot, 0)));
        },
        PhaseView::SizeQuery(slot, c) => {
            let size = match r {
                GsiReply::Text(t) => spec_getvar_hex(t@),
                _ => None,
            };
            if size matches Some(n) && n > 0 {
                let name = candidate_name(slot, c);
                lemma_emit_record(f, f.group, f.stage, PhaseView::ImageSize(name, size->0 as u64), seq![
                    OpView::Report(EventView::ResolvedPartition {
                        base: "system"@,
                        partition: name,
                        size_bytes: size->0 as u64,
                    }),
                    OpView::CheckCancel,
                    step_op(GsiStep::CheckingProductGsiFallback),
                ], CommandView::ImageFileSize);
            } else if c == 0 {
                lemma_emit_record(f, f.group, f.stage, PhaseView::SizeQuery(slot, 1), e,
                    CommandView::GetVar("partition-size:"@ + candidate_name(slot, 1)));
            }
        },
        PhaseView::ImageSize(system, system_size) => {
            if let GsiReply::Size(file_size) = r {
                if f.gsi_size > system_size {
                    let product = replace_all(system, "system"@, "product"@);
                    lemma_emit_record(f, f.group, f.stage, PhaseView::ProductLogical(system, product, file_size), e,
                        CommandView::IsLogical(product));
                } else {
                    let ops = seq![OpView::CheckCancel, step_op(GsiStep::ProductGsiFallbackNotNeeded)]
                        + flash_system_ops(system, file_size);
                    lemma_quiet_append(seq![OpView::CheckCancel, step_op(GsiStep::ProductGsiFallbackNotNeeded)],
                        flash_system_ops(system, file_size));
                    lemma_emit_record(f, f.group, f.stage, PhaseView::SystemFlash, ops, CommandView::FlashGsi(system));
                }
            }
        },
        PhaseView::ProductLogical(system, product, file_size) => lemma_emit_record(
            f,
            f.group,
            f.stage,
            PhaseView::SystemLogical(system, product, file_size, r matches GsiReply::Logical(b) && b),
            e,
            CommandView::IsLogical(system),
        ),
        PhaseView::SystemLogical(system, product, file_size, pl) => {
            let sl = r matches GsiReply::Logical(b) && b;
            let cc = seq![OpView::CheckCancel];
            lemma_quiet_append(cc, generate_ops());
            lemma_emit_record(f, f.group, f.stage, PhaseView::ProductResize(system, product, file_size, sl), cc,
                CommandView::Resize(product, MINIMAL_PRODUCT_GSI_SIZE));
            lemma_emit_record(f, f.group, f.stage, PhaseView::SystemResize(system, product, file_size), cc,
                CommandView::Resize(system, f.gsi_size));
            lemma_emit_record(f, f.group, f.stage, PhaseView::Generating(system, product, file_size), cc + generate_ops(),
                CommandView::GenerateProductGsi);
        },
        PhaseView::ProductResize(system, product, file_size, sl) => {
            lemma_emit_record(f, f.group, f.stage, PhaseView::SystemResize(system, product, file_size), e,
                CommandView::Resize(system, f.gsi_size));
            lemma_emit_record(f, f.group, f.stage, PhaseView::Generating(system, product, file_size), generate_ops(),
                CommandView::GenerateProductGsi);
        },
        PhaseView::SystemResize(system, product, file_size) => {
            lemma_emit_record(f, f.group, f.stage, PhaseView::Generating(system, product, file_size), generate_ops(),
                CommandView::GenerateProductGsi);
        },
        PhaseView::Generating(system, product, file_size) => {
            lemma_emit_record(f, f.group, f.stage, PhaseView::ProductFlash(system, file_size), seq![
                OpView::CheckCancel,
                step_op(GsiStep::FlashingProductGsi),
                OpView::Report(EventView::Flashing {
                    partition: product,
                    size_bytes: MINIMAL_PRODUCT_GSI_SIZE,
                }),
            ], CommandView::FlashProductGsi(product));
        },
        PhaseView::ProductFlash(system, file_size) => {
            lemma_quiet_append(seq![OpView::CheckCancel], flash_system_ops(system, file_size));
            lemma_emit_record(f, f.group, f.stage, PhaseView::SystemFlash, seq![OpView::CheckCancel]
                + flash_system_ops(system, file_size), CommandView::FlashGsi(system));
        },
        PhaseView::FinalReboot => {},
    }
}

/// A run that succeeds sums up exactly what it reported: as many flashes,
/// wipes and skips as there are such events, the bytes of the flashing
/// events; its record opens with the detected start mode and ends with
/// the completion step.
pub proof fn law_success_summary_counts_events(f: FlowView, r: GsiReply)
    requires
        flow_wf(f),
        run_record(f),
    ensures
        gsi_step_spec(f, r) matches NextView::Finished(FinishView::Success(s)) ==> {
            &&& s.flash_count == flash_events(f.reported)
            &&& s.wipe_count == wipe_events(f.reported)
            &&& s.skipped_count == skip_events(f.reported)
            &&& s.total_bytes == flashed_bytes(f.reported)
            &&& f.reported[0] == EventView::ModeDetected(f.start)
            &&& f.reported.last() == EventView::Step(GsiStep::GsiFlowComplete)
        },
{
    lemma_quiet_none(f.reported);
}

// ── The order of a run's milestones ─────────────────────────────────

/// Milestone number of an event in a run from `start`, 0 for other events.
/// From bootloader: flashing vbmeta 1, wiping userdata 2, fastbootd ready 3,
/// system resolved 4, flashing system 5. From fastbootd: system resolved 1,
/// flashing system 2, bootloader ready 3, flashing vbmeta 4, wiping
/// userdata 5.
pub open spec fn milestone(start: FastbootMode, e: EventView) -> nat {
    let vb: nat = if start == FastbootMode::Bootloader { 1 } else { 4 };
    let sys: nat = if start == FastbootMode::Bootloader { 4 } else { 1 };
    match e {
        EventView::Step(GsiStep::FlashingVbmeta) => vb,
        EventView::Step(GsiStep::WipingUserdata) => vb + 1,
        EventView::ModeReady(m) => if m != start { 3 } else { 0 },
        EventView::ResolvedPartition { .. } => sys,
        EventView::Step(GsiStep::FlashingSystemGsi) => sys + 1,
        _ => 0,
    }
}

/// The milestones among `es`, in order.
pub open spec fn milestones(start: FastbootMode, es: Seq<EventView>) -> Seq<nat>
    decreases es.len(),
{
    if es.len() == 0 {
        Seq::empty()
    } else {
        let m = milestone(start, es.last());
        if m > 0 {
            milestones(start, es.drop_last()).push(m)
        } else {
            milestones(start, es.drop_last())
        }
    }
}

/// The first `n` milestones: 1, 2, ..., n.
pub open spec fn first_milestones(n: nat) -> Seq<nat> {
    Seq::new(n, |i: int| (i + 1) as nat)
}

/// How many milestones a run has reached at `f`.
pub open spec fn milestones_reached(f: FlowView) -> nat {
    let vb: nat = if f.start == FastbootMode::Bootloader { 1 } else { 4 };
    let sys: nat = if f.start == FastbootMode::Bootloader { 4 } else { 1 };
    match f.phase {
        PhaseView::ExtractingTools => 0,
        PhaseView::VbmetaFlash => vb,
        PhaseView::Wiping => vb + 1,
        PhaseView::Rebooting(_) | PhaseView::WaitingForDevice => 2,
        PhaseView::SlotQuery | PhaseView::SizeQuery(..) => (sys - 1) as nat,
        PhaseView::SystemFlash => sys + 1,
        PhaseView::FinalReboot => 5,
        _ => sys,
    }
}

/// The group that flashes vbmeta and wipes userdata.
pub open spec fn vbmeta_group(start: FastbootMode) -> int {
    1 - system_group(start)
}

/// A run has reported its milestones in order, each once, up to where it
/// stands, and stands where the stage order puts it.
pub open spec fn milestones_ok(f: FlowView) -> bool {
    &&& milestones(f.start, f.reported) == first_milestones(milestones_reached(f))
    &&& f.group == 0 ==> f.mode == f.start
    &&& f.phase is VbmetaFlash ==> f.group == vbmeta_group(f.start) && f.stage == 0
    &&& f.phase is Wiping ==> f.group == vbmeta_group(f.start) && f.stage == 1
    &&& (f.phase is Rebooting || f.phase is WaitingForDevice) ==> f.group == 1
    &&& f.phase is SystemFlash ==> f.group == system_group(f.start)
}

proof fn lemma_milestones_append(start: FastbootMode, a: Seq<EventView>, b: Seq<EventView>)
    ensures
        milestones(start, a + b) == milestones(start, a) + milestones(start, b),
    decreases b.len(),
{
    if b.len() > 0 {
        lemma_milestones_append(start, a, b.drop_last());
        assert((a + b).drop_last() =~= a + b.drop_last());
        assert((a + b).last() == b.last());
    } else {
        assert(a + b =~= a);
        assert(milestones(start, a) + Seq::<nat>::empty() =~= milestones(start, a));
    }
}

/// The milestones that a prelude reports.
pub open spec fn ops_milestones(start: FastbootMode, ops: Seq<OpView>) -> Seq<nat> {
    milestones(start, reports_of(ops))
}

proof fn lemma_ops_milestones_push(start: FastbootMode, ops: Seq<OpView>, o: OpView)
    ensures
        ops_milestones(start, ops.push(o)) == match o {
            OpView::Report(e) => if milestone(start, e) > 0 {
                ops_milestones(start, ops).push(milestone(start, e))
            } else {
                ops_milestones(start, ops)
            },
            OpView::CheckCancel => ops_milestones(start, ops),
        },
{
    lemma_reports_push(ops, o);
    match o {
        OpView::Report(e) => {
            assert(reports_of(ops).push(e).drop_last() =~= reports_of(ops));
        },
        OpView::CheckCancel => {},
    }
}

/// A step that continues keeps the milestones in order.
pub open spec fn continue_milestones(n: NextView) -> bool {
    n matches NextView::Continue(f2, _, _) ==> milestones_ok(f2)
}

proof fn lemma_emit_milestones(f: FlowView, g: int, s: int, phase: PhaseView, ops: Seq<OpView>, cmd: CommandView)
    requires
        milestones(f.start, f.reported) + ops_milestones(f.start, ops) == first_milestones(
            milestones_reached(FlowView { group: g, stage: s, phase, pending: cmd, ..f }),
        ),
        g == 0 ==> f.mode == f.start,
        phase is VbmetaFlash ==> g == vbmeta_group(f.start) && s == 0,
        phase is Wiping ==> g == vbmeta_group(f.start) && s == 1,
        (phase is Rebooting || phase is WaitingForDevice) ==> g == 1,
        phase is SystemFlash ==> g == system_group(f.start),
    ensures
        continue_milestones(emit(f, g, s, phase, ops, cmd)),
{
    lemma_milestones_append(f.start, f.reported, reports_of(ops));
}

proof fn lemma_reports_concat(a: Seq<OpView>, b: Seq<OpView>)
    ensures
        reports_of(a + b) == reports_of(a) + reports_of(b),
    decreases b.len(),
{
    if b.len() > 0 {
        lemma_reports_concat(a, b.drop_last());
        assert((a + b).drop_last() =~= a + b.drop_last());
        assert((a + b).last() == b.last());
        lemma_reports_push(a + b.drop_last(), b.last());
        lemma_reports_push(b.drop_last(), b.last());
        assert(b.drop_last().push(b.last()) =~= b);
        assert((a + b.drop_last()).push(b.last()) =~= a + b);
        match b.last() {
            OpView::Report(e) => {
                assert(reports_of(a) + reports_of(b.drop_last()).push(e) =~= (reports_of(a) + reports_of(
                    b.drop_last(),
                )).push(e));
            },
            OpView::CheckCancel => {},
        }
    } else {
        assert(a + b =~= a);
        assert(reports_of(b) =~= Seq::<EventView>::empty());
        assert(reports_of(a) + Seq::<EventView>::empty() =~= reports_of(a));
    }
}

/// The milestone a single operation reports, if any.
pub open spec fn op_milestones(start: FastbootMode, o: OpView) -> Seq<nat> {
    match o {
        OpView::Report(e) => if milestone(start, e) > 0 {
            seq![milestone(start, e)]
        } else {
            Seq::empty()
        },
        OpView::CheckCancel => Seq::empty(),
    }
}

proof fn lemma_ops_milestones_cons(start: FastbootMode, o: OpView, rest: Seq<OpView>)
    ensures
        ops_milestones(start, seq![o] + rest) == op_milestones(start, o) + ops_milestones(start, rest),
{
    let e0: Seq<OpView> = Seq::empty();
    lemma_reports_concat(seq![o], rest);
    lemma_milestones_append(start, reports_of(seq![o]), reports_of(rest));
    assert(reports_of(e0) =~= Seq::<EventView>::empty());
    lemma_ops_milestones_push(start, e0, o);
    assert(e0.push(o) =~= seq![o]);
    assert(milestones(start, Seq::<EventView>::empty()) =~= Seq::<nat>::empty());
    assert(ops_milestones(start, seq![o]) =~= op_milestones(start, o));
}

proof fn lemma_ops_milestones_empty(start: FastbootMode)
    ensures
        ops_milestones(start, Seq::empty()) == Seq::<nat>::empty(),
{
    assert(reports_of(Seq::<OpView>::empty()) =~= Seq::<EventView>::empty());
}

#[verifier::spinoff_prover]
#[verifier::rlimit(40)]
proof fn lemma_ops_milestones_list(start: FastbootMode, ops: Seq<OpView>)
    ensures
        ops.len() == 1 ==> ops_milestones(start, ops) == op_milestones(start, ops[0]),
        ops.len() == 2 ==> ops_milestones(start, ops) == op_milestones(start, ops[0]) + op_milestones(start, ops[1]),
        ops.len() == 3 ==> ops_milestones(start, ops) == op_milestones(start, ops[0]) + op_milestones(start, ops[1])
            + op_milestones(start, ops[2]),
        ops.len() == 4 ==> ops_milestones(start, ops) == op_milestones(start, ops[0]) + op_milestones(start, ops[1])
            + op_milestones(start, ops[2]) + op_milestones(start, ops[3]),
{
    lemma_ops_milestones_empty(start);
    let e0: Seq<OpView> = Seq::empty();
    if ops.len() >= 1 && ops.len() <= 4 {
        let n = ops.len();
        let r3 = ops.subrange(n - 1, n as int);
        lemma_ops_milestones_cons(start, ops[n - 1], e0);
        assert(r3 =~= seq![ops[n - 1]] + e0);
        if n >= 2 {
            let r2 = ops.subrange(n - 2, n as int);
            assert(r2 =~= seq![ops[n - 2]] + r3);
            lemma_ops_milestones_cons(start, ops[n - 2], r3);
            if n >= 3 {
                let r1 = ops.subrange(n - 3, n as int);
                assert(r1 =~= seq![ops[n - 3]] + r2);
                lemma_ops_milestones_cons(start, ops[n - 3], r2);
                if n == 4 {
                    assert(ops =~= seq![ops[0]] + r1);
                    lemma_ops_milestones_cons(start, ops[0], r1);
                    assert(op_milestones(start, ops[0]) + (op_milestones(start, ops[1]) + (op_milestones(start, ops[2]) + (op_milestones(start, ops[3]) + Seq::<nat>::empty())))
                        =~= op_milestones(start, ops[0]) + op_milestones(start, ops[1]) + op_milestones(start, ops[2]) + op_milestones(start, ops[3]));
                } else {
                    assert(ops =~= r1);
                    assert(op_milestones(start, ops[0]) + (op_milestones(start, ops[1]) + (op_milestones(start, ops[2]) + Seq::<nat>::empty()))
                        =~= op_milestones(start, ops[0]) + op_milestones(start, ops[1]) + op_milestones(start, ops[2]));
                }
            } else {
                assert(ops =~= r2);
                assert(op_milestones(start, ops[0]) + (op_milestones(start, ops[1]) + Seq::<nat>::empty())
                    =~= op_milestones(start, ops[0]) + op_milestones(start, ops[1]));
            }
        } else {
            assert(ops =~= r3);
            assert(op_milestones(start, ops[0]) + Seq::<nat>::empty() =~= op_milestones(start, ops[0]));
        }
    }
}

proof fn lemma_first_milestones_small()
    ensures
        first_milestones(0) == Seq::<nat>::empty(),
        forall|n: nat| #[trigger] first_milestones(n).push(n + 1) == first_milestones(n + 1),
        forall|n: nat| #[trigger] first_milestones(n) + Seq::<nat>::empty() == first_milestones(n),
        first_milestones(2) + seq![3nat, 4nat] == first_milestones(4),
{
    assert(first_milestones(0) =~= Seq::<nat>::empty());
    assert forall|n: nat| #[trigger] first_milestones(n).push(n + 1) == first_milestones(n + 1) by {
        assert(first_milestones(n).push(n + 1) =~= first_milestones(n + 1));
    }
    assert forall|n: nat| #[trigger] first_milestones(n) + Seq::<nat>::empty() == first_milestones(n) by {
        assert(first_milestones(n) + Seq::<nat>::empty() =~= first_milestones(n));
    }
    assert(first_milestones(2) + seq![3nat, 4nat] =~= first_milestones(4));
}

proof fn lemma_quiet_step_milestones(f: FlowView, g: int, s: int, phase: PhaseView, ops: Seq<OpView>, cmd: CommandView)
    requires
        milestones_ok(f),
        ops_milestones(f.start, ops) == Seq::<nat>::empty(),
        milestones_reached(FlowView { group: g, stage: s, phase, pending: cmd, ..f }) == milestones_reached(f),
        g == f.group,
        s == f.stage,
        !(phase is VbmetaFlash || phase is Wiping),
        (phase is Rebooting || phase is WaitingForDevice) ==> g == 1,
        phase is SystemFlash ==> g == system_group(f.start),
    ensures
        continue_milestones(emit(f, g, s, phase, ops, cmd)),
{
    lemma_first_milestones_small();
    lemma_emit_milestones(f, g, s, phase, ops, cmd);
}

proof fn lemma_milestone_step(f: FlowView, g: int, s: int, phase: PhaseView, ops: Seq<OpView>, cmd: CommandView, m: nat)
    requires
        milestones_ok(f),
        ops_milestones(f.start, ops) == seq![m],
        m == milestones_reached(f) + 1,
        milestones_reached(FlowView { group: g, stage: s, phase, pending: cmd, ..f }) == m,
        g == 0 ==> f.mode == f.start,
        phase is VbmetaFlash ==> g == vbmeta_group(f.start) && s == 0,
        phase is Wiping ==> g == vbmeta_group(f.start) && s == 1,
        (phase is Rebooting || phase is WaitingForDevice) ==> g == 1,
        phase is SystemFlash ==> g == system_group(f.start),
    ensures
        continue_milestones(emit(f, g, s, phase, ops, cmd)),
{
    lemma_first_milestones_small();
    assert(first_milestones(milestones_reached(f)).push(m) == first_milestones(m));
    assert(first_milestones(milestones_reached(f)) + seq![m] =~= first_milestones(milestones_reached(f)).push(m));
    lemma_emit_milestones(f, g, s, phase, ops, cmd);
}

/// Every step keeps a run's milestones in order, each reported once, and a
/// run that succeeds has reported all five. From bootloader: flashing
/// vbmeta, wiping userdata, fastbootd ready, the system partition
/// resolved, flashing the system GSI. From fastbootd: the system partition
/// resolved, flashing the system GSI, bootloader ready, flashing vbmeta,
/// wiping userdata.
pub proof fn law_step_keeps_milestones(f: FlowView, r: GsiReply)
    requires
        flow_wf(f),
        milestones_ok(f),
    ensures
        continue_milestones(gsi_step_spec(f, r)),
        gsi_step_spec(f, r) matches NextView::Finished(FinishView::Success(_)) ==> milestones(f.start, f.reported)
            == first_milestones(5),
{
    let st = f.start;
    let e0: Seq<OpView> = Seq::empty();
    let cc = seq![OpView::CheckCancel];
    lemma_first_milestones_small();
    lemma_ops_milestones_empty(st);
    lemma_ops_milestones_list(st, cc);
    assert(e0.push(OpView::CheckCancel) =~= cc);
    if !answers(f.pending, r) {
        return;
    }
    match f.phase {
        PhaseView::ExtractingTools => {
            if !(r is Failed) {
                if st == FastbootMode::Bootloader {
                    let ops = seq![OpView::CheckCancel, step_op(GsiStep::PreparingVbmetaFlash), step_op(GsiStep::FlashingVbmeta)];
                    assert(e0 + ops =~= ops);
                    lemma_ops_milestones_list(st, ops);
                    lemma_milestone_step(f, 0, 0, PhaseView::VbmetaFlash, ops, CommandView::FlashEmptyVbmeta, 1);
                } else {
                    lemma_quiet_step_milestones(f, 0, 0, PhaseView::SlotQuery, cc, CommandView::GetVar("current-slot"@));
                }
            }
        },
        PhaseView::Rebooting(attempt) => {
            if let GsiReply::Mode(m) = r {
                let target = group_mode(st, f.group);
                if m == target {
                    let fm = FlowView { mode: m, ..f };
                    let pre = seq![OpView::Report(EventView::ModeReady(target))];
                    if st == FastbootMode::Bootloader {
                        let ops = pre.push(OpView::CheckCancel);
                        assert(ops =~= seq![OpView::Report(EventView::ModeReady(target)), OpView::CheckCancel]);
                        lemma_ops_milestones_list(st, ops);
                        lemma_milestone_step(fm, 1, 0, PhaseView::SlotQuery, ops, CommandView::GetVar("current-slot"@), 3);
                    } else {
                        let ops = pre + seq![OpView::CheckCancel, step_op(GsiStep::PreparingVbmetaFlash), step_op(GsiStep::FlashingVbmeta)];
                        assert(ops =~= seq![
                            OpView::Report(EventView::ModeReady(target)),
                            OpView::CheckCancel,
                            step_op(GsiStep::PreparingVbmetaFlash),
                            step_op(GsiStep::FlashingVbmeta),
                        ]);
                        lemma_ops_milestones_list(st, ops);
                        assert(ops_milestones(st, ops) =~= seq![3nat, 4nat]);
                        lemma_emit_milestones(fm, 1, 0, PhaseView::VbmetaFlash, ops, CommandView::FlashEmptyVbmeta);
                    }
                } else if attempt == 0 {
                    lemma_quiet_step_milestones(f, f.group, f.stage, PhaseView::WaitingForDevice, e0, CommandView::WaitForDevice);
                }
            }
        },
        PhaseView::WaitingForDevice => {
            if !(r is Failed) {
                lemma_quiet_step_milestones(f, f.group, f.stage, PhaseView::Rebooting(1), e0,
                    CommandView::RebootAndWait(target_for(group_mode(st, f.group))));
            }
        },
        PhaseView::VbmetaFlash => {
            if !(r is Failed) {
                let ops = seq![OpView::CheckCancel, step_op(GsiStep::WipingUserdata)];
                assert(e0 + ops =~= ops);
                lemma_ops_milestones_list(st, ops);
                lemma_milestone_step(f, f.group, 1, PhaseView::Wiping, ops, CommandView::FormatData(f.clean_test),
                    milestones_reached(f) + 1);
            }
        },
        PhaseView::Wiping => {
            if !(r is Failed) {
                if st == FastbootMode::Bootloader {
                    assert(e0.push(OpView::CheckCancel) =~= cc);
                    lemma_emit_milestones(f, 1, 0, PhaseView::Rebooting(0), cc,
                        CommandView::RebootAndWait(target_for(group_mode(st, 1))));
                } else {
                    let ops = e0.push(step_op(GsiStep::GsiFlowComplete));
                    assert(ops =~= seq![step_op(GsiStep::GsiFlowComplete)]);
                    lemma_ops_milestones_list(st, ops);
                    lemma_emit_milestones(f, 2, 0, PhaseView::FinalReboot, ops, CommandView::Reboot);
                }
            }
        },
        PhaseView::SystemFlash => {
            if !(r is Failed) {
                if st == FastbootMode::Bootloader {
                    let ops = e0.push(step_op(GsiStep::GsiFlowComplete));
                    assert(ops =~= seq![step_op(GsiStep::GsiFlowComplete)]);
                    lemma_ops_milestones_list(st, ops);
                    lemma_emit_milestones(f, 2, 0, PhaseView::FinalReboot, ops, CommandView::Reboot);
                } else {
                    lemma_emit_milestones(f, 1, 0, PhaseView::Rebooting(0), cc,
                        CommandView::RebootAndWait(target_for(group_mode(st, 1))));
                }
            }
        },
        PhaseView::SlotQuery => {
            let slot = match r {
                GsiReply::Text(t) => t@,
                _ => "a"@,
            };
            lemma_quiet_step_milestones(f, f.group, f.stage, PhaseView::SizeQuery(slot, 0), e0,
                CommandView::GetVar("partition-size:"@ + candidate_name(slot, 0)));
        },
        PhaseView::SizeQuery(slot, c) => {
            let size = match r {
                GsiReply::Text(t) => spec_getvar_hex(t@),
                _ => None,
            };
            if size matches Some(n) && n > 0 {
                let name = candidate_name(slot, c);
                let ops = seq![
                    OpView::Report(EventView::ResolvedPartition {
                        base: "system"@,
                        partition: name,
                        size_bytes: size->0 as u64,
                    }),
                    OpView::CheckCancel,
                    step_op(GsiStep::CheckingProductGsiFallback),
                ];
                lemma_ops_milestones_list(st, ops);
                lemma_milestone_step(f, f.group, f.stage, PhaseView::ImageSize(name, size->0 as u64), ops,
                    CommandView::ImageFileSize, milestones_reached(f) + 1);
            } else if c == 0 {
                lemma_quiet_step_milestones(f, f.group, f.stage, PhaseView::SizeQuery(slot, 1), e0,
                    CommandView::GetVar("partition-size:"@ + candidate_name(slot, 1)));
            }
        },
        PhaseView::ImageSize(system, system_size) => {
            if let GsiReply::Size(file_size) = r {
                if f.gsi_size > system_size {
                    let product = replace_all(system, "system"@, "product"@);
                    lemma_quiet_step_milestones(f, f.group, f.stage, PhaseView::ProductLogical(system, product, file_size), e0,
                        CommandView::IsLogical(product));
                } else {
                    let ops = seq![OpView::CheckCancel, step_op(GsiStep::ProductGsiFallbackNotNeeded)]
                        + flash_system_ops(system, file_size);
                    assert(ops =~= seq![
                        OpView::CheckCancel,
                        step_op(GsiStep::ProductGsiFallbackNotNeeded),
                        step_op(GsiStep::FlashingSystemGsi),
                        OpView::Report(EventView::Flashing { partition: system, size_bytes: file_size }),
                    ]);
                    lemma_ops_milestones_list(st, ops);
                    lemma_milestone_step(f, f.group, f.stage, PhaseView::SystemFlash, ops, CommandView::FlashGsi(system),
                        milestones_reached(f) + 1);
                }
            }
        },
        PhaseView::ProductLogical(system, product, file_size) => {
            lemma_quiet_step_milestones(f, f.group, f.stage,
                PhaseView::SystemLogical(system, product, file_size, r matches GsiReply::Logical(b) && b), e0,
                CommandView::IsLogical(system));
        },
        PhaseView::SystemLogical(system, product, file_size, pl) => {
            let sl = r matches GsiReply::Logical(b) && b;
            let cg = cc + generate_ops();
            assert(cg =~= seq![OpView::CheckCancel, OpView::CheckCancel, step_op(GsiStep::GeneratingProductGsiImage)]);
            lemma_ops_milestones_list(st, cg);
            lemma_quiet_step_milestones(f, f.group, f.stage, PhaseView::ProductResize(system, product, file_size, sl), cc,
                CommandView::Resize(product, MINIMAL_PRODUCT_GSI_SIZE));
            lemma_quiet_step_milestones(f, f.group, f.stage, PhaseView::SystemResize(system, product, file_size), cc,
                CommandView::Resize(system, f.gsi_size));
            lemma_quiet_step_milestones(f, f.group, f.stage, PhaseView::Generating(system, product, file_size), cg,
                CommandView::GenerateProductGsi);
        },
        PhaseView::ProductResize(system, product, file_size, sl) => {
            lemma_ops_milestones_list(st, generate_ops());
            lemma_quiet_step_milestones(f, f.group, f.stage, PhaseView::SystemResize(system, product, file_size), e0,
                CommandView::Resize(system, f.gsi_size));
            lemma_quiet_step_milestones(f, f.group, f.stage, PhaseView::Generating(system, product, file_size), generate_ops(),
                CommandView::GenerateProductGsi);
        },
        PhaseView::SystemResize(system, product, file_size) => {
            lemma_ops_milestones_list(st, generate_ops());
            lemma_quiet_step_milestones(f, f.group, f.stage, PhaseView::Generating(system, product, file_size), generate_ops(),
                CommandView::GenerateProductGsi);
        },
        PhaseView::Generating(system, product, file_size) => {
            let ops = seq![
                OpView::CheckCancel,
                step_op(GsiStep::FlashingProductGsi),
                OpView::Report(EventView::Flashing {
                    partition: product,
                    size_bytes: MINIMAL_PRODUCT_GSI_SIZE,
                }),
            ];
            lemma_ops_milestones_list(st, ops);
            lemma_quiet_step_milestones(f, f.group, f.stage, PhaseView::ProductFlash(system, file_size), ops,
                CommandView::FlashProductGsi(product));
        },
        PhaseView::ProductFlash(system, file_size) => {
            let ops = cc + flash_system_ops(system, file_size);
            assert(ops =~= seq![
                OpView::CheckCancel,
                step_op(GsiStep::FlashingSystemGsi),
                OpView::Report(EventView::Flashing { partition: system, size_bytes: file_size }),
            ]);
            lemma_ops_milestones_list(st, ops);
            lemma_milestone_step(f, f.group, f.stage, PhaseView::SystemFlash, ops, CommandView::FlashGsi(system),
                milestones_reached(f) + 1);
        },
        PhaseView::FinalReboot => {},
    }
}

// ── Laws over several steps ─────────────────────────────────────────

/// Entering a stage group reboots the device exactly when it is not in
/// the group's mode: a device already in the mode gets no reboot, another
/// one is rebooted to it.
pub proof fn law_group_entry_reboots_only_on_mode_change(f: FlowView, g: int, pre: Seq<OpView>)
    requires
        0 <= g < 2,
    ensures
        group_mode(f.start, g) == f.mode ==> (enter(f, g, 0, pre) matches NextView::Continue(f2, _, c)
            && !(c is RebootAndWait) && !(f2.phase is Rebooting)),
        group_mode(f.start, g) != f.mode ==> (enter(f, g, 0, pre) matches NextView::Continue(f2, _, c)
            && c == CommandView::RebootAndWait(target_for(group_mode(f.start, g))) && f2.phase == PhaseView::Rebooting(0)),
{
}

/// Switching to a group's mode: a first reply in the target mode reports
/// it ready; a wrong mode makes the flow wait for the device and reboot it
/// once more to the same target; a second wrong mode ends the run with
/// "device did not switch to <mode> after retry". At most two reboots are
/// asked for.
pub proof fn law_mode_switch(f: FlowView, m1: FastbootMode, w: FastbootMode, m2: FastbootMode)
    requires
        f.phase == PhaseView::Rebooting(0),
        f.pending == CommandView::RebootAndWait(target_for(group_mode(f.start, f.group))),
    ensures
        ({
            let target = group_mode(f.start, f.group);
            let wait = FlowView { phase: PhaseView::WaitingForDevice, pending: CommandView::WaitForDevice, ..f };
            let retry = FlowView { phase: PhaseView::Rebooting(1), ..f };
            &&& m1 == target ==> gsi_step_spec(f, GsiReply::Mode(m1)) == enter(
                FlowView { mode: target, ..f },
                f.group,
                0,
                seq![OpView::Report(EventView::ModeReady(target))],
            )
            &&& m1 != target ==> gsi_step_spec(f, GsiReply::Mode(m1)) == NextView::Continue(
                wait,
                Seq::empty(),
                CommandView::WaitForDevice,
            )
            &&& gsi_step_spec(wait, GsiReply::Mode(w)) == NextView::Continue(retry, Seq::empty(), f.pending)
            &&& m2 == target ==> gsi_step_spec(retry, GsiReply::Mode(m2)) == enter(
                FlowView { mode: target, ..retry },
                f.group,
                0,
                seq![OpView::Report(EventView::ModeReady(target))],
            )
            &&& m2 != target ==> gsi_step_spec(retry, GsiReply::Mode(m2)) == NextView::Finished(
                FinishView::Unresolved(no_switch_message(target)),
            )
        }),
{
    assert(reports_of(Seq::<OpView>::empty()) =~= Seq::<EventView>::empty());
    assert(f.reported + Seq::<EventView>::empty() =~= f.reported);
}

/// The size a `partition-size:` reply gives, when it is a positive number.
pub open spec fn positive_size(r: GsiReply) -> Option<nat> {
    match r {
        GsiReply::Text(t) => match spec_getvar_hex(t@) {
            Some(n) => if n > 0 { Some(n) } else { None },
            None => None,
        },
        _ => None,
    }
}

/// The step resolved the system partition to `name` of `n` bytes: it
/// reports so first and asks for the image's size.
pub open spec fn resolved_to(x: NextView, name: Seq<char>, n: nat) -> bool {
    x matches NextView::Continue(f2, ops, c) && f2.phase == PhaseView::ImageSize(name, n as u64)
        && c == CommandView::ImageFileSize && ops.len() > 0 && ops[0] == OpView::Report(
        EventView::ResolvedPartition { base: "system"@, partition: name, size_bytes: n as u64 },
    )
}

/// Resolving the system partition: the slot is the device's
/// `current-slot`, or `a` when it cannot be read; `system_<slot>` is taken
/// when its size reads as a positive number, else `system`; when neither
/// has a positive size the run ends with "neither system_<slot> nor
/// system found in device partitions".
pub proof fn law_system_partition_resolution(f: FlowView, slot_reply: GsiReply, first: GsiReply, second: GsiReply)
    requires
        f.phase == PhaseView::SlotQuery,
        f.pending == CommandView::GetVar("current-slot"@),
        !(slot_reply is Failed) ==> slot_reply is Text,
    ensures
        ({
            let slot = match slot_reply {
                GsiReply::Text(t) => t@,
                _ => "a"@,
            };
            let q0 = FlowView {
                phase: PhaseView::SizeQuery(slot, 0),
                pending: CommandView::GetVar("partition-size:"@ + "system_"@ + slot),
                ..f
            };
            let q1 = FlowView {
                phase: PhaseView::SizeQuery(slot, 1),
                pending: CommandView::GetVar("partition-size:"@ + "system"@),
                ..f
            };
            &&& gsi_step_spec(f, slot_reply) == NextView::Continue(q0, Seq::empty(), q0.pending)
            &&& (first is Text || first is Failed) ==> match positive_size(first) {
                Some(n) => resolved_to(gsi_step_spec(q0, first), "system_"@ + slot, n),
                None => gsi_step_spec(q0, first) == NextView::Continue(q1, Seq::empty(), q1.pending),
            }
            &&& (second is Text || second is Failed) ==> match positive_size(second) {
                Some(n) => resolved_to(gsi_step_spec(q1, second), "system"@, n),
                None => gsi_step_spec(q1, second) == NextView::Finished(FinishView::Unresolved(no_system_message(slot))),
            }
        }),
{
    assert(reports_of(Seq::<OpView>::empty()) =~= Seq::<EventView>::empty());
    assert(f.reported + Seq::<EventView>::empty() =~= f.reported);
    let slot = match slot_reply {
        GsiReply::Text(t) => t@,
        _ => "a"@,
    };
    assert(candidate_name(slot, 0) == "system_"@ + slot);
    assert(("partition-size:"@ + "system_"@) + slot =~= "partition-size:"@ + ("system_"@ + slot));
}

/// Where a run goes on the replies `rs`, one after the other: how it
/// stands at the end, and the commands it asked for after each reply.
#[verifier::opaque]
pub open spec fn trace(f: FlowView, rs: Seq<GsiReply>) -> (NextView, Seq<CommandView>)
    decreases rs.len(),
{
    if rs.len() == 0 {
        (NextView::Continue(f, Seq::empty(), f.pending), Seq::empty())
    } else {
        match gsi_step_spec(f, rs[0]) {
            NextView::Continue(f2, ops, c) => {
                let t = trace(f2, rs.drop_first());
                (t.0, seq![c] + t.1)
            },
            fin => (fin, Seq::empty()),
        }
    }
}

/// `f` moved on to `phase`, waiting on `pending`, having reported `added`.
pub open spec fn moved(f: FlowView, phase: PhaseView, pending: CommandView, added: Seq<EventView>) -> FlowView {
    FlowView { phase, pending, reported: f.reported + added, ..f }
}

/// On the reply `r`, `f` moves to `f2` and asks for `c`: a run from `f`
/// that starts with `r` goes on as a run from `f2`.
pub open spec fn steps_to(f: FlowView, r: GsiReply, f2: FlowView, c: CommandView) -> bool {
    forall|rs: Seq<GsiReply>| #[trigger] trace(f, seq![r] + rs) == (trace(f2, rs).0, seq![c] + trace(f2, rs).1)
}

proof fn lemma_steps_to(f: FlowView, r: GsiReply, f2: FlowView, c: CommandView)
    requires
        gsi_step_spec(f, r) matches NextView::Continue(g2, _, c2) && g2 == f2 && c2 == c,
    ensures
        steps_to(f, r, f2, c),
{
    reveal(trace);
    assert forall|rs: Seq<GsiReply>| #[trigger] trace(f, seq![r] + rs) == (trace(f2, rs).0, seq![c] + trace(f2, rs).1) by {
        assert((seq![r] + rs)[0] == r);
        assert((seq![r] + rs).drop_first() =~= rs);
    }
}

proof fn lemma_trace_empty(f: FlowView)
    ensures
        trace(f, Seq::empty()) == (NextView::Continue(f, Seq::empty(), f.pending), Seq::<CommandView>::empty()),
{
    reveal(trace);
}

proof fn lemma_reports_basic()
    ensures
        reports_of(Seq::<OpView>::empty()) == Seq::<EventView>::empty(),
        reports_of(seq![OpView::CheckCancel]) == Seq::<EventView>::empty(),
        reports_of(generate_ops()) == seq![EventView::Step(GsiStep::GeneratingProductGsiImage)],
        reports_of(seq![OpView::CheckCancel] + generate_ops()) == seq![EventView::Step(GsiStep::GeneratingProductGsiImage)],
{
    let e0: Seq<OpView> = Seq::empty();
    let cc = seq![OpView::CheckCancel];
    assert(reports_of(e0) =~= Seq::<EventView>::empty());
    lemma_reports_push(e0, OpView::CheckCancel);
    assert(e0.push(OpView::CheckCancel) =~= cc);
    lemma_reports_push(cc, step_op(GsiStep::GeneratingProductGsiImage));
    assert(cc.push(step_op(GsiStep::GeneratingProductGsiImage)) =~= generate_ops());
    lemma_reports_push(cc, OpView::CheckCancel);
    let cc2 = cc.push(OpView::CheckCancel);
    lemma_reports_push(cc2, step_op(GsiStep::GeneratingProductGsiImage));
    assert(cc2.push(step_op(GsiStep::GeneratingProductGsiImage)) =~= cc + generate_ops());
}

proof fn lemma_reports_pair(a: OpView, x: GsiStep, e: EventView)
    requires
        a == OpView::CheckCancel,
    ensures
        reports_of(seq![a, step_op(x), OpView::Report(e)]) == seq![EventView::Step(x), e],
        reports_of(seq![a] + seq![step_op(x), OpView::Report(e)]) == seq![EventView::Step(x), e],
{
    let cc = seq![OpView::CheckCancel];
    lemma_reports_basic();
    lemma_reports_push(cc, step_op(x));
    lemma_reports_push(cc.push(step_op(x)), OpView::Report(e));
    assert(cc.push(step_op(x)).push(OpView::Report(e)) =~= seq![a, step_op(x), OpView::Report(e)]);
    assert(seq![a] + seq![step_op(x), OpView::Report(e)] =~= seq![a, step_op(x), OpView::Report(e)]);
}

/// The product name of a fallback for `system`.
pub open spec fn product_for(system: Seq<char>) -> Seq<char> {
    replace_all(system, "system"@, "product"@)
}

proof fn lemma_step_image_size(f: FlowView, file_size: u64)
    requires
        f.phase matches PhaseView::ImageSize(_, ss) && f.gsi_size > ss,
        f.pending == CommandView::ImageFileSize,
    ensures
        steps_to(
            f,
            GsiReply::Size(file_size),
            moved(f, PhaseView::ProductLogical(f.phase->ImageSize_0, product_for(f.phase->ImageSize_0), file_size),
                CommandView::IsLogical(product_for(f.phase->ImageSize_0)), Seq::empty()),
            CommandView::IsLogical(product_for(f.phase->ImageSize_0)),
        ),
{
    lemma_reports_basic();
    let system = f.phase->ImageSize_0;
    lemma_steps_to(f, GsiReply::Size(file_size),
        moved(f, PhaseView::ProductLogical(system, product_for(system), file_size), CommandView::IsLogical(product_for(system)), Seq::empty()),
        CommandView::IsLogical(product_for(system)));
}

proof fn lemma_step_product_logical(f: FlowView, pl: bool)
    requires
        f.phase matches PhaseView::ProductLogical(_, p, _) && f.pending == CommandView::IsLogical(p),
    ensures
        steps_to(
            f,
            GsiReply::Logical(pl),
            moved(f, PhaseView::SystemLogical(f.phase->ProductLogical_0, f.phase->ProductLogical_1, f.phase->ProductLogical_2, pl),
                CommandView::IsLogical(f.phase->ProductLogical_0), Seq::empty()),
            CommandView::IsLogical(f.phase->ProductLogical_0),
        ),
{
    lemma_reports_basic();
    lemma_steps_to(f, GsiReply::Logical(pl),
        moved(f, PhaseView::SystemLogical(f.phase->ProductLogical_0, f.phase->ProductLogical_1, f.phase->ProductLogical_2, pl),
            CommandView::IsLogical(f.phase->ProductLogical_0), Seq::empty()),
        CommandView::IsLogical(f.phase->ProductLogical_0));
}

/// Where the answer on whether system is logical leads.
pub open spec fn after_system_logical(f: FlowView, sl: bool) -> (FlowView, CommandView) {
    let s = f.phase->SystemLogical_0;
    let p = f.phase->SystemLogical_1;
    let n = f.phase->SystemLogical_2;
    let pl = f.phase->SystemLogical_3;
    if pl {
        let c = CommandView::Resize(p, MINIMAL_PRODUCT_GSI_SIZE);
        (moved(f, PhaseView::ProductResize(s, p, n, sl), c, Seq::empty()), c)
    } else if sl {
        let c = CommandView::Resize(s, f.gsi_size);
        (moved(f, PhaseView::SystemResize(s, p, n), c, Seq::empty()), c)
    } else {
        let c = CommandView::GenerateProductGsi;
        (moved(f, PhaseView::Generating(s, p, n), c, seq![EventView::Step(GsiStep::GeneratingProductGsiImage)]), c)
    }
}

proof fn lemma_step_system_logical(f: FlowView, sl: bool)
    requires
        f.phase matches PhaseView::SystemLogical(s, _, _, _) && f.pending == CommandView::IsLogical(s),
    ensures
        steps_to(f, GsiReply::Logical(sl), after_system_logical(f, sl).0, after_system_logical(f, sl).1),
{
    lemma_reports_basic();
    lemma_steps_to(f, GsiReply::Logical(sl), after_system_logical(f, sl).0, after_system_logical(f, sl).1);
}

/// Where the answer to the product resize leads.
pub open spec fn after_product_resize(f: FlowView) -> (FlowView, CommandView) {
    let s = f.phase->ProductResize_0;
    let p = f.phase->ProductResize_1;
    let n = f.phase->ProductResize_2;
    if f.phase->ProductResize_3 {
        let c = CommandView::Resize(s, f.gsi_size);
        (moved(f, PhaseView::SystemResize(s, p, n), c, Seq::empty()), c)
    } else {
        let c = CommandView::GenerateProductGsi;
        (moved(f, PhaseView::Generating(s, p, n), c, seq![EventView::Step(GsiStep::GeneratingProductGsiImage)]), c)
    }
}

proof fn lemma_step_product_resize(f: FlowView)
    requires
        f.phase matches PhaseView::ProductResize(_, p, _, _) && f.pending == CommandView::Resize(p, MINIMAL_PRODUCT_GSI_SIZE),
    ensures
        steps_to(f, GsiReply::Done, after_product_resize(f).0, after_product_resize(f).1),
{
    lemma_reports_basic();
    lemma_steps_to(f, GsiReply::Done, after_product_resize(f).0, after_product_resize(f).1);
}

proof fn lemma_step_system_resize(f: FlowView)
    requires
        f.phase matches PhaseView::SystemResize(s, _, _) && f.pending == CommandView::Resize(s, f.gsi_size),
    ensures
        steps_to(
            f,
            GsiReply::Done,
            moved(f, PhaseView::Generating(f.phase->SystemResize_0, f.phase->SystemResize_1, f.phase->SystemResize_2),
                CommandView::GenerateProductGsi, seq![EventView::Step(GsiStep::GeneratingProductGsiImage)]),
            CommandView::GenerateProductGsi,
        ),
{
    lemma_reports_basic();
    lemma_steps_to(f, GsiReply::Done,
        moved(f, PhaseView::Generating(f.phase->SystemResize_0, f.phase->SystemResize_1, f.phase->SystemResize_2),
            CommandView::GenerateProductGsi, seq![EventView::Step(GsiStep::GeneratingProductGsiImage)]),
        CommandView::GenerateProductGsi);
}

proof fn lemma_step_generating(f: FlowView)
    requires
        f.phase is Generating,
        f.pending == CommandView::GenerateProductGsi,
    ensures
        steps_to(
            f,
            GsiReply::Done,
            moved(f, PhaseView::ProductFlash(f.phase->Generating_0, f.phase->Generating_2),
                CommandView::FlashProductGsi(f.phase->Generating_1), seq![
                EventView::Step(GsiStep::FlashingProductGsi),
                EventView::Flashing { partition: f.phase->Generating_1, size_bytes: MINIMAL_PRODUCT_GSI_SIZE },
            ]),
            CommandView::FlashProductGsi(f.phase->Generating_1),
        ),
{
    lemma_reports_pair(OpView::CheckCancel, GsiStep::FlashingProductGsi,
        EventView::Flashing { partition: f.phase->Generating_1, size_bytes: MINIMAL_PRODUCT_GSI_SIZE });
    lemma_steps_to(f, GsiReply::Done,
        moved(f, PhaseView::ProductFlash(f.phase->Generating_0, f.phase->Generating_2),
            CommandView::FlashProductGsi(f.phase->Generating_1), seq![
            EventView::Step(GsiStep::FlashingProductGsi),
            EventView::Flashing { partition: f.phase->Generating_1, size_bytes: MINIMAL_PRODUCT_GSI_SIZE },
        ]),
        CommandView::FlashProductGsi(f.phase->Generating_1));
}

proof fn lemma_step_product_flash(f: FlowView, p: Seq<char>)
    requires
        f.phase is ProductFlash,
        f.pending == CommandView::FlashProductGsi(p),
    ensures
        steps_to(
            f,
            GsiReply::Done,
            moved(f, PhaseView::SystemFlash, CommandView::FlashGsi(f.phase->ProductFlash_0), seq![
                EventView::Step(GsiStep::FlashingSystemGsi),
                EventView::Flashing { partition: f.phase->ProductFlash_0, size_bytes: f.phase->ProductFlash_1 },
            ]),
            CommandView::FlashGsi(f.phase->ProductFlash_0),
        ),
{
    lemma_reports_pair(OpView::CheckCancel, GsiStep::FlashingSystemGsi,
        EventView::Flashing { partition: f.phase->ProductFlash_0, size_bytes: f.phase->ProductFlash_1 });
    lemma_steps_to(f, GsiReply::Done,
        moved(f, PhaseView::SystemFlash, CommandView::FlashGsi(f.phase->ProductFlash_0), seq![
            EventView::Step(GsiStep::FlashingSystemGsi),
            EventView::Flashing { partition: f.phase->ProductFlash_0, size_bytes: f.phase->ProductFlash_1 },
        ]),
        CommandView::FlashGsi(f.phase->ProductFlash_0));
}

/// The replies of a product fallback that succeeds: the image size, whether
/// product and system are logical, a reply to each resize asked for, to
/// the image generation and to the product flash.
pub open spec fn fallback_replies(file_size: u64, pl: bool, sl: bool) -> Seq<GsiReply> {
    seq![GsiReply::Size(file_size), GsiReply::Logical(pl), GsiReply::Logical(sl)]
        + (if pl { seq![GsiReply::Done] } else { Seq::empty() })
        + (if sl { seq![GsiReply::Done] } else { Seq::empty() })
        + seq![GsiReply::Done, GsiReply::Done]
}

/// The commands of a product fallback, in order: ask whether product and
/// system are logical, resize product to 64 MiB and system to the GSI's
/// size where they are, generate the `product_gsi` image, flash it to
/// product, then flash the GSI to system.
pub open spec fn fallback_commands(system: Seq<char>, product: Seq<char>, gsi_size: u64, pl: bool, sl: bool) -> Seq<
    CommandView,
> {
    seq![CommandView::IsLogical(product), CommandView::IsLogical(system)]
        + (if pl { seq![CommandView::Resize(product, MINIMAL_PRODUCT_GSI_SIZE)] } else { Seq::empty() })
        + (if sl { seq![CommandView::Resize(system, gsi_size)] } else { Seq::empty() })
        + seq![
            CommandView::GenerateProductGsi,
            CommandView::FlashProductGsi(product),
            CommandView::FlashGsi(system),
        ]
}

/// The product fallback: when the GSI is larger than the system
/// partition, product (named after system) is resized to 64 MiB where it
/// is logical before system is resized to the GSI where it is, the
/// `product_gsi` image is generated and flashed to product before the GSI
/// is flashed to system, and the run reports generating, flashing product
/// (64 MiB), flashing system and the system image's bytes, in that order.
pub proof fn law_product_fallback_order(f: FlowView, file_size: u64, pl: bool, sl: bool)
    requires
        f.phase matches PhaseView::ImageSize(_, ss) && f.gsi_size > ss,
        f.pending == CommandView::ImageFileSize,
    ensures
        ({
            let system = f.phase->ImageSize_0;
            let product = product_for(system);
            let t = trace(f, fallback_replies(file_size, pl, sl));
            &&& t.1 == fallback_commands(system, product, f.gsi_size, pl, sl)
            &&& t.0 matches NextView::Continue(f2, _, _)
            &&& f2.phase == PhaseView::SystemFlash
            &&& f2.reported == f.reported + seq![
                EventView::Step(GsiStep::GeneratingProductGsiImage),
                EventView::Step(GsiStep::FlashingProductGsi),
                EventView::Flashing { partition: product, size_bytes: MINIMAL_PRODUCT_GSI_SIZE },
                EventView::Step(GsiStep::FlashingSystemGsi),
                EventView::Flashing { partition: system, size_bytes: file_size },
            ]
        }),
{
    let system = f.phase->ImageSize_0;
    let product = product_for(system);
    let g = f.gsi_size;
    let e: Seq<EventView> = Seq::empty();
    let gen = seq![EventView::Step(GsiStep::GeneratingProductGsiImage)];
    let pfe = seq![
        EventView::Step(GsiStep::FlashingProductGsi),
        EventView::Flashing { partition: product, size_bytes: MINIMAL_PRODUCT_GSI_SIZE },
    ];
    let sfe = seq![
        EventView::Step(GsiStep::FlashingSystemGsi),
        EventView::Flashing { partition: system, size_bytes: file_size },
    ];
    let f1 = moved(f, PhaseView::ProductLogical(system, product, file_size), CommandView::IsLogical(product), e);
    lemma_step_image_size(f, file_size);
    let f2 = moved(f1, PhaseView::SystemLogical(system, product, file_size, pl), CommandView::IsLogical(system), e);
    lemma_step_product_logical(f1, pl);
    lemma_step_system_logical(f2, sl);
    let done = seq![GsiReply::Done];
    let d2 = seq![GsiReply::Done, GsiReply::Done];
    // the flow when the image is generated, by the path taken
    let fg = if pl {
        if sl {
            let fpr = after_system_logical(f2, sl).0;
            lemma_step_product_resize(fpr);
            let fsr = after_product_resize(fpr).0;
            lemma_step_system_resize(fsr);
            moved(fsr, PhaseView::Generating(system, product, file_size), CommandView::GenerateProductGsi, gen)
        } else {
            let fpr = after_system_logical(f2, sl).0;
            lemma_step_product_resize(fpr);
            after_product_resize(fpr).0
        }
    } else if sl {
        let fsr = after_system_logical(f2, sl).0;
        lemma_step_system_resize(fsr);
        moved(fsr, PhaseView::Generating(system, product, file_size), CommandView::GenerateProductGsi, gen)
    } else {
        after_system_logical(f2, sl).0
    };
    assert(fg.reported =~= f.reported + gen);
    assert(fg.phase == PhaseView::Generating(system, product, file_size));
    lemma_step_generating(fg);
    let fpf = moved(fg, PhaseView::ProductFlash(system, file_size), CommandView::FlashProductGsi(product), pfe);
    lemma_step_product_flash(fpf, product);
    let fsf = moved(fpf, PhaseView::SystemFlash, CommandView::FlashGsi(system), sfe);
    lemma_trace_empty(fsf);
    let empty: Seq<GsiReply> = Seq::empty();
    assert(done =~= seq![GsiReply::Done] + empty);
    assert(trace(fpf, done) == (trace(fsf, empty).0, seq![CommandView::FlashGsi(system)] + trace(fsf, empty).1));
    assert(d2 =~= seq![GsiReply::Done] + done);
    assert(trace(fg, d2) == (trace(fpf, done).0, seq![CommandView::FlashProductGsi(product)] + trace(fpf, done).1));
    let tail = seq![CommandView::GenerateProductGsi, CommandView::FlashProductGsi(product), CommandView::FlashGsi(system)];
    let rest = (if pl { done } else { Seq::empty() }) + (if sl { done } else { Seq::empty() }) + d2;
    if pl {
        let fpr = after_system_logical(f2, sl).0;
        if sl {
            let fsr = after_product_resize(fpr).0;
            assert(seq![GsiReply::Done] + d2 =~= seq![GsiReply::Done, GsiReply::Done, GsiReply::Done]);
            assert(trace(fsr, seq![GsiReply::Done] + d2) == (trace(fg, d2).0, seq![CommandView::GenerateProductGsi] + trace(fg, d2).1));
            assert(rest =~= seq![GsiReply::Done] + (seq![GsiReply::Done] + d2));
            assert(trace(fpr, seq![GsiReply::Done] + (seq![GsiReply::Done] + d2)) == (trace(fsr, seq![GsiReply::Done] + d2).0,
                seq![CommandView::Resize(system, g)] + trace(fsr, seq![GsiReply::Done] + d2).1));
            assert(trace(f2, seq![GsiReply::Logical(sl)] + rest) == (trace(fpr, rest).0,
                seq![CommandView::Resize(product, MINIMAL_PRODUCT_GSI_SIZE)] + trace(fpr, rest).1));
        } else {
            assert(rest =~= seq![GsiReply::Done] + d2);
            assert(trace(fpr, seq![GsiReply::Done] + d2) == (trace(fg, d2).0, seq![CommandView::GenerateProductGsi] + trace(fg, d2).1));
            assert(trace(f2, seq![GsiReply::Logical(sl)] + rest) == (trace(fpr, rest).0,
                seq![CommandView::Resize(product, MINIMAL_PRODUCT_GSI_SIZE)] + trace(fpr, rest).1));
        }
    } else if sl {
        let fsr = after_system_logical(f2, sl).0;
        assert(rest =~= seq![GsiReply::Done] + d2);
        assert(trace(fsr, seq![GsiReply::Done] + d2) == (trace(fg, d2).0, seq![CommandView::GenerateProductGsi] + trace(fg, d2).1));
        assert(trace(f2, seq![GsiReply::Logical(sl)] + rest) == (trace(fsr, rest).0,
            seq![CommandView::Resize(system, g)] + trace(fsr, rest).1));
    } else {
        assert(rest =~= d2);
        assert(trace(f2, seq![GsiReply::Logical(sl)] + rest) == (trace(fg, rest).0,
            seq![CommandView::GenerateProductGsi] + trace(fg, rest).1));
    }
    let rs = fallback_replies(file_size, pl, sl);
    assert(rs =~= seq![GsiReply::Size(file_size)] + (seq![GsiReply::Logical(pl)] + (seq![GsiReply::Logical(sl)] + rest)));
    assert(trace(f1, seq![GsiReply::Logical(pl)] + (seq![GsiReply::Logical(sl)] + rest)) == (trace(f2, seq![GsiReply::Logical(sl)] + rest).0,
        seq![CommandView::IsLogical(system)] + trace(f2, seq![GsiReply::Logical(sl)] + rest).1));
    assert(trace(f, rs) == (trace(f1, seq![GsiReply::Logical(pl)] + (seq![GsiReply::Logical(sl)] + rest)).0,
        seq![CommandView::IsLogical(product)] + trace(f1, seq![GsiReply::Logical(pl)] + (seq![GsiReply::Logical(sl)] + rest)).1));
    assert(fsf.reported =~= f.reported + seq![
        EventView::Step(GsiStep::GeneratingProductGsiImage),
        EventView::Step(GsiStep::FlashingProductGsi),
        EventView::Flashing { partition: product, size_bytes: MINIMAL_PRODUCT_GSI_SIZE },
        EventView::Step(GsiStep::FlashingSystemGsi),
        EventView::Flashing { partition: system, size_bytes: file_size },
    ]);
    assert(trace(f, rs).1 =~= fallback_commands(system, product, g, pl, sl));
}

/// When the GSI fits the system partition, no fallback is made: the GSI
/// alone is flashed to system, after "fallback not needed".
pub proof fn law_no_product_fallback_when_gsi_fits(f: FlowView, file_size: u64)
    requires
        f.phase matches PhaseView::ImageSize(_, ss) && f.gsi_size <= ss,
        f.pending == CommandView::ImageFileSize,
    ensures
        gsi_step_spec(f, GsiReply::Size(file_size)) matches NextView::Continue(f2, _, c) && c
            == CommandView::FlashGsi(f.phase->ImageSize_0) && f2.phase == PhaseView::SystemFlash && f2.reported
            == f.reported + seq![
            EventView::Step(GsiStep::ProductGsiFallbackNotNeeded),
            EventView::Step(GsiStep::FlashingSystemGsi),
            EventView::Flashing { partition: f.phase->ImageSize_0, size_bytes: file_size },
        ],
{
    let system = f.phase->ImageSize_0;
    let fse = EventView::Flashing { partition: system, size_bytes: file_size };
    let cc = seq![OpView::CheckCancel];
    let a = seq![OpView::CheckCancel, step_op(GsiStep::ProductGsiFallbackNotNeeded)];
    let ops = a + flash_system_ops(system, file_size);
    lemma_reports_basic();
    lemma_reports_push(cc, step_op(GsiStep::ProductGsiFallbackNotNeeded));
    assert(cc.push(step_op(GsiStep::ProductGsiFallbackNotNeeded)) =~= a);
    lemma_reports_push(a, step_op(GsiStep::FlashingSystemGsi));
    lemma_reports_push(a.push(step_op(GsiStep::FlashingSystemGsi)), OpView::Report(fse));
    assert(a.push(step_op(GsiStep::FlashingSystemGsi)).push(OpView::Report(fse)) =~= ops);
    assert(reports_of(ops) =~= seq![
        EventView::Step(GsiStep::ProductGsiFallbackNotNeeded),
        EventView::Step(GsiStep::FlashingSystemGsi),
        fse,
    ]);
}

// ── The workflow, executed ──────────────────────────────────────────

/// The reboot target that reaches a mode.
pub fn boot_target_for(m: FastbootMode) -> (r: BootTarget)
    ensures
        r == target_for(m),
{
    match m {
        FastbootMode::Fastbootd => BootTarget::Fastboot,
        FastbootMode::Bootloader => BootTarget::Bootloader,
    }
}

fn copy_command(c: &GsiCommand) -> (r: GsiCommand)
    ensures
        command_view(r) == command_view(*c),
{
    match c {
        GsiCommand::ExtractFormatTools => GsiCommand::ExtractFormatTools,
        GsiCommand::RebootAndWait(t) => GsiCommand::RebootAndWait(*t),
        GsiCommand::WaitForDevice => GsiCommand::WaitForDevice,
        GsiCommand::FlashEmptyVbmeta => GsiCommand::FlashEmptyVbmeta,
        GsiCommand::FormatData { clean_test } => GsiCommand::FormatData { clean_test: *clean_test },
        GsiCommand::GetVar(n) => GsiCommand::GetVar(n.clone()),
        GsiCommand::ImageFileSize => GsiCommand::ImageFileSize,
        GsiCommand::IsLogical(n) => GsiCommand::IsLogical(n.clone()),
        GsiCommand::Resize { partition, size } => GsiCommand::Resize {
            partition: partition.clone(),
            size: *size,
        },
        GsiCommand::GenerateProductGsi => GsiCommand::GenerateProductGsi,
        GsiCommand::FlashProductGsi(p) => GsiCommand::FlashProductGsi(p.clone()),
        GsiCommand::FlashGsi(p) => GsiCommand::FlashGsi(p.clone()),
        GsiCommand::Reboot => GsiCommand::Reboot,
    }
}

/// Whether `r` is the kind of reply that `c` is answered with.
pub fn reply_answers(c: &GsiCommand, r: &GsiReply) -> (b: bool)
    ensures
        b == answers(command_view(*c), *r),
{
    match r {
        GsiReply::Failed(_) => true,
        GsiReply::Done => match c {
            GsiCommand::RebootAndWait(_) | GsiCommand::WaitForDevice | GsiCommand::GetVar(_)
            | GsiCommand::ImageFileSize | GsiCommand::IsLogical(_) => false,
            _ => true,
        },
        GsiReply::Mode(_) => match c {
            GsiCommand::RebootAndWait(_) | GsiCommand::WaitForDevice => true,
            _ => false,
        },
        GsiReply::Text(_) => match c {
            GsiCommand::GetVar(_) => true,
            _ => false,
        },
        GsiReply::Size(_) => match c {
            GsiCommand::ImageFileSize => true,
            _ => false,
        },
        GsiReply::Logical(_) => match c {
            GsiCommand::IsLogical(_) => true,
            _ => false,
        },
    }
}

fn no_ops() -> (v: Vec<GsiOp>)
    ensures
        ops_view(v@) == Seq::<OpView>::empty(),
{
    let v: Vec<GsiOp> = Vec::new();
    assert(ops_view(v@) =~= Seq::<OpView>::empty());
    v
}

fn step_report(s: GsiStep) -> (r: GsiOp)
    ensures
        op_view(r) == step_op(s),
{
    GsiOp::Report(GsiEvent::Step(s))
}

fn push_op(v: &mut Vec<GsiOp>, o: GsiOp)
    ensures
        ops_view(final(v)@) == ops_view(old(v)@).push(op_view(o)),
{
    let ghost before = v@;
    let ghost ov = op_view(o);
    v.push(o);
    assert(ops_view(v@) =~= ops_view(before).push(ov));
}

impl GsiFlow {
    /// The counters count the reported events.
    pub open spec fn counters_ok(&self) -> bool {
        &&& self.counters.flash_count == flash_events(self.reported@)
        &&& self.counters.total_bytes == flashed_bytes(self.reported@)
        &&& self.counters.wipe_count == 0
        &&& self.counters.skipped_count == 0
    }

    fn emit_exec(self, g: usize, s: usize, phase: GsiPhase, ops: Vec<GsiOp>, cmd: GsiCommand) -> (r:
        GsiNext)
        requires
            self.counters_ok(),
            continue_wf(
                emit(
                    self.view(),
                    g as int,
                    s as int,
                    phase_view(phase),
                    ops_view(ops@),
                    command_view(cmd),
                ),
            ),
        ensures
            next_matches(
                r,
                emit(
                    self.view(),
                    g as int,
                    s as int,
                    phase_view(phase),
                    ops_view(ops@),
                    command_view(cmd),
                ),
            ),
    {
        let GsiFlow { start, mode, gsi_size, clean_test, counters, reported, .. } = self;
        let mut counters = counters;
        count_prelude(&mut counters, &ops, Ghost(reported@));
        let command = copy_command(&cmd);
        let flow = GsiFlow {
            start,
            group: g,
            stage: s,
            mode,
            gsi_size,
            clean_test,
            phase,
            counters,
            reported: Ghost(reported@ + reports_of(ops_view(ops@))),
            pending: cmd,
        };
        GsiNext::Continue(flow, GsiAction { prelude: ops, command })
    }

    fn enter_exec(self, g: usize, s: usize, pre: Vec<GsiOp>) -> (r: GsiNext)
        requires
            self.counters_ok(),
            g <= 2,
            g < 2 ==> s < group_len(self.start, g as int),
            continue_wf(enter(self.view(), g as int, s as int, ops_view(pre@))),
        ensures
            next_matches(r, enter(self.view(), g as int, s as int, ops_view(pre@))),
    {
        let mut ops = pre;
        if g >= 2 {
            push_op(&mut ops, step_report(GsiStep::GsiFlowComplete));
            return self.emit_exec(g, s, GsiPhase::FinalReboot, ops, GsiCommand::Reboot);
        }
        let plan = plan_stage_groups(self.start);
        let needed = plan[g].0;
        assert(needed == group_mode(self.start, g as int));
        if s == 0 && needed != self.mode {
            push_op(&mut ops, GsiOp::CheckCancel);
            let t = boot_target_for(needed);
            return self.emit_exec(
                g,
                s,
                GsiPhase::Rebooting { attempt: 0 },
                ops,
                GsiCommand::RebootAndWait(t),
            );
        }
        let stage = plan[g].1[s];
        assert(stage == stage_at(self.start, g as int, s as int));
        let ghost base = ops_view(ops@);
        match stage {
            GsiStage::FlashVbmeta => {
                push_op(&mut ops, GsiOp::CheckCancel);
                push_op(&mut ops, step_report(GsiStep::PreparingVbmetaFlash));
                push_op(&mut ops, step_report(GsiStep::FlashingVbmeta));
                assert(ops_view(ops@) =~= base + seq![
                    OpView::CheckCancel,
                    step_op(GsiStep::PreparingVbmetaFlash),
                    step_op(GsiStep::FlashingVbmeta),
                ]);
                self.emit_exec(g, s, GsiPhase::VbmetaFlash, ops, GsiCommand::FlashEmptyVbmeta)
            },
            GsiStage::WipeUserdata => {
                push_op(&mut ops, GsiOp::CheckCancel);
                push_op(&mut ops, step_report(GsiStep::WipingUserdata));
                assert(ops_view(ops@) =~= base + seq![
                    OpView::CheckCancel,
                    step_op(GsiStep::WipingUserdata),
                ]);
                let clean_test = self.clean_test;
                self.emit_exec(g, s, GsiPhase::Wiping, ops, GsiCommand::FormatData { clean_test })
            },
            GsiStage::FlashSystem => {
                push_op(&mut ops, GsiOp::CheckCancel);
                let name = owned("current-slot");
                self.emit_exec(g, s, GsiPhase::SlotQuery, ops, GsiCommand::GetVar(name))
            },
        }
    }

    fn advance_exec(self) -> (r: GsiNext)
        requires
            self.counters_ok(),
            flow_wf(self.view()),
            self.group < 2,
            continue_wf(advance(self.view())),
        ensures
            next_matches(r, advance(self.view())),
    {
        let plan = plan_stage_groups(self.start);
        assert(plan@[self.group as int].0 == stage_order(self.start)[self.group as int].0);
        let len = plan[self.group].1.len();
        if self.stage + 1 < len {
            let g = self.group;
            let s = self.stage + 1;
            self.enter_exec(g, s, no_ops())
        } else {
            let g = self.group + 1;
            proof {
                assert(stage_order(self.start)[1].1.len() > 0);
            }
            self.enter_exec(g, 0, no_ops())
        }
    }

    /// Begin the workflow on a device in `mode`, for a GSI that takes
    /// `gsi_size` bytes once written: report the mode, then unpack the
    /// filesystem tools.
    pub fn start(mode: FastbootMode, gsi_size: u64, clean_test: bool) -> (r: (GsiFlow, GsiAction))
        requires
            gsi_size <= u64::MAX - (MIB - 1),
        ensures
            r.0.wf(),
            r.0.view() == (FlowView {
                start: mode,
                group: 0,
                stage: 0,
                mode,
                gsi_size,
                clean_test,
                phase: PhaseView::ExtractingTools,
                reported: seq![EventView::ModeDetected(mode)],
                pending: CommandView::ExtractFormatTools,
            }),
            ops_view(r.1.prelude@) == seq![OpView::Report(EventView::ModeDetected(mode))],
            command_view(r.1.command) == CommandView::ExtractFormatTools,
            run_record(r.0.view()),
            milestones_ok(r.0.view()),
    {
        let mut prelude: Vec<GsiOp> = Vec::new();
        push_op(&mut prelude, GsiOp::Report(GsiEvent::ModeDetected(mode)));
        assert(ops_view(prelude@) =~= seq![OpView::Report(EventView::ModeDetected(mode))]);
        let ghost reported = seq![EventView::ModeDetected(mode)];
        proof {
            lemma_counts_push(Seq::empty(), EventView::ModeDetected(mode));
            assert(Seq::<EventView>::empty().push(EventView::ModeDetected(mode)) =~= reported);
            assert(reported.drop_last() =~= Seq::<EventView>::empty());
            assert(reported.last() == EventView::ModeDetected(mode));
            assert(milestone(mode, reported.last()) == 0);
            assert(milestones(mode, Seq::<EventView>::empty()) =~= Seq::<nat>::empty());
            assert(milestones(mode, reported) =~= Seq::<nat>::empty());
            assert(first_milestones(0) =~= Seq::<nat>::empty());
        }
        let flow = GsiFlow {
            start: mode,
            group: 0,
            stage: 0,
            mode,
            gsi_size,
            clean_test,
            phase: GsiPhase::ExtractingTools,
            counters: GsiCounters { flash_count: 0, wipe_count: 0, skipped_count: 0, total_bytes: 0 },
            reported: Ghost(reported),
            pending: GsiCommand::ExtractFormatTools,
        };
        (flow, GsiAction { prelude, command: GsiCommand::ExtractFormatTools })
    }

    /// Take the reply to the pending command and decide what comes next.
    /// A reply of the wrong kind for the pending command is ignored: the
    /// command is asked again.
    pub fn step(self, reply: GsiReply) -> (r: GsiNext)
        requires
            self.wf(),
            reply_ok(reply),
        ensures
            next_matches(r, gsi_step_spec(self.view(), reply)),
    {
        proof {
            law_step_keeps_flow_consistent(self.view(), reply);
        }
        if !reply_answers(&self.pending, &reply) {
            return self.repeat();
        }
        match &self.phase {
            GsiPhase::ExtractingTools => match reply {
                GsiReply::Failed(e) => GsiNext::Finished(Err(e)),
                _ => self.enter_exec(0, 0, no_ops()),
            },
            GsiPhase::Rebooting { attempt } => {
                let attempt = *attempt;
                self.on_rebooted(reply, attempt)
            },
            GsiPhase::WaitingForDevice => match reply {
                GsiReply::Failed(e) => GsiNext::Finished(Err(e)),
                _ => self.reboot_again(),
            },
            GsiPhase::VbmetaFlash | GsiPhase::Wiping | GsiPhase::SystemFlash => match reply {
                GsiReply::Failed(e) => GsiNext::Finished(Err(e)),
                _ => self.advance_exec(),
            },
            GsiPhase::SlotQuery => self.on_slot(reply),
            GsiPhase::SizeQuery { slot, candidate } => {
                let slot = slot.clone();
                let c = *candidate;
                self.on_partition_size(reply, slot, c)
            },
            GsiPhase::ImageSize { system, system_size } => {
                let system = system.clone();
                let system_size = *system_size;
                self.on_image_size(reply, system, system_size)
            },
            GsiPhase::ProductLogical { system, product, file_size } => {
                let system = system.clone();
                let product = product.clone();
                let file_size = *file_size;
                self.on_product_logical(reply, system, product, file_size)
            },
            GsiPhase::SystemLogical { system, product, file_size, product_logical } => {
                let system = system.clone();
                let product = product.clone();
                let file_size = *file_size;
                let pl = *product_logical;
                self.on_system_logical(reply, system, product, file_size, pl)
            },
            GsiPhase::ProductResize { system, product, file_size, system_logical } => {
                let system = system.clone();
                let product = product.clone();
                let file_size = *file_size;
                let sl = *system_logical;
                match reply {
                    GsiReply::Failed(e) => GsiNext::Finished(Err(e)),
                    _ => self.after_product_resize(system, product, file_size, sl),
                }
            },
            GsiPhase::SystemResize { system, product, file_size } => {
                let system = system.clone();
                let product = product.clone();
                let file_size = *file_size;
                match reply {
                    GsiReply::Failed(e) => GsiNext::Finished(Err(e)),
                    _ => self.generate(system, product, file_size),
                }
            },
            GsiPhase::Generating { system, product, file_size } => {
                let system = system.clone();
                let product = product.clone();
                let file_size = *file_size;
                match reply {
                    GsiReply::Failed(e) => GsiNext::Finished(Err(e)),
                    _ => self.flash_product(system, product, file_size),
                }
            },
            GsiPhase::ProductFlash { system, file_size } => {
                let system = system.clone();
                let file_size = *file_size;
                match reply {
                    GsiReply::Failed(e) => GsiNext::Finished(Err(e)),
                    _ => self.flash_system_after_product(system, file_size),
                }
            },
            GsiPhase::FinalReboot => match reply {
                GsiReply::Failed(e) => GsiNext::Finished(Err(e)),
                _ => GsiNext::Finished(
                    Ok(
                        GsiFlashSummary {
                            flash_count: self.counters.flash_count as usize,
                            wipe_count: 0,
                            skipped_count: 0,
                            total_bytes: self.counters.total_bytes,
                        },
                    ),
                ),
            },
        }
    }

    fn repeat(self) -> (r: GsiNext)
        requires
            self.wf(),
        ensures
            next_matches(r, NextView::Continue(self.view(), Seq::empty(), self.view().pending)),
    {
        let command = copy_command(&self.pending);
        GsiNext::Continue(self, GsiAction { prelude: no_ops(), command })
    }

    fn on_rebooted(self, reply: GsiReply, attempt: u8) -> (r: GsiNext)
        requires
            self.wf(),
            answers(self.view().pending, reply),
            phase_view(self.phase) == PhaseView::Rebooting(attempt),
            continue_wf(gsi_step_spec(self.view(), reply)),
        ensures
            next_matches(r, gsi_step_spec(self.view(), reply)),
    {
        match reply {
            GsiReply::Failed(e) => GsiNext::Finished(Err(e)),
            GsiReply::Mode(m) => {
                let plan = plan_stage_groups(self.start);
                let target = plan[self.group].0;
                if m == target {
                    let mut pre: Vec<GsiOp> = Vec::new();
                    push_op(&mut pre, GsiOp::Report(GsiEvent::ModeReady(target)));
                    assert(ops_view(pre@) =~= seq![OpView::Report(EventView::ModeReady(target))]);
                    let g = self.group;
                    let mut next = self;
                    next.mode = m;
                    next.enter_exec(g, 0, pre)
                } else if attempt == 0 {
                    let g = self.group;
                    let s = self.stage;
                    self.emit_exec(g, s, GsiPhase::WaitingForDevice, no_ops(), GsiCommand::WaitForDevice)
                } else {
                    let a = concat_str("device did not switch to ", target.as_str());
                    let msg = concat_str(a.as_str(), " after retry");
                    GsiNext::Finished(Err(GsiError::PartitionResolution(msg)))
                }
            },
            _ => self.repeat(),
        }
    }

    fn reboot_again(self) -> (r: GsiNext)
        requires
            self.wf(),
            self.phase is WaitingForDevice,
            continue_wf(
                emit(
                    self.view(),
                    self.group as int,
                    self.stage as int,
                    PhaseView::Rebooting(1),
                    Seq::empty(),
                    CommandView::RebootAndWait(target_for(group_mode(self.start, self.group as int))),
                ),
            ),
        ensures
            next_matches(
                r,
                emit(
                    self.view(),
                    self.group as int,
                    self.stage as int,
                    PhaseView::Rebooting(1),
                    Seq::empty(),
                    CommandView::RebootAndWait(target_for(group_mode(self.start, self.group as int))),
                ),
            ),
    {
        let plan = plan_stage_groups(self.start);
        let t = boot_target_for(plan[self.group].0);
        let g = self.group;
        let s = self.stage;
        self.emit_exec(g, s, GsiPhase::Rebooting { attempt: 1 }, no_ops(), GsiCommand::RebootAndWait(t))
    }

    fn on_slot(self, reply: GsiReply) -> (r: GsiNext)
        requires
            self.wf(),
            answers(self.view().pending, reply),
            self.phase is SlotQuery,
            continue_wf(gsi_step_spec(self.view(), reply)),
        ensures
            next_matches(r, gsi_step_spec(self.view(), reply)),
    {
        let slot = match reply {
            GsiReply::Text(t) => t,
            _ => owned("a"),
        };
        let n = concat_str("system_", slot.as_str());
        let v = concat_str("partition-size:", n.as_str());
        let g = self.group;
        let s = self.stage;
        self.emit_exec(g, s, GsiPhase::SizeQuery { slot, candidate: 0 }, no_ops(), GsiCommand::GetVar(v))
    }

    fn on_partition_size(self, reply: GsiReply, slot: String, c: u8) -> (r: GsiNext)
        requires
            self.wf(),
            answers(self.view().pending, reply),
            phase_view(self.phase) == PhaseView::SizeQuery(slot@, c),
            continue_wf(gsi_step_spec(self.view(), reply)),
        ensures
            next_matches(r, gsi_step_spec(self.view(), reply)),
    {
        let size = match &reply {
            GsiReply::Text(t) => parse_getvar_hex_u64(t.as_str()),
            _ => None,
        };
        let g = self.group;
        let s = self.stage;
        match size {
            Some(n) if n > 0 => {
                let name = if c == 0 {
                    concat_str("system_", slot.as_str())
                } else {
                    owned("system")
                };
                let mut ops: Vec<GsiOp> = Vec::new();
                push_op(
                    &mut ops,
                    GsiOp::Report(GsiEvent::ResolvedPartition {
                        base: "system",
                        partition: name.clone(),
                        size_bytes: n,
                    }),
                );
                push_op(&mut ops, GsiOp::CheckCancel);
                push_op(&mut ops, step_report(GsiStep::CheckingProductGsiFallback));
                assert(ops_view(ops@) =~= seq![
                    OpView::Report(EventView::ResolvedPartition {
                        base: "system"@,
                        partition: name@,
                        size_bytes: n,
                    }),
                    OpView::CheckCancel,
                    step_op(GsiStep::CheckingProductGsiFallback),
                ]);
                self.emit_exec(
                    g,
                    s,
                    GsiPhase::ImageSize { system: name, system_size: n },
                    ops,
                    GsiCommand::ImageFileSize,
                )
            },
            _ => {
                if c == 0 {
                    let v = concat_str("partition-size:", "system");
                    self.emit_exec(
                        g,
                        s,
                        GsiPhase::SizeQuery { slot, candidate: 1 },
                        no_ops(),
                        GsiCommand::GetVar(v),
                    )
                } else {
                    let a = concat_str("neither system_", slot.as_str());
                    let msg = concat_str(a.as_str(), " nor system found in device partitions");
                    GsiNext::Finished(Err(GsiError::PartitionResolution(msg)))
                }
            },
        }
    }

    fn on_image_size(self, reply: GsiReply, system: String, system_size: u64) -> (r: GsiNext)
        requires
            self.wf(),
            answers(self.view().pending, reply),
            phase_view(self.phase) == PhaseView::ImageSize(system@, system_size),
            continue_wf(gsi_step_spec(self.view(), reply)),
        ensures
            next_matches(r, gsi_step_spec(self.view(), reply)),
    {
        match reply {
            GsiReply::Failed(e) => GsiNext::Finished(Err(e)),
            GsiReply::Size(file_size) => {
                let g = self.group;
                let s = self.stage;
                let overflow = product_gsi_overflow_size(system_size, self.gsi_size);
                if overflow > 0 {
                    let product = crate::gsi::product_partition_for(system.as_str());
                    let q = product.clone();
                    self.emit_exec(
                        g,
                        s,
                        GsiPhase::ProductLogical { system, product, file_size },
                        no_ops(),
                        GsiCommand::IsLogical(q),
                    )
                } else {
                    let mut ops: Vec<GsiOp> = Vec::new();
                    push_op(&mut ops, GsiOp::CheckCancel);
                    push_op(&mut ops, step_report(GsiStep::ProductGsiFallbackNotNeeded));
                    push_op(&mut ops, step_report(GsiStep::FlashingSystemGsi));
                    push_op(
                        &mut ops,
                        GsiOp::Report(GsiEvent::Flashing { partition: system.clone(), size_bytes: file_size }),
                    );
                    assert(ops_view(ops@) =~= seq![
                        OpView::CheckCancel,
                        step_op(GsiStep::ProductGsiFallbackNotNeeded),
                    ] + flash_system_ops(system@, file_size));
                    let p = system.clone();
                    self.emit_exec(g, s, GsiPhase::SystemFlash, ops, GsiCommand::FlashGsi(p))
                }
            },
            _ => self.repeat(),
        }
    }

    fn on_product_logical(self, reply: GsiReply, system: String, product: String, file_size: u64) -> (r:
        GsiNext)
        requires
            self.wf(),
            answers(self.view().pending, reply),
            phase_view(self.phase) == PhaseView::ProductLogical(system@, product@, file_size),
            continue_wf(gsi_step_spec(self.view(), reply)),
        ensures
            next_matches(r, gsi_step_spec(self.view(), reply)),
    {
        let product_logical = match reply {
            GsiReply::Logical(b) => b,
            _ => false,
        };
        let g = self.group;
        let s = self.stage;
        let q = system.clone();
        self.emit_exec(
            g,
            s,
            GsiPhase::SystemLogical { system, product, file_size, product_logical },
            no_ops(),
            GsiCommand::IsLogical(q),
        )
    }

    fn on_system_logical(
        self,
        reply: GsiReply,
        system: String,
        product: String,
        file_size: u64,
        product_logical: bool,
    ) -> (r: GsiNext)
        requires
            self.wf(),
            answers(self.view().pending, reply),
            phase_view(self.phase) == PhaseView::SystemLogical(system@, product@, file_size, product_logical),
            continue_wf(gsi_step_spec(self.view(), reply)),
        ensures
            next_matches(r, gsi_step_spec(self.view(), reply)),
    {
        let system_logical = match reply {
            GsiReply::Logical(b) => b,
            _ => false,
        };
        let g = self.group;
        let s = self.stage;
        let mut ops: Vec<GsiOp> = Vec::new();
        push_op(&mut ops, GsiOp::CheckCancel);
        assert(ops_view(ops@) =~= seq![OpView::CheckCancel]);
        if product_logical {
            let q = product.clone();
            self.emit_exec(
                g,
                s,
                GsiPhase::ProductResize { system, product, file_size, system_logical },
                ops,
                GsiCommand::Resize { partition: q, size: MINIMAL_PRODUCT_GSI_SIZE },
            )
        } else if system_logical {
            let q = system.clone();
            let size = self.gsi_size;
            self.emit_exec(
                g,
                s,
                GsiPhase::SystemResize { system, product, file_size },
                ops,
                GsiCommand::Resize { partition: q, size },
            )
        } else {
            push_op(&mut ops, GsiOp::CheckCancel);
            push_op(&mut ops, step_report(GsiStep::GeneratingProductGsiImage));
            assert(ops_view(ops@) =~= seq![OpView::CheckCancel] + generate_ops());
            self.emit_exec(
                g,
                s,
                GsiPhase::Generating { system, product, file_size },
                ops,
                GsiCommand::GenerateProductGsi,
            )
        }
    }

    fn after_product_resize(self, system: String, product: String, file_size: u64, system_logical: bool) -> (r:
        GsiNext)
        requires
            self.wf(),
            phase_view(self.phase) == PhaseView::ProductResize(system@, product@, file_size, system_logical),
            continue_wf(
                if system_logical {
                    emit(
                        self.view(),
                        self.group as int,
                        self.stage as int,
                        PhaseView::SystemResize(system@, product@, file_size),
                        Seq::empty(),
                        CommandView::Resize(system@, self.gsi_size),
                    )
                } else {
                    emit(
                        self.view(),
                        self.group as int,
                        self.stage as int,
                        PhaseView::Generating(system@, product@, file_size),
                        generate_ops(),
                        CommandView::GenerateProductGsi,
                    )
                },
            ),
        ensures
            next_matches(
                r,
                if system_logical {
                    emit(
                        self.view(),
                        self.group as int,
                        self.stage as int,
                        PhaseView::SystemResize(system@, product@, file_size),
                        Seq::empty(),
                        CommandView::Resize(system@, self.gsi_size),
                    )
                } else {
                    emit(
                        self.view(),
                        self.group as int,
                        self.stage as int,
                        PhaseView::Generating(system@, product@, file_size),
                        generate_ops(),
                        CommandView::GenerateProductGsi,
                    )
                },
            ),
    {
        if system_logical {
            let g = self.group;
            let s = self.stage;
            let q = system.clone();
            let size = self.gsi_size;
            self.emit_exec(
                g,
                s,
                GsiPhase::SystemResize { system, product, file_size },
                no_ops(),
                GsiCommand::Resize { partition: q, size },
            )
        } else {
            self.generate(system, product, file_size)
        }
    }

    fn generate(self, system: String, product: String, file_size: u64) -> (r: GsiNext)
        requires
            self.wf(),
            continue_wf(
                emit(
                    self.view(),
                    self.group as int,
                    self.stage as int,
                    PhaseView::Generating(system@, product@, file_size),
                    generate_ops(),
                    CommandView::GenerateProductGsi,
                ),
            ),
        ensures
            next_matches(
                r,
                emit(
                    self.view(),
                    self.group as int,
                    self.stage as int,
                    PhaseView::Generating(system@, product@, file_size),
                    generate_ops(),
                    CommandView::GenerateProductGsi,
                ),
            ),
    {
        let g = self.group;
        let s = self.stage;
        let mut ops: Vec<GsiOp> = Vec::new();
        push_op(&mut ops, GsiOp::CheckCancel);
        push_op(&mut ops, step_report(GsiStep::GeneratingProductGsiImage));
        assert(ops_view(ops@) =~= generate_ops());
        self.emit_exec(
            g,
            s,
            GsiPhase::Generating { system, product, file_size },
            ops,
            GsiCommand::GenerateProductGsi,
        )
    }

    fn flash_product(self, system: String, product: String, file_size: u64) -> (r: GsiNext)
        requires
            self.wf(),
            continue_wf(
                emit(
                    self.view(),
                    self.group as int,
                    self.stage as int,
                    PhaseView::ProductFlash(system@, file_size),
                    seq![
                        OpView::CheckCancel,
                        step_op(GsiStep::FlashingProductGsi),
                        OpView::Report(EventView::Flashing {
                            partition: product@,
                            size_bytes: MINIMAL_PRODUCT_GSI_SIZE,
                        }),
                    ],
                    CommandView::FlashProductGsi(product@),
                ),
            ),
        ensures
            next_matches(
                r,
                emit(
                    self.view(),
                    self.group as int,
                    self.stage as int,
                    PhaseView::ProductFlash(system@, file_size),
                    seq![
                        OpView::CheckCancel,
                        step_op(GsiStep::FlashingProductGsi),
                        OpView::Report(EventView::Flashing {
                            partition: product@,
                            size_bytes: MINIMAL_PRODUCT_GSI_SIZE,
                        }),
                    ],
                    CommandView::FlashProductGsi(product@),
                ),
            ),
    {
        let g = self.group;
        let s = self.stage;
        let mut ops: Vec<GsiOp> = Vec::new();
        push_op(&mut ops, GsiOp::CheckCancel);
        push_op(&mut ops, step_report(GsiStep::FlashingProductGsi));
        push_op(
            &mut ops,
            GsiOp::Report(GsiEvent::Flashing {
                partition: product.clone(),
                size_bytes: MINIMAL_PRODUCT_GSI_SIZE,
            }),
        );
        assert(ops_view(ops@) =~= seq![
            OpView::CheckCancel,
            step_op(GsiStep::FlashingProductGsi),
            OpView::Report(EventView::Flashing {
                partition: product@,
                size_bytes: MINIMAL_PRODUCT_GSI_SIZE,
            }),
        ]);
        self.emit_exec(
            g,
            s,
            GsiPhase::ProductFlash { system, file_size },
            ops,
            GsiCommand::FlashProductGsi(product),
        )
    }

    fn flash_system_after_product(self, system: String, file_size: u64) -> (r: GsiNext)
        requires
            self.wf(),
            continue_wf(
                emit(
                    self.view(),
                    self.group as int,
                    self.stage as int,
                    PhaseView::SystemFlash,
                    seq![OpView::CheckCancel] + flash_system_ops(system@, file_size),
                    CommandView::FlashGsi(system@),
                ),
            ),
        ensures
            next_matches(
                r,
                emit(
                    self.view(),
                    self.group as int,
                    self.stage as int,
                    PhaseView::SystemFlash,
                    seq![OpView::CheckCancel] + flash_system_ops(system@, file_size),
                    CommandView::FlashGsi(system@),
                ),
            ),
    {
        let g = self.group;
        let s = self.stage;
        let mut ops: Vec<GsiOp> = Vec::new();
        push_op(&mut ops, GsiOp::CheckCancel);
        push_op(&mut ops, step_report(GsiStep::FlashingSystemGsi));
        push_op(
            &mut ops,
            GsiOp::Report(GsiEvent::Flashing { partition: system.clone(), size_bytes: file_size }),
        );
        assert(ops_view(ops@) =~= seq![OpView::CheckCancel] + flash_system_ops(system@, file_size));
        self.emit_exec(g, s, GsiPhase::SystemFlash, ops, GsiCommand::FlashGsi(system))
    }
}

} // verus!
