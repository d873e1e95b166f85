//! A whole `format-data` run as a state machine: cancel pending OTA
//! snapshots, clear the bootloader control block on the first partition
//! that holds one, prepare the filesystem tools, then wipe the data
//! partitions one after the other. The caller performs each action on the
//! device and answers with its result.
use vstd::prelude::*;
use crate::errors::FlashError;
use crate::wipe::{
    bcb_partitions, data_partitions, format_partitions, partition_exists, spec_footer_size,
    tools_failure_result, stage_rank, wipe_transition, FormatDataResult, FormatOutcome,
    FormatStatus, Wipe, WipeAction, WipeConfig, WipeStage,
};
use crate::text::{concat_str, owned};

verus! {

/// Where a format-data run stands.
#[derive(Debug)]
pub enum FormatRunStage {
    /// Waiting for the answer to the OTA snapshot cancel.
    CancelSnapshot,
    /// Waiting for `partition-type:` of the `index`-th control-block partition.
    BcbProbe { index: usize },
    /// Waiting for the control block to be sent to the `index`-th one.
    BcbWrite { index: usize },
    /// Waiting for the filesystem tools.
    Tools,
    /// Wiping the `index`-th data partition.
    Wiping { index: usize, wipe: Wipe },
    /// Finished.
    Done,
}

/// What the caller does next in a format-data run.
#[derive(Debug)]
pub enum FormatRunAction {
    /// Send `snapshot-update:cancel`; any answer continues the run.
    CancelSnapshot,
    /// Query a fastboot variable; answer with its value or error.
    GetVar(String),
    /// Download the zeroed control block and flash it to this partition;
    /// answer `Ok` once the block was downloaded, whatever the flash
    /// answers, and `Err` when the download failed.
    WriteBcb(String),
    /// Prepare the filesystem tools; answer `Ok` or the error, a
    /// `GeneratorFailed` whose reason is reported.
    ExtractTools,
    /// Carry out this step of the current partition's wipe.
    Wipe(WipeAction),
    /// The run is over with this result.
    Finish(FormatDataResult),
}

/// A format-data run.
#[derive(Debug)]
pub struct FormatRun {
    pub config: WipeConfig,
    pub stage: FormatRunStage,
    /// Outcomes of the partitions wiped so far, in order.
    pub outcomes: Vec<FormatOutcome>,
}

/// Name of the `i`-th control-block partition.
pub open spec fn bcb_name(i: int) -> Seq<char> {
    if i == 0 {
        "misc"@
    } else {
        "para"@
    }
}

/// The reason reported when the tools could not be prepared.
pub open spec fn tools_reason(e: FlashError) -> Seq<char> {
    match e {
        FlashError::GeneratorFailed { reason } => reason@,
        _ => "failed to extract format tools"@,
    }
}

/// A `partition-type:` answer shows the partition exists.
pub open spec fn type_answer_exists(e: Result<String, FlashError>) -> bool {
    match e {
        Ok(t) => t@.len() > 0,
        Err(_) => false,
    }
}

/// Stages still ahead of a run, counting the current one.
pub open spec fn run_rank(s: FormatRunStage) -> nat {
    match s {
        FormatRunStage::CancelSnapshot => 100,
        FormatRunStage::BcbProbe { index } => if index == 0 { 90 } else { 80 },
        FormatRunStage::BcbWrite { index } => if index == 0 { 85 } else { 75 },
        FormatRunStage::Tools => 70,
        FormatRunStage::Wiping { index, wipe } => if index < 3 {
            ((3 - index) * 10 + stage_rank(wipe.stage)) as nat
        } else {
            0
        },
        FormatRunStage::Done => 0,
    }
}

/// `w` is the wipe of the `i`-th data partition as the run starts it or
/// carries it on: with the run's settings, not finished, and (erase only)
/// never past the erase.
pub open spec fn wipe_fits(w: Wipe, i: int, config: WipeConfig) -> bool {
    &&& w.partition@ == data_partitions()[i]
    &&& w.config == config
    &&& w.footer_size == spec_footer_size(data_partitions()[i], config.fs_type_override)
    &&& !(w.stage is Done)
    &&& config.clean_test ==> (w.stage is QueryType || w.stage is Erase)
}

/// The outcomes name the first `n` data partitions in order, and none is
/// `Wiped` on an erase-only run.
pub open spec fn outcomes_fit(o: Seq<FormatOutcome>, n: int, config: WipeConfig) -> bool {
    &&& o.len() == n
    &&& forall|k: int| 0 <= k < n ==> (#[trigger] o[k]).partition@ == data_partitions()[k]
    &&& config.clean_test ==> forall|k: int| 0 <= k < n ==> !((#[trigger] o[k]).status is Wiped)
}

/// What one step of a run does, as the laws over whole runs use it: the
/// run stays consistent and moves strictly forward; the snapshot cancel is
/// never asked again; control blocks go only to `misc` or `para`, and a
/// control block that was sent ends the clearing; wipes start only once the
/// tools are ready; a tools failure ends the run; a finished run names the
/// data partitions in order and, erase-only, wiped none of them.
pub open spec fn format_step(r: FormatRun, e: Result<String, FlashError>, r2: FormatRun, a: FormatRunAction) -> bool {
    &&& r2.wf()
    &&& r2.config == r.config
    &&& run_rank(r2.stage) < run_rank(r.stage)
    &&& !(a is CancelSnapshot)
    &&& a is WriteBcb ==> r2.stage is BcbWrite && (a->WriteBcb_0@ == "misc"@ || a->WriteBcb_0@ == "para"@)
    &&& a is Wipe ==> r2.stage is Wiping
    &&& r2.stage is Wiping ==> (r.stage is Tools && e is Ok) || r.stage is Wiping
    &&& r2.stage is Tools ==> a is ExtractTools
    &&& (r.stage is BcbWrite && e is Ok) ==> r2.stage is Tools
    &&& (r.stage is BcbProbe || r.stage is BcbWrite) ==> !(a is Finish)
    &&& (r.stage is Tools && e is Err) ==> r2.stage is Done && a is Finish
    &&& a matches FormatRunAction::Finish(res) ==> res.outcomes@.len() == 3 && (forall|k: int|
        0 <= k < 3 ==> (#[trigger] res.outcomes@[k]).partition@ == data_partitions()[k]) && (r.config.clean_test
        ==> forall|k: int| 0 <= k < 3 ==> !((#[trigger] res.outcomes@[k]).status is Wiped))
}

impl FormatRun {
    /// The run is in a consistent state.
    pub open spec fn wf(&self) -> bool {
        match self.stage {
            FormatRunStage::BcbProbe { index } => index < 2 && self.outcomes@.len() == 0,
            FormatRunStage::BcbWrite { index } => index < 2 && self.outcomes@.len() == 0,
            FormatRunStage::Wiping { index, wipe } => index < 3 && wipe_fits(wipe, index as int, self.config)
                && outcomes_fit(self.outcomes@, index as int, self.config),
            FormatRunStage::Done => true,
            _ => self.outcomes@.len() == 0,
        }
    }

    /// Begin a run: cancel pending OTA snapshots first.
    pub fn start(config: WipeConfig) -> (r: (FormatRun, FormatRunAction))
        ensures
            r.0.wf(),
            r.0.config == config,
            r.0.stage is CancelSnapshot,
            r.1 is CancelSnapshot,
    {
        (FormatRun { config, stage: FormatRunStage::CancelSnapshot, outcomes: Vec::new() }, FormatRunAction::CancelSnapshot)
    }

    /// The step after the `index`-th control-block partition was passed
    /// over: probe the next one, or go on to the tools.
    pub open spec fn after_bcb(index: int, r2: FormatRun, a: FormatRunAction) -> bool {
        if index == 0 {
            &&& r2.stage == FormatRunStage::BcbProbe { index: 1 }
            &&& a is GetVar
            &&& a->GetVar_0@ == "partition-type:"@ + bcb_name(1)
        } else {
            r2.stage is Tools && a is ExtractTools
        }
    }

    /// The run moved on to wiping the `i`-th data partition.
    pub open spec fn wipes(i: int, r2: FormatRun, a: FormatRunAction) -> bool {
        &&& r2.stage is Wiping
        &&& r2.stage->Wiping_index == i
        &&& r2.stage->wipe.stage is QueryType
        &&& a is Wipe
        &&& a->Wipe_0 is GetVar
        &&& a->Wipe_0->GetVar_0@ == "partition-type:"@ + data_partitions()[i]
    }

    /// One step of the current partition's wipe: the wipe advances on
    /// the answer; a finished wipe adds its outcome and starts the next
    /// partition, or ends the run after the last one.
    pub open spec fn wipe_moved(
        index: usize,
        wipe: Wipe,
        event: Result<String, FlashError>,
        outcomes: Seq<FormatOutcome>,
        r2: FormatRun,
        a: FormatRunAction,
    ) -> bool {
        exists|w2: Wipe, wa: WipeAction|
            #[trigger] wipe_transition(wipe, event, w2, wa) && match wa {
                WipeAction::Finish(o) => if index + 1 < 3 {
                    r2.outcomes@ == outcomes.push(o) && FormatRun::wipes(index + 1, r2, a)
                } else {
                    a matches FormatRunAction::Finish(res) && res.outcomes@ == outcomes.push(o)
                },
                _ => {
                    &&& r2.stage is Wiping
                    &&& r2.stage->Wiping_index == index
                    &&& r2.stage->wipe == w2
                    &&& r2.outcomes@ == outcomes
                    &&& a == FormatRunAction::Wipe(wa)
                },
            }
    }

    fn passed_bcb(config: WipeConfig, index: usize) -> (r: (FormatRun, FormatRunAction))
        requires
            index < 2,
        ensures
            r.0.wf(),
            r.0.config == config,
            FormatRun::after_bcb(index as int, r.0, r.1),
    {
        let run_outcomes: Vec<FormatOutcome> = Vec::new();
        if index == 0 {
            let names = bcb_partitions();
            let q = concat_str("partition-type:", names[1]);
            (FormatRun { config, stage: FormatRunStage::BcbProbe { index: 1 }, outcomes: run_outcomes }, FormatRunAction::GetVar(q))
        } else {
            (FormatRun { config, stage: FormatRunStage::Tools, outcomes: run_outcomes }, FormatRunAction::ExtractTools)
        }
    }

    fn begin_wipe(config: WipeConfig, index: usize, outcomes: Vec<FormatOutcome>) -> (r: (FormatRun, FormatRunAction))
        requires
            index < 3,
            outcomes_fit(outcomes@, index as int, config),
        ensures
            r.0.wf(),
            r.0.config == config,
            r.0.outcomes@ == outcomes@,
            FormatRun::wipes(index as int, r.0, r.1),
    {
        let names = format_partitions();
        let (w, a) = Wipe::start(names[index], config);
        (FormatRun { config, stage: FormatRunStage::Wiping { index, wipe: w }, outcomes }, FormatRunAction::Wipe(a))
    }

    fn wipe_step(config: WipeConfig, index: usize, wipe: Wipe, outcomes: Vec<FormatOutcome>, event: Result<String, FlashError>) -> (r: (FormatRun, FormatRunAction))
        requires
            index < 3,
            wipe_fits(wipe, index as int, config),
            outcomes_fit(outcomes@, index as int, config),
        ensures
            r.0.wf(),
            r.0.config == config,
            run_rank(r.0.stage) < run_rank(FormatRunStage::Wiping { index, wipe }),
            r.1 is Wipe ==> r.0.stage is Wiping,
            r.1 is Finish ==> r.0.stage is Done,
            r.1 matches FormatRunAction::Finish(res) ==> res.outcomes@.len() == 3 && forall|k: int|
                0 <= k < 3 ==> (#[trigger] res.outcomes@[k]).partition@ == data_partitions()[k],
            r.1 matches FormatRunAction::Finish(res) ==> (config.clean_test ==> forall|k: int|
                0 <= k < 3 ==> !((#[trigger] res.outcomes@[k]).status is Wiped)),
            FormatRun::wipe_moved(index, wipe, event, outcomes@, r.0, r.1),
    {
        let ghost w0 = wipe;
        let (w2, wa) = wipe.step(event);
        let ghost gw2 = w2;
        let ghost gwa = wa;
        assert(wipe_transition(w0, event, gw2, gwa));
        match wa {
            WipeAction::Finish(o) => {
                let mut outcomes = outcomes;
                let ghost before = outcomes@;
                proof {
                    assert(o.partition@ == data_partitions()[index as int]);
                }
                outcomes.push(o);
                proof {
                    assert(outcomes@ == before.push(gwa->Finish_0));
                    assert forall|k: int| 0 <= k < index + 1 implies (#[trigger] outcomes@[k]).partition@
                        == data_partitions()[k] by {
                        if k < index {
                            assert(outcomes@[k] == before[k]);
                        }
                    }
                    if config.clean_test {
                        assert forall|k: int| 0 <= k < index + 1 implies !((#[trigger] outcomes@[k]).status is Wiped) by {
                            if k < index {
                                assert(outcomes@[k] == before[k]);
                            }
                        }
                    }
                }
                if index + 1 < 3 {
                    FormatRun::begin_wipe(config, index + 1, outcomes)
                } else {
                    let res = FormatDataResult { outcomes };
                    (FormatRun { config, stage: FormatRunStage::Done, outcomes: Vec::new() }, FormatRunAction::Finish(res))
                }
            },
            other => {
                (FormatRun { config, stage: FormatRunStage::Wiping { index, wipe: w2 }, outcomes }, FormatRunAction::Wipe(other))
            },
        }
    }

    /// Advance on the result of the last action.
    pub fn step(self, event: Result<String, FlashError>) -> (r: (FormatRun, FormatRunAction))
        requires
            self.wf(),
            !(self.stage is Done),
        ensures
            r.0.wf(),
            r.0.config == self.config,
            run_rank(r.0.stage) < run_rank(self.stage),
            format_step(self, event, r.0, r.1),
            r.1 is Wipe ==> r.0.stage is Wiping && self.stage is Tools || self.stage is Wiping,
            r.1 is Finish ==> r.0.stage is Done,
            r.1 matches FormatRunAction::Finish(res) ==> res.outcomes@.len() == 3 && forall|k: int|
                0 <= k < 3 ==> (#[trigger] res.outcomes@[k]).partition@ == data_partitions()[k],
            r.1 matches FormatRunAction::Finish(res) ==> (self.config.clean_test ==> forall|k: int|
                0 <= k < 3 ==> !((#[trigger] res.outcomes@[k]).status is Wiped)),
            match self.stage {
                FormatRunStage::CancelSnapshot => {
                    &&& r.0.stage == FormatRunStage::BcbProbe { index: 0 }
                    &&& r.1 is GetVar
                    &&& r.1->GetVar_0@ == "partition-type:"@ + bcb_name(0)
                },
                FormatRunStage::BcbProbe { index } => if type_answer_exists(event) {
                    &&& r.0.stage == FormatRunStage::BcbWrite { index }
                    &&& r.1 is WriteBcb
                    &&& r.1->WriteBcb_0@ == bcb_name(index as int)
                } else {
                    FormatRun::after_bcb(index as int, r.0, r.1)
                },
                FormatRunStage::BcbWrite { index } => if event is Ok {
                    r.0.stage is Tools && r.1 is ExtractTools
                } else {
                    FormatRun::after_bcb(index as int, r.0, r.1)
                },
                FormatRunStage::Tools => match event {
                    Ok(_) => FormatRun::wipes(0, r.0, r.1),
                    Err(e) => r.1 matches FormatRunAction::Finish(res) && forall|k: int|
                        0 <= k < 3 ==> (#[trigger] res.outcomes@[k]).status is Failed
                            && res.outcomes@[k].status->Failed_0 is GeneratorFailed
                            && res.outcomes@[k].status->Failed_0->GeneratorFailed_reason@ == tools_reason(e),
                },
                FormatRunStage::Wiping { index, wipe } => FormatRun::wipe_moved(index, wipe, event, self.outcomes@, r.0, r.1),
                FormatRunStage::Done => true,
            },
    {
        let FormatRun { config, stage, outcomes } = self;
        match stage {
            FormatRunStage::CancelSnapshot => {
                let names = bcb_partitions();
                let q = concat_str("partition-type:", names[0]);
                (FormatRun { config, stage: FormatRunStage::BcbProbe { index: 0 }, outcomes }, FormatRunAction::GetVar(q))
            },
            FormatRunStage::BcbProbe { index } => {
                if partition_exists(&event) {
                    let names = bcb_partitions();
                    let p = owned(names[index]);
                    (FormatRun { config, stage: FormatRunStage::BcbWrite { index }, outcomes }, FormatRunAction::WriteBcb(p))
                } else {
                    FormatRun::passed_bcb(config, index)
                }
            },
            FormatRunStage::BcbWrite { index } => {
                if event.is_ok() {
                    (FormatRun { config, stage: FormatRunStage::Tools, outcomes }, FormatRunAction::ExtractTools)
                } else {
                    FormatRun::passed_bcb(config, index)
                }
            },
            FormatRunStage::Tools => match event {
                Ok(_) => FormatRun::begin_wipe(config, 0, outcomes),
                Err(e) => {
                    let res = match e {
                        FlashError::GeneratorFailed { reason } => tools_failure_result(reason.as_str()),
                        _ => tools_failure_result("failed to extract format tools"),
                    };
                    assert forall|k: int| 0 <= k < 3 implies (#[trigger] res.outcomes@[k]).status is Failed
                        && res.outcomes@[k].status->Failed_0 is GeneratorFailed
                        && res.outcomes@[k].status->Failed_0->GeneratorFailed_reason@ == tools_reason(e)
                        && res.outcomes@[k].partition@ == data_partitions()[k] by {
                        assert(res.outcomes@[k].partition@ == data_partitions()[k]);
                    }
                    (FormatRun { config, stage: FormatRunStage::Done, outcomes }, FormatRunAction::Finish(res))
                },
            },
            FormatRunStage::Wiping { index, wipe } => FormatRun::wipe_step(config, index, wipe, outcomes, event),
            FormatRunStage::Done => {
                (FormatRun { config, stage: FormatRunStage::Done, outcomes }, FormatRunAction::ExtractTools)
            },
        }
    }
}

} // verus!

verus! {

/// `runs`, `acts` and `evs` record a format-data run from its start: the
/// run after each step, the action it asked for, and the answer it got.
pub open spec fn format_trace(
    runs: Seq<FormatRun>,
    acts: Seq<FormatRunAction>,
    evs: Seq<Result<String, FlashError>>,
) -> bool {
    &&& runs.len() > 0
    &&& acts.len() == runs.len()
    &&& evs.len() + 1 == runs.len()
    &&& runs[0].wf()
    &&& runs[0].stage is CancelSnapshot
    &&& acts[0] is CancelSnapshot
    &&& forall|i: int| 0 <= i < evs.len() ==> #[trigger] step_at(runs, acts, evs, i)
}

/// The `i`-th step of a recorded run.
pub open spec fn step_at(
    runs: Seq<FormatRun>,
    acts: Seq<FormatRunAction>,
    evs: Seq<Result<String, FlashError>>,
    i: int,
) -> bool {
    format_step(runs[i], evs[i], runs[i + 1], acts[i + 1])
}

proof fn lemma_trace_forward(
    runs: Seq<FormatRun>,
    acts: Seq<FormatRunAction>,
    evs: Seq<Result<String, FlashError>>,
    i: int,
    j: int,
)
    requires
        format_trace(runs, acts, evs),
        0 <= i < j < runs.len(),
    ensures
        run_rank(runs[j].stage) < run_rank(runs[i].stage),
        runs[j].config == runs[i].config,
    decreases j - i,
{
    assert(step_at(runs, acts, evs, j - 1));
    if i < j - 1 {
        lemma_trace_forward(runs, acts, evs, i, j - 1);
    }
}

proof fn lemma_wiping_after_tools(
    runs: Seq<FormatRun>,
    acts: Seq<FormatRunAction>,
    evs: Seq<Result<String, FlashError>>,
    j: int,
)
    requires
        format_trace(runs, acts, evs),
        0 <= j < runs.len(),
        runs[j].stage is Wiping,
    ensures
        exists|i: int| 0 <= i < j && #[trigger] acts[i] is ExtractTools && evs[i] is Ok,
    decreases j,
{
    if j == 0 {
        assert(false);
    } else {
        assert(step_at(runs, acts, evs, j - 1));
        if runs[j - 1].stage is Wiping {
            lemma_wiping_after_tools(runs, acts, evs, j - 1);
            let i = choose|i: int| 0 <= i < j - 1 && #[trigger] acts[i] is ExtractTools && evs[i] is Ok;
            assert(acts[i] is ExtractTools);
        } else {
            let i = j - 1;
            if i > 0 {
                assert(step_at(runs, acts, evs, i - 1));
            }
            assert(acts[i] is ExtractTools);
        }
    }
}

/// Over a whole format-data run, whatever the answers:
/// - the OTA snapshot cancel is asked first and never again, so it comes
///   before any erase;
/// - control blocks go only to `misc` or `para`, and once one was sent no
///   other is, so at most one is flashed;
/// - no wipe step (and so no erase) comes before the tools are ready;
/// - when the tools cannot be prepared, no wipe step comes at all;
/// - a finished run names userdata, metadata and cache in that order, and
///   an erase-only run wiped none of them.
pub proof fn law_format_run(
    runs: Seq<FormatRun>,
    acts: Seq<FormatRunAction>,
    evs: Seq<Result<String, FlashError>>,
)
    requires
        format_trace(runs, acts, evs),
    ensures
        forall|i: int| 0 < i < acts.len() ==> !(#[trigger] acts[i] is CancelSnapshot),
        forall|i: int| 0 <= i < acts.len() && #[trigger] acts[i] is WriteBcb ==> acts[i]->WriteBcb_0@ == "misc"@
            || acts[i]->WriteBcb_0@ == "para"@,
        forall|i: int, j: int|
            0 <= i < j < acts.len() && i < evs.len() && #[trigger] acts[i] is WriteBcb && evs[i] is Ok
                ==> !(#[trigger] acts[j] is WriteBcb),
        forall|j: int| 0 <= j < acts.len() && #[trigger] acts[j] is Wipe ==> exists|i: int|
            0 <= i < j && #[trigger] acts[i] is ExtractTools && evs[i] is Ok,
        forall|i: int, j: int|
            0 <= i < evs.len() && 0 <= j < acts.len() && #[trigger] runs[i].stage is Tools && evs[i] is Err
                ==> !(#[trigger] acts[j] is Wipe),
        forall|i: int| 0 <= i < acts.len() ==> match #[trigger] acts[i] {
            FormatRunAction::Finish(res) => res.outcomes@.len() == 3 && (forall|k: int|
                0 <= k < 3 ==> (#[trigger] res.outcomes@[k]).partition@ == data_partitions()[k]) && (runs[0].config.clean_test
                ==> forall|k: int| 0 <= k < 3 ==> !((#[trigger] res.outcomes@[k]).status is Wiped)),
            _ => true,
        },
{
    assert forall|i: int| 0 < i < acts.len() implies !(#[trigger] acts[i] is CancelSnapshot) by {
        assert(step_at(runs, acts, evs, i - 1));
    }
    assert forall|i: int| 0 <= i < acts.len() && #[trigger] acts[i] is WriteBcb implies acts[i]->WriteBcb_0@ == "misc"@
        || acts[i]->WriteBcb_0@ == "para"@ by {
        assert(step_at(runs, acts, evs, i - 1));
    }
    assert forall|i: int, j: int|
        0 <= i < j < acts.len() && i < evs.len() && #[trigger] acts[i] is WriteBcb && evs[i] is Ok implies !(
        #[trigger] acts[j] is WriteBcb) by {
        assert(step_at(runs, acts, evs, i - 1));
        assert(step_at(runs, acts, evs, i));
        assert(runs[i + 1].stage is Tools);
        if acts[j] is WriteBcb {
            assert(step_at(runs, acts, evs, j - 1));
            if i + 1 < j {
                lemma_trace_forward(runs, acts, evs, i + 1, j);
            }
        }
    }
    assert forall|j: int| 0 <= j < acts.len() && #[trigger] acts[j] is Wipe implies exists|i: int|
        0 <= i < j && #[trigger] acts[i] is ExtractTools && evs[i] is Ok by {
        assert(step_at(runs, acts, evs, j - 1));
        lemma_wiping_after_tools(runs, acts, evs, j);
    }
    assert forall|i: int, j: int|
        0 <= i < evs.len() && 0 <= j < acts.len() && #[trigger] runs[i].stage is Tools && evs[i] is Err implies !(
        #[trigger] acts[j] is Wipe) by {
        assert(step_at(runs, acts, evs, i));
        if acts[j] is Wipe {
            assert(step_at(runs, acts, evs, j - 1));
            if j <= i {
                if j < i {
                    lemma_trace_forward(runs, acts, evs, j, i);
                }
            } else if j == i + 1 {
            } else {
                lemma_trace_forward(runs, acts, evs, i + 1, j);
            }
        }
    }
    assert forall|i: int| 0 <= i < acts.len() implies match #[trigger] acts[i] {
        FormatRunAction::Finish(res) => res.outcomes@.len() == 3 && (forall|k: int|
            0 <= k < 3 ==> (#[trigger] res.outcomes@[k]).partition@ == data_partitions()[k]) && (runs[0].config.clean_test
            ==> forall|k: int| 0 <= k < 3 ==> !((#[trigger] res.outcomes@[k]).status is Wiped)),
        _ => true,
    } by {
        if acts[i] is Finish {
            assert(step_at(runs, acts, evs, i - 1));
            if i - 1 > 0 {
                lemma_trace_forward(runs, acts, evs, 0, i - 1);
            }
        }
    }
}

} // verus!
