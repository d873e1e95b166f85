//! The decisions of `format-data`: which filesystem each data partition
//! gets, and the per-partition sequence query type → erase → query size →
//! generate filesystem → sparse-wrap and flash, as a state machine whose
//! actions the caller performs on the device.
use vstd::prelude::*;
use crate::errors::FlashError;
use crate::format::{FsType, spec_fs_type, parse_getvar_hex_u64, spec_getvar_hex};
use crate::sparse::CRYPT_FOOTER_OFFSET;
use crate::text::{concat_str, owned, str_eq, unicode_lowercase};

verus! {

/// Per-partition format status.
#[derive(Debug)]
pub enum FormatStatus {
    /// Fully wiped and formatted with an empty filesystem.
    Wiped,
    /// Erased but not formatted (filesystem type not recognised).
    ErasedOnly(String),
    /// Skipped (partition does not exist or empty type).
    Skipped(String),
    /// Operation failed with the given error.
    Failed(FlashError),
}

/// Outcome of a format-data operation on a single partition.
#[derive(Debug)]
pub struct FormatOutcome {
    pub partition: String,
    pub status: FormatStatus,
}

/// Result of a full format-data run.
#[derive(Debug)]
pub struct FormatDataResult {
    pub outcomes: Vec<FormatOutcome>,
}

/// Number of outcomes whose status satisfies `f`.
pub open spec fn count_status(o: Seq<FormatOutcome>, f: spec_fn(FormatStatus) -> bool) -> nat
    decreases o.len(),
{
    if o.len() == 0 {
        0
    } else {
        count_status(o.drop_last(), f) + if f(o.last().status) {
            1nat
        } else {
            0nat
        }
    }
}

/// Tallies of a format-data run.
#[derive(Debug, Clone, Copy, PartialEq, Eq, Structural)]
pub struct FormatCounts {
    pub wiped: usize,
    pub erased_only: usize,
    pub skipped: usize,
    pub failed: usize,
}

impl FormatDataResult {
    /// How many partitions ended in each status.
    pub fn counts(&self) -> (r: FormatCounts)
        ensures
            r.wiped == count_status(self.outcomes@, |s: FormatStatus| s is Wiped),
            r.erased_only == count_status(self.outcomes@, |s: FormatStatus| s is ErasedOnly),
            r.skipped == count_status(self.outcomes@, |s: FormatStatus| s is Skipped),
            r.failed == count_status(self.outcomes@, |s: FormatStatus| s is Failed),
            r.wiped + r.erased_only + r.skipped + r.failed == self.outcomes@.len(),
    {
        let mut c = FormatCounts { wiped: 0, erased_only: 0, skipped: 0, failed: 0 };
        let mut i: usize = 0;
        while i < self.outcomes.len()
            invariant
                i <= self.outcomes@.len(),
                c.wiped == count_status(self.outcomes@.take(i as int), |s: FormatStatus| s is Wiped),
                c.erased_only == count_status(
                    self.outcomes@.take(i as int),
                    |s: FormatStatus| s is ErasedOnly,
                ),
                c.skipped == count_status(
                    self.outcomes@.take(i as int),
                    |s: FormatStatus| s is Skipped,
                ),
                c.failed == count_status(self.outcomes@.take(i as int), |s: FormatStatus| s is Failed),
                c.wiped + c.erased_only + c.skipped + c.failed == i,
            decreases self.outcomes@.len() - i,
        {
            assert(self.outcomes@.take(i + 1).drop_last() =~= self.outcomes@.take(i as int));
            match &self.outcomes[i].status {
                FormatStatus::Wiped => c.wiped = c.wiped + 1,
                FormatStatus::ErasedOnly(_) => c.erased_only = c.erased_only + 1,
                FormatStatus::Skipped(_) => c.skipped = c.skipped + 1,
                FormatStatus::Failed(_) => c.failed = c.failed + 1,
            }
            i += 1;
        }
        assert(self.outcomes@.take(self.outcomes@.len() as int) =~= self.outcomes@);
        c
    }
}

/// The data partitions that format-data wipes, in order.
pub open spec fn data_partitions() -> Seq<Seq<char>> {
    seq!["userdata"@, "metadata"@, "cache"@]
}

/// Names of the data partitions, in the order they are wiped.
pub fn format_partitions() -> (r: Vec<&'static str>)
    ensures
        r@.len() == 3,
        forall|i: int| 0 <= i < 3 ==> #[trigger] r@[i]@ == data_partitions()[i],
{
    vec!["userdata", "metadata", "cache"]
}

/// Bytes kept free at the end of `partition` for a legacy encryption
/// footer: only userdata formatted as ext4 (f2fs when not overridden).
pub open spec fn spec_footer_size(partition: Seq<char>, fs_type_override: Option<FsType>) -> u64 {
    if partition == "userdata"@ && (match fs_type_override {
        Some(t) => t,
        None => FsType::F2fs,
    }) == FsType::Ext4 {
        CRYPT_FOOTER_OFFSET
    } else {
        0
    }
}

/// Footer reserve for a partition; see [`spec_footer_size`].
pub fn footer_size_for(partition: &str, fs_type_override: Option<FsType>) -> (r: u64)
    ensures
        r == spec_footer_size(partition@, fs_type_override),
{
    let t = match fs_type_override {
        Some(t) => t,
        None => FsType::F2fs,
    };
    if str_eq(partition, "userdata") && t == FsType::Ext4 {
        CRYPT_FOOTER_OFFSET
    } else {
        0
    }
}

/// A block-size variable as format-data uses it: a hex value that fits in
/// 32 bits, or 0 when the query failed or the value is unusable.
pub open spec fn spec_block_size_var(r: Result<String, FlashError>) -> u32 {
    match r {
        Ok(s) => match spec_getvar_hex(s@) {
            Some(v) => if v <= u32::MAX {
                v as u32
            } else {
                0
            },
            None => 0,
        },
        Err(_) => 0,
    }
}

/// Read an `erase-block-size` / `logical-block-size` query result.
pub fn block_size_from_var(r: &Result<String, FlashError>) -> (v: u32)
    ensures
        v == spec_block_size_var(*r),
{
    match r {
        Ok(s) => match parse_getvar_hex_u64(s.as_str()) {
            Some(v) => if v <= u32::MAX as u64 {
                v as u32
            } else {
                0
            },
            None => 0,
        },
        Err(_) => 0,
    }
}

/// A `partition-type:` query shows the partition exists.
pub fn partition_exists(r: &Result<String, FlashError>) -> (b: bool)
    ensures
        b == (match r {
            Ok(t) => t@.len() > 0,
            Err(_) => false,
        }),
{
    match r {
        Ok(t) => !t.as_str().is_empty(),
        Err(_) => false,
    }
}

/// Filesystem for a partition: an explicit choice for userdata wins, then
/// the reported partition type, then f2fs for userdata and ext4 for
/// metadata and cache; any other partition has no filesystem.
pub open spec fn spec_determine_fs_type(
    partition: Seq<char>,
    partition_type: Seq<char>,
    fs_type_override: Option<FsType>,
) -> Option<FsType> {
    if partition == "userdata"@ && fs_type_override is Some {
        fs_type_override
    } else {
        match spec_fs_type(partition_type) {
            Some(t) => Some(t),
            None => if partition == "userdata"@ {
                Some(FsType::F2fs)
            } else if partition == "metadata"@ || partition == "cache"@ {
                Some(FsType::Ext4)
            } else {
                None
            },
        }
    }
}

/// Filesystem to generate on a partition; a partition without one is
/// reported as erased only, with its reported type.
pub fn determine_fs_type(partition: &str, partition_type: &str, fs_type_override: Option<FsType>) -> (r:
    Result<FsType, FormatOutcome>)
    ensures
        match r {
            Ok(t) => spec_determine_fs_type(partition@, partition_type@, fs_type_override) == Some(t),
            Err(o) => spec_determine_fs_type(partition@, partition_type@, fs_type_override) is None
                && o.partition@ == partition@ && o.status is ErasedOnly && o.status->ErasedOnly_0@
                == partition_type@,
        },
{
    let is_userdata = str_eq(partition, "userdata");
    if is_userdata {
        if let Some(t) = fs_type_override {
            return Ok(t);
        }
    }
    match FsType::from_partition_type(partition_type) {
        Some(t) => Ok(t),
        None => {
            if is_userdata {
                Ok(FsType::F2fs)
            } else if str_eq(partition, "metadata") || str_eq(partition, "cache") {
                Ok(FsType::Ext4)
            } else {
                Err(
                    FormatOutcome {
                        partition: owned(partition),
                        status: FormatStatus::ErasedOnly(owned(partition_type)),
                    },
                )
            }
        },
    }
}

/// Settings that apply to every partition of a format-data run.
#[derive(Debug, Clone, Copy, PartialEq, Eq, Structural)]
pub struct WipeConfig {
    /// `--fs-options` bitmask.
    pub fs_options: u32,
    /// Erase only; generate no filesystem.
    pub clean_test: bool,
    /// Filesystem chosen for userdata, if any.
    pub fs_type_override: Option<FsType>,
}

/// Where a partition wipe stands.
#[derive(Debug)]
pub enum WipeStage {
    /// Waiting for the `partition-type:` query.
    QueryType,
    /// Waiting for the erase; the partition reported this type.
    Erase { partition_type: String },
    /// Waiting for the `partition-size:` query.
    QuerySize { fs_type: FsType },
    /// Waiting for the filesystem image to be generated.
    Generate { part_size: u64 },
    /// Waiting for the image to be flashed.
    Wrap,
    /// Finished.
    Done,
}

/// What the caller does next for a partition wipe.
#[derive(Debug)]
pub enum WipeAction {
    /// Query a fastboot variable; answer with its value or error.
    GetVar(String),
    /// Erase the partition; answer with `Ok` (any text) or the error.
    Erase,
    /// Generate an empty filesystem image of `fs_size` bytes.
    GenerateFs { fs_type: FsType, fs_size: u64, fs_options: u32 },
    /// Flash the generated image wrapped as a sparse image covering
    /// `part_size` bytes, keeping `footer_size` bytes zeroed at the end.
    SparseWrap { part_size: u64, footer_size: u64 },
    /// The wipe is over with this outcome.
    Finish(FormatOutcome),
}

/// The wipe of one data partition.
#[derive(Debug)]
pub struct Wipe {
    pub partition: String,
    pub config: WipeConfig,
    pub footer_size: u64,
    pub stage: WipeStage,
}

/// Stages still ahead of a wipe, counting the current one.
pub open spec fn stage_rank(s: WipeStage) -> nat {
    match s {
        WipeStage::QueryType => 5,
        WipeStage::Erase { .. } => 4,
        WipeStage::QuerySize { .. } => 3,
        WipeStage::Generate { .. } => 2,
        WipeStage::Wrap => 1,
        WipeStage::Done => 0,
    }
}

/// `a` finishes the wipe of `p` with status `s`, and `w2` is done.
pub open spec fn finishes(w2: Wipe, a: WipeAction, p: Seq<char>, f: spec_fn(FormatStatus) -> bool) -> bool {
    &&& w2.stage is Done
    &&& a is Finish
    &&& a->Finish_0.partition@ == p
    &&& f(a->Finish_0.status)
}

/// The transition of a wipe in stage `w.stage` on the result `e` of the
/// action it asked for.
pub open spec fn wipe_transition(w: Wipe, e: Result<String, FlashError>, w2: Wipe, a: WipeAction) -> bool {
    let p = w.partition@;
    &&& w2.partition@ == p
    &&& w2.config == w.config
    &&& w2.footer_size == w.footer_size
    &&& match w.stage {
        WipeStage::QueryType => match e {
            Ok(t) => if t@.len() > 0 {
                w2.stage is Erase && w2.stage->partition_type@ == t@ && a is Erase
            } else {
                finishes(w2, a, p, |s: FormatStatus| s is Skipped && s->Skipped_0@ == "empty partition type"@)
            },
            Err(_) => finishes(w2, a, p, |s: FormatStatus| s is Skipped && s->Skipped_0@ == "partition not found"@),
        },
        WipeStage::Erase { partition_type } => match e {
            Err(_) => finishes(w2, a, p, |s: FormatStatus| s is Failed),
            Ok(_) => match spec_determine_fs_type(p, partition_type@, w.config.fs_type_override) {
                None => finishes(w2, a, p, |s: FormatStatus| s is ErasedOnly && s->ErasedOnly_0@ == partition_type@),
                Some(t) => if w.config.clean_test {
                    finishes(w2, a, p, |s: FormatStatus| s is ErasedOnly && s->ErasedOnly_0@ == partition_type@)
                } else {
                    &&& w2.stage == WipeStage::QuerySize { fs_type: t }
                    &&& a is GetVar
                    &&& a->GetVar_0@ == "partition-size:"@ + p
                },
            },
        },
        WipeStage::QuerySize { fs_type } => match e {
            Err(_) => finishes(w2, a, p, |s: FormatStatus| s is Failed),
            Ok(s) => {
                let size: nat = match spec_getvar_hex(s@) { Some(v) => v, None => 0 };
                if size == 0 {
                    finishes(w2, a, p, |st: FormatStatus| st is Failed && st->Failed_0 is ActionFailed
                        && st->Failed_0->ActionFailed_partition@ == p
                        && st->Failed_0->ActionFailed_reason@ == "partition size is 0"@)
                } else {
                    &&& w2.stage == WipeStage::Generate { part_size: size as u64 }
                    &&& a == WipeAction::GenerateFs {
                        fs_type,
                        fs_size: if size >= w.footer_size { (size - w.footer_size) as u64 } else { 0 },
                        fs_options: w.config.fs_options,
                    }
                }
            },
        },
        WipeStage::Generate { part_size } => match e {
            Err(_) => finishes(w2, a, p, |s: FormatStatus| s is Failed),
            Ok(_) => w2.stage is Wrap && a == WipeAction::SparseWrap { part_size, footer_size: w.footer_size },
        },
        WipeStage::Wrap => match e {
            Err(_) => finishes(w2, a, p, |s: FormatStatus| s is Failed),
            Ok(_) => finishes(w2, a, p, |s: FormatStatus| s is Wiped),
        },
        WipeStage::Done => false,
    }
}

impl Wipe {
    /// Begin wiping `partition`: first query its type.
    pub fn start(partition: &str, config: WipeConfig) -> (r: (Wipe, WipeAction))
        ensures
            r.0.partition@ == partition@,
            r.0.config == config,
            r.0.footer_size == spec_footer_size(partition@, config.fs_type_override),
            r.0.stage is QueryType,
            r.1 is GetVar,
            r.1->GetVar_0@ == "partition-type:"@ + partition@,
    {
        let footer_size = footer_size_for(partition, config.fs_type_override);
        let q = concat_str("partition-type:", partition);
        (Wipe { partition: owned(partition), config, footer_size, stage: WipeStage::QueryType }, WipeAction::GetVar(q))
    }

    /// Advance on the result of the last action.
    pub fn step(self, event: Result<String, FlashError>) -> (r: (Wipe, WipeAction))
        requires
            !(self.stage is Done),
        ensures
            wipe_transition(self, event, r.0, r.1),
            stage_rank(r.0.stage) < stage_rank(self.stage),
    {
        let Wipe { partition, config, footer_size, stage } = self;
        match stage {
            WipeStage::QueryType => match event {
                Ok(t) => {
                    if !t.as_str().is_empty() {
                        (Wipe { partition, config, footer_size, stage: WipeStage::Erase { partition_type: t } }, WipeAction::Erase)
                    } else {
                        let o = FormatOutcome { partition: partition.clone(), status: FormatStatus::Skipped(owned("empty partition type")) };
                        (Wipe { partition, config, footer_size, stage: WipeStage::Done }, WipeAction::Finish(o))
                    }
                },
                Err(_) => {
                    let o = FormatOutcome { partition: partition.clone(), status: FormatStatus::Skipped(owned("partition not found")) };
                    (Wipe { partition, config, footer_size, stage: WipeStage::Done }, WipeAction::Finish(o))
                },
            },
            WipeStage::Erase { partition_type } => match event {
                Err(e) => {
                    let o = FormatOutcome { partition: partition.clone(), status: FormatStatus::Failed(e) };
                    (Wipe { partition, config, footer_size, stage: WipeStage::Done }, WipeAction::Finish(o))
                },
                Ok(_) => match determine_fs_type(partition.as_str(), partition_type.as_str(), config.fs_type_override) {
                    Err(o) => (Wipe { partition, config, footer_size, stage: WipeStage::Done }, WipeAction::Finish(o)),
                    Ok(t) => {
                        if config.clean_test {
                            let o = FormatOutcome { partition: partition.clone(), status: FormatStatus::ErasedOnly(partition_type) };
                            (Wipe { partition, config, footer_size, stage: WipeStage::Done }, WipeAction::Finish(o))
                        } else {
                            let q = concat_str("partition-size:", partition.as_str());
                            (Wipe { partition, config, footer_size, stage: WipeStage::QuerySize { fs_type: t } }, WipeAction::GetVar(q))
                        }
                    },
                },
            },
            WipeStage::QuerySize { fs_type } => match event {
                Err(e) => {
                    let o = FormatOutcome { partition: partition.clone(), status: FormatStatus::Failed(e) };
                    (Wipe { partition, config, footer_size, stage: WipeStage::Done }, WipeAction::Finish(o))
                },
                Ok(s) => {
                    let size: u64 = match parse_getvar_hex_u64(s.as_str()) {
                        Some(v) => v,
                        None => 0,
                    };
                    if size == 0 {
                        let err = FlashError::ActionFailed { partition: partition.clone(), reason: owned("partition size is 0") };
                        let o = FormatOutcome { partition: partition.clone(), status: FormatStatus::Failed(err) };
                        (Wipe { partition, config, footer_size, stage: WipeStage::Done }, WipeAction::Finish(o))
                    } else {
                        let fs_size = if size >= footer_size { size - footer_size } else { 0 };
                        let a = WipeAction::GenerateFs { fs_type, fs_size, fs_options: config.fs_options };
                        (Wipe { partition, config, footer_size, stage: WipeStage::Generate { part_size: size } }, a)
                    }
                },
            },
            WipeStage::Generate { part_size } => match event {
                Err(e) => {
                    let o = FormatOutcome { partition: partition.clone(), status: FormatStatus::Failed(e) };
                    (Wipe { partition, config, footer_size, stage: WipeStage::Done }, WipeAction::Finish(o))
                },
                Ok(_) => (Wipe { partition, config, footer_size, stage: WipeStage::Wrap }, WipeAction::SparseWrap { part_size, footer_size }),
            },
            WipeStage::Wrap => match event {
                Err(e) => {
                    let o = FormatOutcome { partition: partition.clone(), status: FormatStatus::Failed(e) };
                    (Wipe { partition, config, footer_size, stage: WipeStage::Done }, WipeAction::Finish(o))
                },
                Ok(_) => {
                    let o = FormatOutcome { partition: partition.clone(), status: FormatStatus::Wiped };
                    (Wipe { partition, config, footer_size, stage: WipeStage::Done }, WipeAction::Finish(o))
                },
            },
            WipeStage::Done => {
                (Wipe { partition, config, footer_size, stage: WipeStage::Done }, WipeAction::Erase)
            },
        }
    }
}

/// Outcomes when the filesystem tools could not be prepared: every data
/// partition fails with the same generator error.
pub fn tools_failure_result(reason: &str) -> (r: FormatDataResult)
    ensures
        r.outcomes@.len() == 3,
        forall|i: int|
            0 <= i < 3 ==> #[trigger] r.outcomes@[i].partition@ == data_partitions()[i]
                && r.outcomes@[i].status is Failed && r.outcomes@[i].status->Failed_0 is GeneratorFailed
                && r.outcomes@[i].status->Failed_0->GeneratorFailed_reason@ == reason@,
{
    let names = format_partitions();
    let mut outcomes: Vec<FormatOutcome> = Vec::new();
    let mut i: usize = 0;
    while i < 3
        invariant
            i <= 3,
            names@.len() == 3,
            forall|k: int| 0 <= k < 3 ==> #[trigger] names@[k]@ == data_partitions()[k],
            outcomes@.len() == i,
            forall|k: int|
                0 <= k < i ==> #[trigger] outcomes@[k].partition@ == data_partitions()[k]
                    && outcomes@[k].status is Failed && outcomes@[k].status->Failed_0 is GeneratorFailed
                    && outcomes@[k].status->Failed_0->GeneratorFailed_reason@ == reason@,
        decreases 3 - i,
    {
        outcomes.push(FormatOutcome {
            partition: owned(names[i]),
            status: FormatStatus::Failed(FlashError::GeneratorFailed { reason: owned(reason) }),
        });
        i += 1;
    }
    FormatDataResult { outcomes }
}


/// Size of the bootloader control block cleared before a format.
pub const BCB_SIZE: usize = 2048;

/// Partitions that may hold the bootloader control block, in the order
/// they are tried; only the first that exists and takes the download is
/// cleared.
pub fn bcb_partitions() -> (r: Vec<&'static str>)
    ensures
        r@.len() == 2,
        r@[0]@ == "misc"@,
        r@[1]@ == "para"@,
{
    vec!["misc", "para"]
}

/// The zeroed block written over the bootloader control block, so that
/// no stale boot command sends the device into recovery.
pub fn bcb_block() -> (r: Vec<u8>)
    ensures
        r@.len() == BCB_SIZE,
        forall|i: int| 0 <= i < r@.len() ==> r@[i] == 0,
{
    let mut v: Vec<u8> = Vec::new();
    let mut i: usize = 0;
    while i < BCB_SIZE
        invariant
            i <= BCB_SIZE,
            v@.len() == i,
            forall|k: int| 0 <= k < i ==> v@[k] == 0,
        decreases BCB_SIZE - i,
    {
        v.push(0);
        i += 1;
    }
    v
}

} // verus!

verus! {

/// The filesystem a partition gets follows what the device reports: a
/// reported type that lowercases to `ext4` or `f2fs` is the filesystem
/// chosen, unless an explicit choice is given for userdata, which then
/// wins; only when the reported type names neither does userdata fall back
/// to f2fs and metadata and cache to ext4, and any other partition gets
/// no filesystem.
pub proof fn law_reported_type_chooses_filesystem(
    partition: Seq<char>,
    partition_type: Seq<char>,
    fs_type_override: Option<FsType>,
)
    ensures
        (partition != "userdata"@ || fs_type_override is None) && unicode_lowercase(partition_type) == "ext4"@
            ==> spec_determine_fs_type(partition, partition_type, fs_type_override) == Some(FsType::Ext4),
        (partition != "userdata"@ || fs_type_override is None) && unicode_lowercase(partition_type) == "f2fs"@
            ==> spec_determine_fs_type(partition, partition_type, fs_type_override) == Some(FsType::F2fs),
        partition == "userdata"@ && fs_type_override is Some ==> spec_determine_fs_type(
            partition,
            partition_type,
            fs_type_override,
        ) == fs_type_override,
        unicode_lowercase(partition_type) != "ext4"@ && unicode_lowercase(partition_type) != "f2fs"@
            && fs_type_override is None ==> spec_determine_fs_type(partition, partition_type, fs_type_override)
            == if partition == "userdata"@ {
            Some(FsType::F2fs)
        } else if partition == "metadata"@ || partition == "cache"@ {
            Some(FsType::Ext4)
        } else {
            None
        },
{
    reveal_strlit("ext4");
    reveal_strlit("f2fs");
    assert("ext4"@ != "f2fs"@) by {
        assert("ext4"@[0] != "f2fs"@[0]);
    }
}

} // verus!

verus! {

/// The encryption-footer reserve is kept only on userdata formatted as
/// ext4 by explicit choice; every other partition, and userdata left to
/// the f2fs default or chosen as f2fs, keeps no reserve.
pub proof fn law_footer_only_for_ext4_userdata(partition: Seq<char>, fs_type_override: Option<FsType>)
    ensures
        spec_footer_size(partition, fs_type_override) > 0 <==> partition == "userdata"@ && fs_type_override
            == Some(FsType::Ext4),
        spec_footer_size(partition, fs_type_override) > 0 ==> spec_footer_size(partition, fs_type_override)
            == CRYPT_FOOTER_OFFSET,
{
}

} // verus!
