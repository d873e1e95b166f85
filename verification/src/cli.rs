//! Command-line vocabulary: subcommands and their options, the values of
//! `--mode`, `--storage` and `--fs-type`, and how the `flash` subcommand
//! decides what to do.
use vstd::prelude::*;
use std::path::PathBuf;
use crate::format::FsType;
use crate::text::{concat_str, str_eq, unicode_lowercase, unicode_lowered};

verus! {

/// Flash planning mode.
#[derive(Debug, Clone, Copy, PartialEq, Eq, Structural)]
pub enum Mode {
    DryRun,
    Selective,
    DirtyFlash,
}

/// Storage layout selection.
#[derive(Debug, Clone, Copy, PartialEq, Eq, Structural)]
pub enum StorageSelect {
    Auto,
    All,
    Ufs,
    Emmc,
}

/// `--mode` value, once lowercased by Unicode's rules.
pub open spec fn spec_mode(s: Seq<char>) -> Option<Mode> {
    let l = unicode_lowercase(s);
    if l == "dry-run"@ || l == "dry_run"@ {
        Some(Mode::DryRun)
    } else if l == "selective"@ {
        Some(Mode::Selective)
    } else if l == "dirty-flash"@ || l == "dirty_flash"@ {
        Some(Mode::DirtyFlash)
    } else {
        None
    }
}

/// Parse `--mode` string value into [`Mode`].
pub fn parse_mode(s: &str) -> (r: Result<Mode, String>)
    ensures
        match r {
            Ok(m) => spec_mode(s@) == Some(m),
            Err(e) => spec_mode(s@) is None && e@ == "invalid mode '"@ + s@
                + "': expected dry-run, selective, or dirty-flash"@,
        },
{
    let l = unicode_lowered(s);
    let l = l.as_str();
    if str_eq(l, "dry-run") || str_eq(l, "dry_run") {
        Ok(Mode::DryRun)
    } else if str_eq(l, "selective") {
        Ok(Mode::Selective)
    } else if str_eq(l, "dirty-flash") || str_eq(l, "dirty_flash") {
        Ok(Mode::DirtyFlash)
    } else {
        let head = concat_str("invalid mode '", s);
        Err(concat_str(head.as_str(), "': expected dry-run, selective, or dirty-flash"))
    }
}

/// `--storage` value, once lowercased by Unicode's rules.
pub open spec fn spec_storage(s: Seq<char>) -> Option<StorageSelect> {
    let l = unicode_lowercase(s);
    if l == "auto"@ {
        Some(StorageSelect::Auto)
    } else if l == "all"@ {
        Some(StorageSelect::All)
    } else if l == "ufs"@ {
        Some(StorageSelect::Ufs)
    } else if l == "emmc"@ {
        Some(StorageSelect::Emmc)
    } else {
        None
    }
}

/// Parse `--storage` string value into [`StorageSelect`].
pub fn parse_storage(s: &str) -> (r: Result<StorageSelect, String>)
    ensures
        match r {
            Ok(m) => spec_storage(s@) == Some(m),
            Err(e) => spec_storage(s@) is None && e@ == "invalid storage '"@ + s@
                + "': expected auto, all, ufs, or emmc"@,
        },
{
    let l = unicode_lowered(s);
    let l = l.as_str();
    if str_eq(l, "auto") {
        Ok(StorageSelect::Auto)
    } else if str_eq(l, "all") {
        Ok(StorageSelect::All)
    } else if str_eq(l, "ufs") {
        Ok(StorageSelect::Ufs)
    } else if str_eq(l, "emmc") {
        Ok(StorageSelect::Emmc)
    } else {
        let head = concat_str("invalid storage '", s);
        Err(concat_str(head.as_str(), "': expected auto, all, ufs, or emmc"))
    }
}

/// `--fs-type` of format-data: `ext4` or `f2fs` in any case; any other
/// value is refused with a message that quotes it lowercased by Unicode's
/// rules.
pub fn parse_fs_type_option(s: &str) -> (r: Result<FsType, String>)
    ensures
        match r {
            Ok(t) => crate::format::spec_fs_type(s@) == Some(t),
            Err(e) => crate::format::spec_fs_type(s@) is None && e@ == "invalid --fs-type '"@
                + crate::text::unicode_lowercase(s@) + "': expected ext4 or f2fs"@,
        },
{
    match FsType::from_partition_type(s) {
        Some(t) => Ok(t),
        None => {
            let l = crate::text::unicode_lowered(s);
            let head = concat_str("invalid --fs-type '", l.as_str());
            Err(concat_str(head.as_str(), "': expected ext4 or f2fs"))
        },
    }
}

/// Top-level command line.
#[derive(Debug)]
pub struct Cli {
    /// Logging verbosity: -v = info, -vv = debug, -vvv = trace.
    pub verbose: u8,
    /// Expected device serial number.
    pub serial: Option<String>,
    /// Subcommand, if any.
    pub command: Option<Commands>,
}

/// Subcommands.
#[allow(inconsistent_fields)]
#[derive(Debug)]
pub enum Commands {
    /// Force a MediaTek device into fastboot mode via the preloader.
    ForceFastboot,
    /// Flash operations: scatter plan, GSI, or raw image.
    Flash {
        action: Option<FlashAction>,
        partition: Option<String>,
        image: Option<PathBuf>,
        slot: Option<String>,
        both: bool,
    },
    /// Flash empty vbmeta to both slots.
    DisableVbmeta,
    /// Erase and format userdata, metadata and cache.
    FormatData { fs_options: Vec<String>, fs_type: String, clean_test: bool },
    /// Fastboot device operations.
    Device { action: DeviceAction },
}

/// Flash sub-subcommands.
#[derive(Debug)]
pub enum FlashAction {
    /// Inspect a scatter file, build a flash plan, or execute it.
    Scatter {
        path: Option<PathBuf>,
        show: bool,
        full_json: bool,
        dry_run: bool,
        json: bool,
        mode: Mode,
        storage: StorageSelect,
        part: Vec<String>,
        group: Vec<String>,
        exclude: Vec<String>,
        firmware_dir: Option<PathBuf>,
        check_images: bool,
        include_preloader: bool,
        image_search: bool,
        allow_incomplete_slots: bool,
        clean: bool,
        no_format: bool,
        clean_test: bool,
    },
    /// Flash a Generic System Image.
    Gsi { image: PathBuf, clean_test: bool },
}

/// Fastboot device operations.
#[derive(Debug)]
pub enum DeviceAction {
    Info,
    Reboot { target: String },
    Lock,
    Unlock,
    SetActive { slot: String },
    GetVar { var: String },
}

/// Scatter inspection sub-subcommands.
#[derive(Debug)]
pub enum ScatterAction {
    /// Print parsed scatter metadata.
    Parse { scatter: PathBuf, full_json: bool },
    /// Build and display a flash plan.
    Plan {
        scatter: PathBuf,
        json: bool,
        verbose: bool,
        mode: String,
        storage: String,
        part: Vec<String>,
        group: Vec<String>,
        firmware_dir: Option<PathBuf>,
        package_root: Option<PathBuf>,
        check_images: bool,
        image_search: bool,
        include_preloader: bool,
        allow_incomplete_slots: bool,
    },
}

/// Format behaviour for the interactive flash flow.
#[derive(Debug, Clone, Copy, PartialEq, Eq, Structural)]
pub struct FormatConfig {
    pub clean: bool,
    pub no_format: bool,
    pub clean_test: bool,
}

/// What to do with a scatter file.
#[derive(Debug, Clone, Copy, PartialEq, Eq, Structural)]
pub enum ScatterRun {
    /// Show scatter metadata.
    Show { full_json: bool },
    /// Print the plan without executing.
    DryRun,
    /// Execute the plan.
    Execute,
}

/// Whether and how to format data partitions.
#[derive(Debug, Clone, Copy, PartialEq, Eq, Structural)]
pub enum FormatMode {
    Skip,
    Format,
    Test,
}

/// A plain `flash scatter <path>` without parts, groups, JSON, showing or
/// dry-running goes to the interactive flow.
pub fn runs_interactive(
    show: bool,
    dry_run: bool,
    mode: Mode,
    parts_empty: bool,
    groups_empty: bool,
    json: bool,
) -> (r: bool)
    ensures
        r == (!show && !dry_run && mode == Mode::Selective && parts_empty && groups_empty && !json),
{
    !show && !dry_run && mode == Mode::Selective && parts_empty && groups_empty && !json
}

/// `--show` wins over `--dry-run`; otherwise the plan is executed.
pub fn scatter_run(show: bool, full_json: bool, dry_run: bool) -> (r: ScatterRun)
    ensures
        show ==> r == (ScatterRun::Show { full_json }),
        !show && dry_run ==> r == ScatterRun::DryRun,
        !show && !dry_run ==> r == ScatterRun::Execute,
{
    if show {
        ScatterRun::Show { full_json }
    } else if dry_run {
        ScatterRun::DryRun
    } else {
        ScatterRun::Execute
    }
}

/// `--clean-test` erases only; `--clean` formats unless `--no-format`.
pub fn format_mode(clean: bool, no_format: bool, clean_test: bool) -> (r: FormatMode)
    ensures
        clean_test ==> r == FormatMode::Test,
        !clean_test && clean && !no_format ==> r == FormatMode::Format,
        !clean_test && !(clean && !no_format) ==> r == FormatMode::Skip,
{
    if clean && !no_format || clean_test {
        if clean_test {
            FormatMode::Test
        } else {
            FormatMode::Format
        }
    } else {
        FormatMode::Skip
    }
}

/// Whether a plan may run: errors stop a real run first, then an empty
/// plan does; a dry run always proceeds.
#[derive(Debug, Clone, Copy, PartialEq, Eq, Structural)]
pub enum PlanGate {
    Proceed,
    RefuseErrors,
    RefuseEmpty,
}

/// Gate a flash plan with `errors` errors and `actions` actions.
pub fn plan_gate(errors: usize, actions: usize, dry_run: bool) -> (r: PlanGate)
    ensures
        dry_run ==> r == PlanGate::Proceed,
        !dry_run && errors > 0 ==> r == PlanGate::RefuseErrors,
        !dry_run && errors == 0 && actions == 0 ==> r == PlanGate::RefuseEmpty,
        !dry_run && errors == 0 && actions > 0 ==> r == PlanGate::Proceed,
{
    if errors > 0 && !dry_run {
        PlanGate::RefuseErrors
    } else if actions == 0 && !dry_run {
        PlanGate::RefuseEmpty
    } else {
        PlanGate::Proceed
    }
}

/// The interactive flow offers formatting only for a clean install that
/// does not skip formatting.
pub fn offers_format(fmt: FormatConfig) -> (r: bool)
    ensures
        r == (!fmt.no_format && (fmt.clean || fmt.clean_test)),
{
    !fmt.no_format && (fmt.clean || fmt.clean_test)
}

} // verus!

verus! {

/// Every `--mode` word that the usage and the error message name is
/// accepted, in either spelling and in any case: `dry-run`/`dry_run`,
/// `selective`, `dirty-flash`/`dirty_flash`; each names its own mode.
pub proof fn law_documented_modes_accepted(s: Seq<char>)
    ensures
        unicode_lowercase(s) == "dry-run"@ || unicode_lowercase(s) == "dry_run"@ ==> spec_mode(s) == Some(
            Mode::DryRun,
        ),
        unicode_lowercase(s) == "selective"@ ==> spec_mode(s) == Some(Mode::Selective),
        unicode_lowercase(s) == "dirty-flash"@ || unicode_lowercase(s) == "dirty_flash"@ ==> spec_mode(s)
            == Some(Mode::DirtyFlash),
        spec_mode(s) is None ==> unicode_lowercase(s) != "dry-run"@ && unicode_lowercase(s) != "dry_run"@
            && unicode_lowercase(s) != "selective"@ && unicode_lowercase(s) != "dirty-flash"@
            && unicode_lowercase(s) != "dirty_flash"@,
{
    reveal_strlit("dry-run");
    reveal_strlit("dry_run");
    reveal_strlit("selective");
    reveal_strlit("dirty-flash");
    reveal_strlit("dirty_flash");
    let l = unicode_lowercase(s);
    assert("dry-run"@[1] != "dirty-flash"@[1] && "dry_run"@[1] != "dirty_flash"@[1]);
    assert("dry-run"@.len() != "selective"@.len() && "dirty-flash"@.len() != "selective"@.len());
    assert("dry-run"@.len() != "dirty-flash"@.len());
}

/// Every `--storage` word that the usage and the error message name is
/// accepted in any case, each for its own selection.
pub proof fn law_documented_storage_accepted(s: Seq<char>)
    ensures
        unicode_lowercase(s) == "auto"@ ==> spec_storage(s) == Some(StorageSelect::Auto),
        unicode_lowercase(s) == "all"@ ==> spec_storage(s) == Some(StorageSelect::All),
        unicode_lowercase(s) == "ufs"@ ==> spec_storage(s) == Some(StorageSelect::Ufs),
        unicode_lowercase(s) == "emmc"@ ==> spec_storage(s) == Some(StorageSelect::Emmc),
{
    reveal_strlit("auto");
    reveal_strlit("all");
    reveal_strlit("ufs");
    reveal_strlit("emmc");
    assert("auto"@[1] != "all"@[1]);
    assert("auto"@.len() != "ufs"@.len() && "all"@[0] != "ufs"@[0]);
    assert("auto"@[0] != "emmc"@[0] && "all"@.len() != "emmc"@.len() && "ufs"@.len() != "emmc"@.len());
}

} // verus!
