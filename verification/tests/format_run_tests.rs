use pawflash::errors::FlashError;
use pawflash::format_run::{FormatRun, FormatRunAction, FormatRunStage};
use pawflash::wipe::{FormatStatus, WipeAction, WipeConfig};

fn var(s: &str) -> Result<String, FlashError> {
    Ok(s.to_string())
}

fn missing() -> Result<String, FlashError> {
    Err(FlashError::NoDevice)
}

#[test]
fn format_run_cancels_snapshot_then_tries_misc_then_para() {
    let config = WipeConfig { fs_options: 0, clean_test: false, fs_type_override: None };
    let (run, a) = FormatRun::start(config);
    assert!(matches!(a, FormatRunAction::CancelSnapshot));
    let (run, a) = run.step(missing());
    assert!(matches!(a, FormatRunAction::GetVar(ref q) if q == "partition-type:misc"));
    let (run, a) = run.step(var(""));
    assert!(matches!(a, FormatRunAction::GetVar(ref q) if q == "partition-type:para"));
    let (run, a) = run.step(var("raw"));
    assert!(matches!(a, FormatRunAction::WriteBcb(ref p) if p == "para"));
    let (run, a) = run.step(var(""));
    assert!(matches!(a, FormatRunAction::ExtractTools));
    let (run, a) = run.step(Err(FlashError::GeneratorFailed { reason: "no tools".into() }));
    assert!(matches!(run.stage, FormatRunStage::Done));
    match a {
        FormatRunAction::Finish(res) => {
            let names: Vec<&str> = res.outcomes.iter().map(|o| o.partition.as_str()).collect();
            assert_eq!(names, vec!["userdata", "metadata", "cache"]);
            for o in &res.outcomes {
                assert!(matches!(&o.status, FormatStatus::Failed(FlashError::GeneratorFailed { reason }) if reason == "no tools"));
            }
        }
        other => panic!("unexpected {other:?}"),
    }
}

#[test]
fn format_run_failed_bcb_download_tries_next_partition() {
    let config = WipeConfig { fs_options: 0, clean_test: false, fs_type_override: None };
    let (run, _) = FormatRun::start(config);
    let (run, _) = run.step(var(""));
    let (run, a) = run.step(var("raw"));
    assert!(matches!(a, FormatRunAction::WriteBcb(ref p) if p == "misc"));
    let (_, a) = run.step(missing());
    assert!(matches!(a, FormatRunAction::GetVar(ref q) if q == "partition-type:para"));
}

#[test]
fn format_run_clean_test_erases_each_partition_in_order() {
    let config = WipeConfig { fs_options: 0, clean_test: true, fs_type_override: None };
    let (run, _) = FormatRun::start(config);
    let (run, _) = run.step(var(""));
    let (run, _) = run.step(missing());
    let (mut run, mut a) = run.step(missing());
    assert!(matches!(a, FormatRunAction::ExtractTools));
    let mut erased = Vec::new();
    let mut event = var("");
    loop {
        let (r, next) = run.step(event);
        run = r;
        a = next;
        event = match &a {
            FormatRunAction::Wipe(WipeAction::GetVar(q)) => {
                assert!(q.starts_with("partition-type:"));
                var("ext4")
            }
            FormatRunAction::Wipe(WipeAction::Erase) => {
                if let FormatRunStage::Wiping { wipe, .. } = &run.stage {
                    erased.push(wipe.partition.clone());
                }
                var("")
            }
            FormatRunAction::Finish(_) => break,
            other => panic!("unexpected {other:?}"),
        };
    }
    assert_eq!(erased, vec!["userdata", "metadata", "cache"]);
    if let FormatRunAction::Finish(res) = a {
        assert_eq!(res.outcomes.len(), 3);
        assert!(res.outcomes.iter().all(|o| matches!(o.status, FormatStatus::ErasedOnly(_))));
    }
}
