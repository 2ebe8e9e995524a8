use mozwer::pipeline::Stage;

fn run(outcomes: &[bool]) -> Vec<Stage> {
    let mut stages = vec![Stage::start()];
    let mut s = Stage::start();
    for &ok in outcomes {
        s = s.next(ok);
        stages.push(s);
    }
    stages
}

fn writes(s: Stage) -> bool {
    matches!(s, Stage::WriteMinidump | Stage::WriteExtra | Stage::WriteEvent)
}

#[test]
fn all_steps_succeed_in_order() {
    let stages = run(&[true; 8]);
    assert_eq!(
        stages,
        vec![
            Stage::LocateExecutable,
            Stage::LoadConfiguration,
            Stage::ReadChannel,
            Stage::LocateReportsDir,
            Stage::ReadInstallTime,
            Stage::WriteMinidump,
            Stage::WriteExtra,
            Stage::WriteEvent,
            Stage::Done,
        ]
    );
    assert!(Stage::Done.is_finished());
    assert_eq!(Stage::Done.next(false), Stage::Done);
}

#[test]
fn missing_install_time_writes_nothing() {
    let stages = run(&[true, true, true, true, false, true, true, true]);
    assert_eq!(stages[4], Stage::ReadInstallTime);
    assert_eq!(stages[5], Stage::Failed);
    assert!(stages.iter().all(|s| !writes(*s)));
    assert!(stages[5].is_finished());
}

#[test]
fn first_failure_ends_the_run() {
    let stages = run(&[true, true, true, true, true, false, true]);
    assert_eq!(stages[5], Stage::WriteMinidump);
    assert_eq!(stages[6], Stage::Failed);
    assert_eq!(stages[7], Stage::Failed);
    assert!(!Stage::WriteExtra.is_finished());
}
