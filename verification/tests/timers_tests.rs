use incremental_code::timers::{bgm_silence_tick, AutoRunAction, AutoRunner};

#[test]
fn auto_runner_waits_while_off() {
    let mut r = AutoRunner::new();
    assert_eq!(r.tick(1_000), AutoRunAction::Wait);
    assert_eq!(r.since_last_run, 0);
    assert_eq!(r.progress_parts(), None);
}

#[test]
fn auto_runner_measures_then_grants() {
    let mut r = AutoRunner::new();
    r.set_period(1_000);
    assert_eq!(r.tick(100), AutoRunAction::MeasureProgram);
    r.set_run_duration(Some(500));
    assert_eq!(r.progress_parts(), Some((100, 1_500)));
    assert_eq!(r.tick(1_000), AutoRunAction::Wait);
    assert_eq!(r.tick(400), AutoRunAction::GrantRun);
    assert_eq!(r.since_last_run, 0);
    assert_eq!(r.run_duration, None);
    r.stop();
    assert_eq!(r.tick(10_000), AutoRunAction::Wait);
}

#[test]
fn auto_runner_time_saturates() {
    let mut r = AutoRunner::new();
    r.set_period(u64::MAX);
    r.set_run_duration(Some(u64::MAX));
    assert_eq!(r.tick(u64::MAX), AutoRunAction::GrantRun);
}

#[test]
fn bgm_silence_counts_down_then_starts_music() {
    assert_eq!(bgm_silence_tick(false, None, 10, 7_000), (None, false));
    assert_eq!(bgm_silence_tick(true, None, 10, 7_000), (Some(7_000), false));
    assert_eq!(bgm_silence_tick(true, Some(7_000), 3_000, 9_000), (Some(4_000), false));
    assert_eq!(bgm_silence_tick(true, Some(4_000), 4_000, 9_000), (Some(0), false));
    assert_eq!(bgm_silence_tick(true, Some(0), 1, 9_000), (None, true));
}
