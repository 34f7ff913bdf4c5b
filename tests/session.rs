use cube_timer::history::{save_solve, History};
use cube_timer::preferences::{App, Preferences};
use cube_timer::timer::{Effect, Message, Stage, Timer};

fn apply(t: &mut Timer, h: &mut History, msg: Message, now: u64) -> Effect {
    let effect = t.update(msg, now);
    if let Effect::LogSolve(s) = &effect {
        save_solve(h, s.clone());
    }
    effect
}

#[test]
fn new_timer_is_idle() {
    let t = Timer::new(25);
    assert_eq!(t.stage, Stage::Shuffle);
    assert_eq!(t.start_time, None);
    assert_eq!(t.end_time, None);
    assert_eq!(t.current_time, "00:15.00");
    assert_eq!(t.toggle_label, "Inspect (Space)");
    assert_eq!(t.shuffle.sequence.len(), 25);
}

#[test]
fn inspection_runs_out_into_solve() {
    let mut t = Timer::new(25);
    let mut h = History::new();
    apply(&mut t, &mut h, Message::ToggleTimer, 1_000);
    assert_eq!(t.stage, Stage::Inspection);
    assert_eq!(t.start_time, None);
    apply(&mut t, &mut h, Message::ToggleTimer, 2_000);
    assert_eq!(t.stage, Stage::Inspection);
    assert_eq!(t.start_time, Some(2_000));
    assert_eq!(t.toggle_label, "Inspecting!");
    apply(&mut t, &mut h, Message::UpdateTime, 3_000);
    assert_eq!(t.current_time, "00:14.00");
    assert_eq!(t.stage, Stage::Inspection);
    apply(&mut t, &mut h, Message::UpdateTime, 17_001);
    assert_eq!(t.stage, Stage::Solve);
    assert_eq!(t.start_time, None);
    assert_eq!(t.toggle_label, "Begin (Space)");
    assert_eq!(t.current_time, "00:00.00");
}

#[test]
fn full_solve_is_logged() {
    let mut t = Timer::new(5);
    let mut h = History::new();
    let scramble = t.shuffle.sequence.join(", ");
    for now in [0, 1, 20_000] {
        apply(&mut t, &mut h, Message::ToggleTimer, now);
    }
    apply(&mut t, &mut h, Message::UpdateTime, 20_000);
    assert_eq!(t.stage, Stage::Solve);
    apply(&mut t, &mut h, Message::ToggleTimer, 21_000);
    assert_eq!(t.start_time, Some(21_000));
    assert_eq!(t.toggle_label, "Stop (Space)");
    apply(&mut t, &mut h, Message::UpdateTime, 33_450);
    assert_eq!(t.current_time, "00:12.45");
    apply(&mut t, &mut h, Message::ToggleTimer, 33_500);
    assert_eq!(t.stage, Stage::Finished);
    assert_eq!(t.end_time, Some(33_500));
    assert_eq!(t.toggle_label, "Log Solve (Space)");
    assert!(h.history.is_empty());
    let effect = apply(&mut t, &mut h, Message::ToggleTimer, 40_000);
    assert!(matches!(effect, Effect::LogSolve(_)));
    assert_eq!(h.history.len(), 1);
    assert_eq!(h.history[0].timestamp, 33_500);
    assert_eq!(h.history[0].solvetime, 12_500);
    assert_eq!(h.history[0].shuffle, scramble);
    assert_eq!(t.stage, Stage::Shuffle);
    assert_eq!(t.start_time, None);
    assert_eq!(t.end_time, None);
    assert_eq!(t.shuffle.sequence.len(), 5);
}

#[test]
fn discard_while_solving_logs_nothing() {
    let mut t = Timer::new(25);
    let mut h = History::new();
    for now in [0, 1, 20_000] {
        apply(&mut t, &mut h, Message::ToggleTimer, now);
    }
    apply(&mut t, &mut h, Message::UpdateTime, 20_000);
    apply(&mut t, &mut h, Message::ToggleTimer, 21_000);
    assert_eq!(t.stage, Stage::Solve);
    assert_eq!(t.start_time, Some(21_000));
    let scramble = t.shuffle.sequence.clone();
    let effect = apply(&mut t, &mut h, Message::Discard, 25_000);
    assert!(matches!(effect, Effect::Nothing));
    assert!(h.history.is_empty());
    assert_eq!(t.stage, Stage::Shuffle);
    assert_eq!(t.start_time, None);
    assert_eq!(t.current_time, "00:15.00");
    assert_eq!(t.shuffle.sequence, scramble);
}

#[test]
fn keys_drive_the_timer() {
    let mut t = Timer::new(25);
    let mut h = History::new();
    let e = apply(&mut t, &mut h, Message::KeyPress { key: "r".into(), input: "7".into() }, 0);
    assert!(matches!(e, Effect::StoreLength(7)));
    assert_eq!(t.shuffle.sequence.len(), 7);
    apply(&mut t, &mut h, Message::KeyPress { key: " ".into(), input: String::new() }, 0);
    assert_eq!(t.stage, Stage::Inspection);
    apply(&mut t, &mut h, Message::KeyPress { key: "x".into(), input: String::new() }, 0);
    assert_eq!(t.stage, Stage::Inspection);
    apply(&mut t, &mut h, Message::KeyPress { key: "R".into(), input: String::new() }, 0);
    assert_eq!(t.stage, Stage::Shuffle);
    assert_eq!(t.shuffle.sequence.len(), 7);
}

#[test]
fn generate_message_reads_typed_length() {
    let mut t = Timer::new(25);
    let e = t.update(Message::GenerateShuffle { input: "abc".into() }, 0);
    assert!(matches!(e, Effect::Nothing));
    assert_eq!(t.shuffle.error, "Invalid input: invalid digit found in string");
    let e = t.update(Message::GenerateShuffle { input: "30".into() }, 0);
    assert!(matches!(e, Effect::StoreLength(30)));
    assert_eq!(t.shuffle.sequence.len(), 30);
}

#[test]
fn stage_names() {
    assert_eq!(Stage::Shuffle.as_str(), "Shuffle");
    assert_eq!(Stage::Inspection.as_str(), "Inspection");
    assert_eq!(Stage::Solve.as_str(), "Solve");
    assert_eq!(Stage::Finished.as_str(), "Finished");
}

#[test]
fn default_preferences() {
    let p = Preferences::default();
    assert_eq!(p.shuffle_length, 25);
    assert!(!p.dark_mode);
}

#[test]
fn theme_toggle() {
    let mut a = App::new(false);
    assert!(a.toggle_dark_mode());
    assert!(a.dark);
    assert!(!a.toggle_dark_mode());
}
