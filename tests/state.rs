use boda::action::{Command as Event, Ui as Action};
use boda::record::TargetCommand;
use boda::state::{State, TickOutcome};

const WALL: u64 = 1_700_000_000_000;

fn state(interval: u64, concurrency: u8) -> State {
    State::new(vec!["echo".to_string(), "ok".to_string()], interval, concurrency)
}

/// Ticks every `step` ms from `from` to `to`, with commands that finish
/// `duration` ms after they start, printing "ok" and exiting 0. Returns the
/// highest in-flight count seen.
fn drive(s: &mut State, from: u64, to: u64, step: u64, duration: u64, running: &mut Vec<u64>) -> u8 {
    let mut highest = s.command.running_count;
    let mut t = from;
    while t <= to {
        let mut i = 0;
        while i < running.len() {
            if running[i] + duration <= t {
                let start = running.remove(i);
                s.handle_command_action(Event::RunResult(
                    WALL + start,
                    WALL + start + duration,
                    "ok".to_string(),
                    String::new(),
                    0,
                ));
            } else {
                i += 1;
            }
        }
        if matches!(s.on_tick(t, WALL + t), TickOutcome::Dispatched(_)) {
            running.push(t);
        }
        highest = highest.max(s.command.running_count);
        assert!(s.command.running_count <= s.global.concurrency);
        t += step;
    }
    highest
}

#[test]
fn new_state_clamps_interval_and_starts_idle() {
    let s = state(100, 3);
    assert!(s.global.running);
    assert_eq!(s.global.interval, 500);
    assert_eq!(s.global.concurrency, 3);
    assert_eq!(s.command.running_count, 0);
    assert_eq!(s.command.tick, 10);
    assert_eq!(s.ui.target_command, TargetCommand::Latest);
    assert!(s.global.get_history().is_empty());
    assert_eq!(state(1500, 1).global.interval, 1500);
}

#[test]
fn can_run_needs_full_interval_and_free_slot() {
    let mut s = state(1000, 1);
    assert!(!s.can_run(995));
    assert!(!s.can_run(999));
    assert!(s.can_run(1000));
    assert!(matches!(s.start_first_run(5, WALL), TickOutcome::Dispatched(Some(_))));
    assert_eq!(s.command.prev_tick, 5);
    assert!(!s.can_run(2000));
    s.handle_command_action(Event::RunResult(WALL, WALL + 1, String::new(), String::new(), 0));
    assert!(!s.can_run(1004));
    assert!(s.can_run(1005));
    assert!(!s.can_run(1));
}

#[test]
fn ticks_alone_give_three_records_in_three_and_a_half_seconds() {
    let mut s = state(1000, 1);
    let mut running = Vec::new();
    drive(&mut s, 0, 3500, 100, 20, &mut running);
    let history = s.global.get_history();
    assert_eq!(history.len(), 3);
    for summary in &history {
        assert_eq!(summary.status, Some(0));
        let r = s.global.get_target_command_result(&TargetCommand::Target(summary.id)).unwrap();
        assert_eq!(r.stdout.as_deref(), Some("ok"));
        assert_eq!(r.get_content(), vec!["ok"]);
    }
    let starts: Vec<u64> = history.iter().map(|h| h.start - WALL).collect();
    assert_eq!(starts, vec![3000, 2000, 1000]);
}

#[test]
fn startup_dispatch_comes_before_the_ticks() {
    let mut s = state(1000, 1);
    assert!(matches!(s.start_first_run(0, WALL), TickOutcome::Dispatched(Some(_))));
    s.handle_command_action(Event::RunResult(WALL, WALL + 20, "ok".to_string(), String::new(), 0));
    let mut running = Vec::new();
    drive(&mut s, 100, 3500, 100, 20, &mut running);
    let starts: Vec<u64> = s.global.get_history().iter().map(|h| h.start - WALL).collect();
    assert_eq!(starts, vec![3000, 2000, 1000, 0]);
}

#[test]
fn in_flight_count_stabilizes_at_ceiling() {
    let mut s = state(100, 2);
    assert_eq!(s.global.interval, 500);
    assert!(matches!(s.start_first_run(0, WALL), TickOutcome::Dispatched(Some(_))));
    let mut running = vec![0];
    let highest = drive(&mut s, 10, 1000, 10, 2000, &mut running);
    assert_eq!(highest, 2);
    assert_eq!(s.command.running_count, 2);
    assert_eq!(s.global.get_history().len(), 2);
    let highest = drive(&mut s, 1010, 6000, 10, 2000, &mut running);
    assert_eq!(highest, 2);
}

#[test]
fn consecutive_dispatches_are_an_interval_apart() {
    let mut s = state(700, 3);
    assert!(matches!(s.start_first_run(0, WALL), TickOutcome::Dispatched(Some(_))));
    let mut running = vec![0];
    drive(&mut s, 10, 5000, 10, 50, &mut running);
    let mut starts: Vec<u64> = s.global.get_history().iter().map(|h| h.start - WALL).collect();
    starts.reverse();
    assert_eq!(starts[0], 0);
    for pair in starts.windows(2) {
        assert!(pair[1] - pair[0] >= 700);
    }
    assert_eq!(starts.len(), 8);
}

#[test]
fn tick_outcome_names_the_new_record() {
    let mut s = state(500, 3);
    assert_eq!(s.start_first_run(0, WALL), TickOutcome::Dispatched(Some(0)));
    assert_eq!(s.on_tick(100, WALL), TickOutcome::Waiting);
    assert_eq!(s.on_tick(600, WALL + 600), TickOutcome::Dispatched(Some(1)));
    assert_eq!(s.on_tick(1200, WALL + 1200), TickOutcome::Dispatched(Some(2)));
    assert_eq!(s.on_tick(1800, WALL + 1800), TickOutcome::Waiting);
    assert_eq!(s.command.prev_tick, 1200);
}

#[test]
fn start_run_event_is_applied_while_a_slot_is_free() {
    let mut s = state(1000, 2);
    s.handle_command_action(Event::StartRun(0, WALL));
    s.handle_command_action(Event::StartRun(1, WALL + 1));
    assert_eq!(s.command.running_count, 2);
    assert_eq!(s.command.prev_tick, 1);
    assert_eq!(s.global.get_history().len(), 2);
}

#[test]
fn start_run_event_records_the_dispatch() {
    let mut s = state(500, 1);
    s.ui.show_help = true;
    s.handle_command_action(Event::StartRun(600, WALL));
    assert_eq!(s.command.running_count, 1);
    assert_eq!(s.command.prev_tick, 600);
    assert!(s.global.running);
    assert!(s.ui.show_help);
    let history = s.global.get_history();
    assert_eq!(history.len(), 1);
    assert_eq!(history[0].start, WALL);
    assert_eq!(history[0].status, None);
    assert_eq!(s.start_first_run(2000, WALL + 2), TickOutcome::Waiting);
}

#[test]
fn result_without_pending_record_still_frees_slot() {
    let mut s = state(500, 1);
    assert!(matches!(s.start_first_run(0, WALL), TickOutcome::Dispatched(Some(_))));
    assert!(!s.finish_run(WALL + 99, WALL + 100, String::new(), String::new(), 1));
    assert_eq!(s.command.running_count, 0);
    assert!(s.finish_run(WALL, WALL + 100, "o".to_string(), "e".to_string(), 1));
    assert_eq!(s.command.running_count, 0);
    let r = s.global.get_target_command_result(&TargetCommand::Latest).unwrap();
    assert_eq!(r.get_content(), vec!["e"]);
}

#[test]
fn quit_stops_the_scheduler() {
    let mut s = state(500, 1);
    s.handle_ui_action(Action::Quit);
    assert!(!s.global.running);
    assert_eq!(s.on_tick(10_000, WALL), TickOutcome::Stopped);
    assert!(s.global.get_history().is_empty());
}

#[test]
fn select_prev_at_latest_is_noop_and_select_next_picks_highest() {
    let mut s = state(500, 3);
    assert!(matches!(s.start_first_run(0, WALL), TickOutcome::Dispatched(Some(_))));
    assert!(s.start_run(500, WALL + 500));
    assert!(s.start_run(1000, WALL + 1000));
    s.handle_ui_action(Action::SelectPrev);
    assert_eq!(s.ui.target_command, TargetCommand::Latest);
    s.handle_ui_action(Action::SelectNext);
    assert_eq!(s.ui.target_command, TargetCommand::Target(2));
}

#[test]
fn select_next_and_prev_walk_the_chain_and_clamp() {
    let mut s = state(500, 3);
    assert!(matches!(s.start_first_run(0, WALL), TickOutcome::Dispatched(Some(_))));
    assert!(s.start_run(500, WALL + 500));
    assert!(s.start_run(1000, WALL + 1000));
    let mut seen = Vec::new();
    for _ in 0..4 {
        s.handle_ui_action(Action::SelectNext);
        seen.push(s.ui.target_command);
    }
    assert_eq!(
        seen,
        vec![
            TargetCommand::Target(2),
            TargetCommand::Target(1),
            TargetCommand::Target(0),
            TargetCommand::Target(0)
        ]
    );
    let mut back = Vec::new();
    for _ in 0..4 {
        s.handle_ui_action(Action::SelectPrev);
        back.push(s.ui.target_command);
    }
    assert_eq!(
        back,
        vec![
            TargetCommand::Target(1),
            TargetCommand::Target(2),
            TargetCommand::Latest,
            TargetCommand::Latest
        ]
    );
    s.handle_ui_action(Action::SelectNext);
    s.handle_ui_action(Action::SelectNext);
    s.handle_ui_action(Action::SelectLatest);
    assert_eq!(s.ui.target_command, TargetCommand::Latest);
}

#[test]
fn select_next_without_records_stays_latest() {
    let mut s = state(500, 1);
    s.handle_ui_action(Action::SelectNext);
    assert_eq!(s.ui.target_command, TargetCommand::Latest);
}

#[test]
fn scrolling_is_bounded_by_content() {
    let mut s = state(500, 1);
    s.handle_ui_action(Action::ScrollDown);
    assert_eq!(s.ui.vertical_scroll, 0);
    assert!(matches!(s.start_first_run(0, WALL), TickOutcome::Dispatched(Some(_))));
    s.handle_ui_action(Action::ScrollDown);
    assert_eq!(s.ui.vertical_scroll, 0);
    s.handle_command_action(Event::RunResult(WALL, WALL + 3, "a\nb\nc\n".to_string(), String::new(), 0));
    for expected in [1u16, 2, 2] {
        s.handle_ui_action(Action::ScrollDown);
        assert_eq!(s.ui.vertical_scroll, expected);
    }
    for expected in [1u16, 0, 0] {
        s.handle_ui_action(Action::ScrollUp);
        assert_eq!(s.ui.vertical_scroll, expected);
    }
    s.ui.vertical_scroll = 9;
    s.handle_ui_action(Action::ScrollDown);
    assert_eq!(s.ui.vertical_scroll, 2);
}

#[test]
fn scrolling_empty_output_is_noop() {
    let mut s = state(500, 1);
    assert!(matches!(s.start_first_run(0, WALL), TickOutcome::Dispatched(Some(_))));
    s.handle_command_action(Event::RunResult(WALL, WALL + 3, String::new(), String::new(), 0));
    s.handle_ui_action(Action::ScrollDown);
    assert_eq!(s.ui.vertical_scroll, 0);
}

#[test]
fn toggles_flip_flags() {
    let mut s = state(500, 1);
    s.handle_ui_action(Action::ToggleShowHistory);
    s.handle_ui_action(Action::ToggleShowHelp);
    assert!(s.ui.show_history && s.ui.show_help);
    s.handle_ui_action(Action::ToggleShowHistory);
    s.handle_ui_action(Action::ToggleShowHelp);
    assert!(!s.ui.show_history && !s.ui.show_help);
    assert!(s.global.running);
}
