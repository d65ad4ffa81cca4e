use ratch::Engine;
use ratch::InputEvent;
use ratch::Mode;
use ratch::Outcome;
use ratch::PendingResult;
use ratch::Row;
use ratch::Step;
use ratch::Viewport;
use ratch::due;
use ratch::split_lines;

fn strings(v: Vec<&str>) -> Vec<String> {
    v.into_iter().map(|s| s.to_string()).collect()
}

fn numbered_lines(n: usize) -> Vec<String> {
    (0..n).map(|i| format!("line {}\n", i)).collect()
}

fn lines_result(generation: u64, text: &str) -> PendingResult {
    PendingResult { generation, outcome: Outcome::Lines(split_lines(text)) }
}

const VP: Viewport = Viewport { width: 80, height: 20 };

#[test]
fn due_compares_one_total_duration() {
    assert!(!due(5, 0, 10));
    assert!(due(10, 0, 10));
    assert!(due(11, 0, 10));
    // A clock that stepped backwards is never due.
    assert!(!due(0, 5, 1));
    // A zero interval is due at once.
    assert!(due(0, 0, 0));
}

#[test]
fn scheduler_records_each_trigger() {
    let mut s = ratch::Scheduler::new(10, 5);
    assert!(!s.check(14));
    assert!(s.check(15));
    assert!(!s.check(24));
    assert!(s.check(25));
    assert_eq!(s.last_trigger, 25);
    assert_eq!(s.interval_nanos, 10);
}

#[test]
fn half_second_command_after_1100_ms() {
    // interval 0.5 s; the command prints "A" at once; after 1.1 s of wall
    // clock the buffer is exactly ["A\n"] and two runs were dispatched.
    let mut e = Engine::new(500_000_000, true, 0);
    assert_eq!(e.poll_timer(0), None);
    assert_eq!(e.poll_timer(400_000_000), None);
    assert_eq!(e.poll_timer(500_000_000), Some(1));
    assert!(e.on_result(lines_result(1, "A\n")));
    assert_eq!(e.poll_timer(900_000_000), None);
    assert_eq!(e.poll_timer(1_000_000_000), Some(2));
    assert!(e.on_result(lines_result(2, "A\n")));
    assert_eq!(e.poll_timer(1_100_000_000), None);
    assert_eq!(e.generation, 2);
    assert_eq!(e.view.buffer, strings(vec!["A\n"]));
}

#[test]
fn stale_result_is_discarded() {
    let mut e = Engine::new(1_000_000_000, true, 0);
    assert_eq!(e.poll_timer(1_000_000_000), Some(1));
    assert_eq!(e.poll_timer(2_000_000_000), Some(2));
    // The newer run finishes first; the older result arrives late.
    assert!(e.on_result(lines_result(2, "new\n")));
    assert!(!e.on_result(lines_result(1, "old\n")));
    assert_eq!(e.view.buffer, strings(vec!["new\n"]));
    assert_eq!(e.view.highest_admitted_generation, 2);
    // A later generation still replaces the buffer.
    assert_eq!(e.poll_timer(3_000_000_000), Some(3));
    assert!(e.on_result(lines_result(3, "newer\n")));
    assert_eq!(e.view.buffer, strings(vec!["newer\n"]));
}

#[test]
fn any_interleaving_ends_on_highest_generation() {
    // Whatever order results arrive in, the buffer ends up holding the
    // outcome of the highest generation delivered.
    let mut e = Engine::new(1_000_000_000, true, 0);
    for generation in [3, 1, 2, 5, 4] {
        e.on_result(lines_result(generation, &format!("run {}\n", generation)));
    }
    assert_eq!(e.view.buffer, strings(vec!["run 5\n"]));
    assert_eq!(e.view.highest_admitted_generation, 5);
}

#[test]
fn failure_becomes_single_line() {
    let mut e = Engine::new(1_000_000_000, true, 0);
    assert!(e.on_result(PendingResult {
        generation: 1,
        outcome: Outcome::Failure("boom".to_string()),
    }));
    assert_eq!(e.view.buffer, strings(vec!["boom"]));
}

#[test]
fn bottom_key_jumps_to_last_full_page() {
    // 100 lines, viewport height 20, cursor 90: G lands on 80.
    let mut e = Engine::new(1_000_000_000, true, 0);
    e.view.buffer = numbered_lines(100);
    e.view.cursor = 90;
    assert_eq!(e.handle_event(InputEvent::Key('G'), 20), Step::Continue);
    assert_eq!(e.view.cursor, 80);
}

#[test]
fn bottom_key_on_short_buffer_goes_to_top() {
    let mut e = Engine::new(1_000_000_000, true, 0);
    e.view.buffer = numbered_lines(5);
    e.view.cursor = 3;
    e.handle_event(InputEvent::Key('G'), 20);
    assert_eq!(e.view.cursor, 0);
}

#[test]
fn scroll_keys_move_cursor() {
    let mut e = Engine::new(1_000_000_000, false, 0);
    e.view.buffer = numbered_lines(100);
    e.handle_event(InputEvent::Key('j'), 20);
    e.handle_event(InputEvent::Down, 20);
    assert_eq!(e.view.cursor, 2);
    e.handle_event(InputEvent::Key('k'), 20);
    assert_eq!(e.view.cursor, 1);
    e.handle_event(InputEvent::Up, 20);
    assert_eq!(e.view.cursor, 0);
    e.handle_event(InputEvent::PageDown, 20);
    assert_eq!(e.view.cursor, 19);
    e.handle_event(InputEvent::PageUp, 20);
    assert_eq!(e.view.cursor, 0);
    e.view.cursor = 42;
    e.handle_event(InputEvent::Key('g'), 20);
    assert_eq!(e.view.cursor, 0);
}

#[test]
fn a_tick_of_events_is_processed_in_order() {
    let mut e = Engine::new(1_000_000_000, true, 0);
    e.view.buffer = numbered_lines(100);
    let events = vec![
        InputEvent::Key('j'),
        InputEvent::Key('j'),
        InputEvent::Key('k'),
        InputEvent::PageDown,
    ];
    assert_eq!(e.process_events(&events, 20), Step::Continue);
    assert_eq!(e.view.cursor, 20);
    // A quit event stops processing; later events are not applied.
    let events = vec![InputEvent::Key('q'), InputEvent::Key('j')];
    assert_eq!(e.process_events(&events, 20), Step::Quit);
    assert_eq!(e.view.cursor, 20);
}

#[test]
fn quit_keys_stop_the_loop() {
    let mut e = Engine::new(1_000_000_000, true, 0);
    assert_eq!(e.handle_event(InputEvent::Key('q'), 20), Step::Quit);
    assert_eq!(e.handle_event(InputEvent::Key('Q'), 20), Step::Quit);
    // While searching, q is text, not quit.
    e.handle_event(InputEvent::Key('/'), 20);
    assert_eq!(e.handle_event(InputEvent::Key('q'), 20), Step::Continue);
    assert_eq!(e.view.search_text, "q");
}

#[test]
fn clamp_keeps_cursor_in_range() {
    // For every pass in constrained mode, 0 <= cursor <= max(0, len - height).
    let mut e = Engine::new(1_000_000_000, true, 0);
    e.view.buffer = numbered_lines(100);
    e.view.cursor = -7;
    e.finish_events(20);
    assert_eq!(e.view.cursor, 0);
    e.view.cursor = 95;
    e.finish_events(20);
    assert_eq!(e.view.cursor, 80);
    e.view.cursor = 40;
    e.finish_events(20);
    assert_eq!(e.view.cursor, 40);
    // A buffer shorter than the viewport pins the cursor to the top.
    e.view.buffer = numbered_lines(5);
    e.view.cursor = 3;
    e.finish_events(20);
    assert_eq!(e.view.cursor, 0);
}

#[test]
fn unconstrained_mode_leaves_cursor_alone() {
    let mut e = Engine::new(1_000_000_000, false, 0);
    e.view.buffer = numbered_lines(10);
    e.view.cursor = -7;
    e.finish_events(20);
    assert_eq!(e.view.cursor, -7);
    e.view.cursor = 1000;
    e.finish_events(20);
    assert_eq!(e.view.cursor, 1000);
}

#[test]
fn search_editing_appends_and_deletes() {
    let mut e = Engine::new(1_000_000_000, true, 0);
    e.handle_event(InputEvent::Key('/'), 20);
    assert_eq!(e.view.mode, Mode::Searching);
    e.handle_event(InputEvent::Key('e'), 20);
    e.handle_event(InputEvent::Key('r'), 20);
    e.handle_event(InputEvent::Key('x'), 20);
    e.handle_event(InputEvent::Backspace, 20);
    e.handle_event(InputEvent::Key('r'), 20);
    assert_eq!(e.view.search_text, "err");
    // Enter commits the text and returns to normal mode, keeping the
    // filter active.
    e.handle_event(InputEvent::Key('\n'), 20);
    assert_eq!(e.view.mode, Mode::Normal);
    assert_eq!(e.view.search_text, "err");
}

#[test]
fn typed_search_highlights_match_span() {
    // Searching for "err": the line "no error here" matches at byte
    // offsets (3, 6).
    let mut e = Engine::new(1_000_000_000, true, 0);
    assert!(e.on_result(lines_result(1, "no error here\n")));
    e.handle_event(InputEvent::Key('/'), 20);
    e.handle_event(InputEvent::Key('e'), 20);
    e.handle_event(InputEvent::Key('r'), 20);
    e.handle_event(InputEvent::Key('r'), 20);
    e.handle_event(InputEvent::Key('\n'), 20);
    let frame = e.prepare_frame(VP).unwrap();
    match &frame.rows[0] {
        Row::Text { line, highlight } => {
            assert_eq!(line, "no error here\n");
            assert_eq!(*highlight, Some((3, 6)));
        }
        Row::Blank => panic!("first row should hold the buffer line"),
    }
}

#[test]
fn no_match_leaves_line_unmarked() {
    let mut e = Engine::new(1_000_000_000, true, 0);
    assert!(e.on_result(lines_result(1, "all fine here\n")));
    e.handle_event(InputEvent::Key('/'), 20);
    e.handle_event(InputEvent::Key('e'), 20);
    e.handle_event(InputEvent::Key('r'), 20);
    e.handle_event(InputEvent::Key('r'), 20);
    e.handle_event(InputEvent::Key('\n'), 20);
    let frame = e.prepare_frame(VP).unwrap();
    match &frame.rows[0] {
        Row::Text { highlight, .. } => assert_eq!(*highlight, None),
        Row::Blank => panic!("first row should hold the buffer line"),
    }
}

#[test]
fn invalid_pattern_keeps_old_pattern_and_buffer() {
    // An unbalanced group must not stop the loop, must flag the status
    // line, and must leave the buffer and the previous pattern alone.
    let mut e = Engine::new(1_000_000_000, true, 0);
    assert!(e.on_result(lines_result(1, "no error here\n")));
    for c in "/err\n".chars() {
        assert_eq!(e.handle_event(InputEvent::Key(c), 20), Step::Continue);
    }
    let _ = e.prepare_frame(VP).unwrap();
    for c in "/(\n".chars() {
        assert_eq!(e.handle_event(InputEvent::Key(c), 20), Step::Continue);
    }
    let frame = e.prepare_frame(VP).unwrap();
    assert_eq!(frame.status, "!");
    assert_eq!(e.view.buffer, strings(vec!["no error here\n"]));
    match &frame.rows[0] {
        // The previously compiled pattern "err" is still the active one.
        Row::Text { highlight, .. } => assert_eq!(*highlight, Some((3, 6))),
        Row::Blank => panic!("first row should hold the buffer line"),
    }
}

#[test]
fn status_line_shows_prompt_and_search() {
    let mut e = Engine::new(1_000_000_000, true, 0);
    assert!(e.on_result(lines_result(1, "a\n")));
    let frame = e.prepare_frame(VP).unwrap();
    assert_eq!(frame.status, ":");
    e.handle_event(InputEvent::Key('/'), 20);
    e.handle_event(InputEvent::Key('a'), 20);
    e.handle_event(InputEvent::Key('b'), 20);
    let frame = e.prepare_frame(VP).unwrap();
    assert_eq!(frame.status, "/ab");
}

#[test]
fn rows_outside_buffer_are_blank() {
    let mut e = Engine::new(1_000_000_000, true, 0);
    assert!(e.on_result(lines_result(1, "a\nb\n")));
    let frame = e.prepare_frame(VP).unwrap();
    assert_eq!(frame.rows.len(), 19);
    assert!(matches!(&frame.rows[0], Row::Text { .. }));
    assert!(matches!(&frame.rows[1], Row::Text { .. }));
    for row in &frame.rows[2..] {
        assert!(matches!(row, Row::Blank));
    }
}

#[test]
fn negative_cursor_shows_blank_rows_above_buffer() {
    // With clamping switched off the cursor may sit above the buffer;
    // the rows before index 0 are blank.
    let mut e = Engine::new(1_000_000_000, false, 0);
    assert!(e.on_result(lines_result(1, "first\n")));
    e.view.cursor = -2;
    let frame = e.prepare_frame(VP).unwrap();
    assert!(matches!(&frame.rows[0], Row::Blank));
    assert!(matches!(&frame.rows[1], Row::Blank));
    match &frame.rows[2] {
        Row::Text { line, .. } => assert_eq!(line, "first\n"),
        Row::Blank => panic!("row at buffer index 0 should hold the line"),
    }
}

#[test]
fn arrows_scroll_while_searching() {
    let mut e = Engine::new(1_000_000_000, false, 0);
    e.view.buffer = numbered_lines(100);
    e.handle_event(InputEvent::Key('/'), 20);
    e.handle_event(InputEvent::Down, 20);
    e.handle_event(InputEvent::Down, 20);
    e.handle_event(InputEvent::Up, 20);
    assert_eq!(e.view.cursor, 1);
    assert_eq!(e.view.mode, Mode::Searching);
}

#[test]
fn clearing_search_drops_the_filter() {
    let mut e = Engine::new(1_000_000_000, true, 0);
    assert!(e.on_result(lines_result(1, "no error here\n")));
    for c in "/err\n".chars() {
        e.handle_event(InputEvent::Key(c), 20);
    }
    let _ = e.prepare_frame(VP).unwrap();
    // Starting a new, empty search clears the highlight.
    for c in "/\n".chars() {
        e.handle_event(InputEvent::Key(c), 20);
    }
    let frame = e.prepare_frame(VP).unwrap();
    match &frame.rows[0] {
        Row::Text { highlight, .. } => assert_eq!(*highlight, None),
        Row::Blank => panic!("first row should hold the buffer line"),
    }
}

#[test]
fn clean_ticks_are_not_redrawn() {
    let mut e = Engine::new(1_000_000_000, true, 0);
    assert!(e.prepare_frame(VP).is_none());
    assert!(e.on_result(lines_result(1, "a\n")));
    assert!(e.prepare_frame(VP).is_some());
    // Nothing changed since the last frame: no redraw.
    assert!(e.prepare_frame(VP).is_none());
    // An unbound key changes nothing either.
    e.handle_event(InputEvent::Other, 20);
    e.handle_event(InputEvent::Key('x'), 20);
    assert!(e.prepare_frame(VP).is_none());
}
