use htty::cli::StyleMode;
use htty::session::{resize_request, Client, Event, Session, Subscription, BROADCAST_BACKLOG};
use htty::style::StyleData;
use htty::vt::{Color, Pen};
use tokio::sync::broadcast::error::TryRecvError;

fn drain(subscription: &mut Subscription) -> Vec<Event> {
    let mut events = Vec::new();
    while let Ok(event) = subscription.broadcast_rx.try_recv() {
        events.push(event);
    }
    events
}

#[test]
fn new_session_has_the_size_it_was_made_with() {
    let session = Session::new(20, 5);
    assert_eq!(session.terminal_size(), (20, 5));
    assert_eq!(session.pending_pid(), None);
    assert_eq!(session.style_mode(), StyleMode::Plain);
    assert!(!session.cursor_key_app_mode());
}

#[test]
fn new_session_shows_blank_lines_of_full_width() {
    let session = Session::new(4, 2);
    assert_eq!(session.text(), "    \n    ");
    let cells = session.cells();
    assert_eq!(cells.len(), 2);
    assert_eq!(cells[0].len(), 4);
    assert_eq!(cells[1][3].ch, ' ');
    assert_eq!(cells[1][3].width, 1);
}

#[test]
fn cells_of_a_new_terminal_carry_the_default_pen() {
    let session = Session::new(3, 1);
    for cell in &session.cells()[0] {
        assert_eq!(cell.pen, Pen::default());
    }
}

#[test]
fn backlog_is_1024() {
    assert_eq!(BROADCAST_BACKLOG, 1024);
}

#[test]
fn output_feeds_the_terminal_and_publishes() {
    let mut session = Session::new(20, 5);
    let mut subscription = session.subscribe_at(0);
    session.output_at("hi".to_string(), 1_500);
    assert!(session.text().starts_with("hi "));
    assert_eq!(drain(&mut subscription), vec![Event::Output(1_500, "hi".to_string())]);
}

#[test]
fn output_is_published_without_subscribers() {
    let mut session = Session::new(20, 5);
    session.output_at("one".to_string(), 1);
    session.output_at("two".to_string(), 2);
    assert!(session.text().starts_with("onetwo"));
}

#[test]
fn a_clock_that_goes_back_does_not_take_the_times_back() {
    let mut session = Session::new(20, 5);
    let mut subscription = session.subscribe_at(0);
    session.output_at("a".to_string(), 10);
    session.output_at("b".to_string(), 5);
    session.emit_exit_code_at(0, 7);
    session.output_at("c".to_string(), 12);
    assert_eq!(
        drain(&mut subscription),
        vec![
            Event::Output(10, "a".to_string()),
            Event::Output(10, "b".to_string()),
            Event::ExitCode(10, 0),
            Event::Output(12, "c".to_string()),
        ]
    );
}

#[test]
fn resize_request_is_the_exact_sequence() {
    assert_eq!(resize_request(40, 10), "\x1b[8;10;40t");
    assert_eq!(resize_request(0, 0), "\x1b[8;0;0t");
    assert_eq!(resize_request(65535, 1), "\x1b[8;1;65535t");
}

#[test]
fn resize_changes_the_size_and_publishes() {
    let mut session = Session::new(80, 24);
    let mut subscription = session.subscribe_at(0);
    session.resize_at(40, 10, 3);
    assert_eq!(session.terminal_size(), (40, 10));
    session.snapshot();
    let events = drain(&mut subscription);
    assert_eq!(events[0], Event::Resize(3, 40, 10));
    match &events[1] {
        Event::Snapshot(cols, rows, _, text, style) => {
            assert_eq!((*cols, *rows), (40, 10));
            assert_eq!(text.split('\n').count(), 10);
            assert!(style.is_none());
        }
        other => panic!("not a snapshot: {:?}", other),
    }
}

#[test]
fn snapshot_in_plain_mode_carries_dump_and_text() {
    let mut session = Session::new(20, 5);
    session.output_at("echo hi\r\nhi\r\n$ ".to_string(), 1);
    let mut subscription = session.subscribe_at(2);
    session.snapshot();
    let events = drain(&mut subscription);
    assert_eq!(events.len(), 1);
    assert_eq!(
        events[0],
        Event::Snapshot(20, 5, session.dump_seq(), session.text(), None)
    );
    let text = session.text();
    let lines: Vec<&str> = text.split('\n').collect();
    assert_eq!(lines.len(), 5);
    assert_eq!(lines[1].trim_end(), "hi");
    assert_eq!(lines[2].trim_end(), "$");
}

#[test]
fn snapshot_leaves_the_clock_alone() {
    let mut session = Session::new(20, 5);
    let mut subscription = session.subscribe_at(0);
    session.output_at("x".to_string(), 50);
    session.snapshot();
    session.emit_debug_event_at("after", 20);
    let events = drain(&mut subscription);
    assert_eq!(events[2], Event::Debug(50, "after".to_string()));
}

#[test]
fn snapshot_in_styled_mode_carries_maps_of_the_size_of_the_screen() {
    let mut session = Session::new(6, 3);
    session.set_style_mode(StyleMode::Styled);
    assert_eq!(session.style_mode(), StyleMode::Styled);
    session.output_at("a\x1b[1;31mb\x1b[0mc".to_string(), 1);
    let mut subscription = session.subscribe_at(2);
    session.snapshot();
    let events = drain(&mut subscription);
    let style = match &events[0] {
        Event::Snapshot(6, 3, _, _, Some(style)) => style.clone(),
        other => panic!("not a styled snapshot: {:?}", other),
    };
    assert_eq!(style.char_map.len(), 3);
    assert_eq!(style.style_map.len(), 3);
    for r in 0..3 {
        assert_eq!(style.char_map[r].len(), 6);
        assert_eq!(style.style_map[r].len(), 6);
        for c in 0..6 {
            assert!(style.style_map[r][c] < style.styles.len());
        }
    }
    assert_eq!(style.char_map[0], vec!['a', 'b', 'c', ' ', ' ', ' ']);
    assert_eq!(style.style_map[0], vec![0, 1, 0, 0, 0, 0]);
    assert_eq!(style.styles.len(), 2);
    assert_eq!(style.styles[0].fg, None);
    assert!(style.styles[0].attrs.is_empty());
    assert_eq!(style.styles[1].attrs, vec!["bold".to_string()]);
    assert_eq!(style.styles[1].fg.map(|c| format!("{:?}", c)), Some("Indexed { indexed: 1 }".to_string()));
    assert_eq!(style, StyleData::build(&session.cells(), 6, 3));
}

#[test]
fn subscription_starts_with_init_of_the_present_screen() {
    let mut session = Session::new(20, 5);
    session.output_at("hello".to_string(), 4);
    let mut subscription = session.subscribe_at(9);
    assert_eq!(
        subscription.init,
        Event::Init(9, 20, 5, 0, session.dump_seq(), session.text(), None)
    );
    assert_eq!(subscription.broadcast_rx.try_recv(), Err(TryRecvError::Empty));
}

#[test]
fn subscription_does_not_see_what_was_published_before() {
    let mut session = Session::new(20, 5);
    let mut early = session.subscribe_at(0);
    session.output_at("before".to_string(), 1);
    let mut late = session.subscribe_at(2);
    session.output_at("after".to_string(), 3);
    assert_eq!(
        drain(&mut early),
        vec![Event::Output(1, "before".to_string()), Event::Output(3, "after".to_string())]
    );
    assert_eq!(drain(&mut late), vec![Event::Output(3, "after".to_string())]);
}

#[test]
fn pid_is_kept_and_replayed_to_late_subscribers() {
    let mut session = Session::new(20, 5);
    let mut early = session.subscribe_at(0);
    session.emit_pid_at(4321, 5);
    assert_eq!(session.pending_pid(), Some(4321));
    let mut late = session.subscribe_at(8);
    match &late.init {
        Event::Init(8, 20, 5, 4321, _, _, None) => {}
        other => panic!("unexpected init: {:?}", other),
    }
    assert_eq!(drain(&mut late), vec![Event::Pid(8, 4321)]);
    assert_eq!(drain(&mut early), vec![Event::Pid(5, 4321), Event::Pid(8, 4321)]);
}

#[test]
fn times_after_a_subscription_are_not_before_its_init() {
    let mut session = Session::new(20, 5);
    session.output_at("x".to_string(), 100);
    let mut subscription = session.subscribe_at(40);
    session.emit_debug_event_at("late", 60);
    session.emit_command_completed_at(150);
    let init_time = match subscription.init {
        Event::Init(time, ..) => time,
        _ => unreachable!(),
    };
    assert_eq!(init_time, 100);
    assert_eq!(
        drain(&mut subscription),
        vec![Event::Debug(100, "late".to_string()), Event::Completed(150)]
    );
}

#[test]
fn exit_code_completed_and_debug_are_published() {
    let mut session = Session::new(20, 5);
    let mut subscription = session.subscribe_at(0);
    session.emit_command_completed_at(1);
    session.emit_exit_code_at(7, 2);
    session.emit_debug_event_at("ptyHeartbeat", 3);
    assert_eq!(
        drain(&mut subscription),
        vec![Event::Completed(1), Event::ExitCode(2, 7), Event::Debug(3, "ptyHeartbeat".to_string())]
    );
}

#[test]
fn operations_that_read_the_clock_keep_the_times_in_order() {
    let mut session = Session::new(20, 5);
    let mut subscription = session.subscribe();
    session.output("a".to_string());
    session.resize(30, 6);
    session.emit_pid(1);
    session.emit_exit_code(0);
    session.emit_command_completed();
    session.emit_debug_event("done");
    let mut last = match subscription.init {
        Event::Init(time, ..) => time,
        _ => unreachable!(),
    };
    let events = drain(&mut subscription);
    assert_eq!(events.len(), 6);
    for event in events {
        let time = match event {
            Event::Output(t, _) | Event::Resize(t, _, _) | Event::Pid(t, _) | Event::ExitCode(t, _)
            | Event::Debug(t, _) | Event::Completed(t) => t,
            other => panic!("unexpected: {:?}", other),
        };
        assert!(time >= last);
        last = time;
    }
    assert_eq!(session.terminal_size(), (30, 6));
}

#[test]
fn clock_readings_do_not_go_back() {
    let session = Session::new(2, 2);
    let first = session.read_clock();
    let second = session.read_clock();
    assert!(second >= first);
}

#[test]
fn cursor_key_mode_follows_the_terminal() {
    let mut session = Session::new(20, 5);
    assert!(!session.cursor_key_app_mode());
    session.output_at("\x1b[?1h".to_string(), 1);
    assert!(session.cursor_key_app_mode());
    session.output_at("\x1b[?1l".to_string(), 2);
    assert!(!session.cursor_key_app_mode());
}

#[test]
fn wide_glyphs_take_two_columns() {
    let mut session = Session::new(4, 1);
    session.output_at("日".to_string(), 1);
    let cells = session.cells();
    assert_eq!(cells[0][0].ch, '日');
    assert_eq!(cells[0][0].width, 2);
}

#[test]
fn rgb_colours_are_read_from_the_terminal() {
    let mut session = Session::new(4, 1);
    session.output_at("\x1b[38;2;1;2;3;48;5;9mz".to_string(), 1);
    let cell = session.cells()[0][0];
    assert_eq!(cell.ch, 'z');
    assert_eq!(cell.pen.foreground, Some(Color::Rgb(1, 2, 3)));
    assert_eq!(cell.pen.background, Some(Color::Indexed(9)));
}

#[test]
fn every_attribute_is_read_from_the_terminal() {
    let mut session = Session::new(8, 1);
    session.output_at("\x1b[1mb\x1b[0;2mf\x1b[0;3mi\x1b[0;4mu\x1b[0;9ms\x1b[0;5mk\x1b[0;7mv".to_string(), 1);
    let row = session.cells()[0].clone();
    assert!(row[0].pen.attrs.bold && !row[0].pen.attrs.faint);
    assert!(row[1].pen.attrs.faint && !row[1].pen.attrs.bold);
    assert!(row[2].pen.attrs.italic);
    assert!(row[3].pen.attrs.underline);
    assert!(row[4].pen.attrs.strikethrough);
    assert!(row[5].pen.attrs.blink);
    assert!(row[6].pen.attrs.inverse);
    assert_eq!(row[7].pen, Pen::default());
}

#[test]
fn dump_fed_to_a_new_terminal_gives_the_same_text_and_pens() {
    let mut session = Session::new(12, 4);
    session.set_style_mode(StyleMode::Styled);
    session.output_at("plain \x1b[1;32mgreen\x1b[0m\r\n\x1b[4;38;2;9;8;7mline\x1b[0m two".to_string(), 1);
    let mut subscription = session.subscribe_at(2);
    session.snapshot();
    let (seq, text, style) = match drain(&mut subscription).remove(0) {
        Event::Snapshot(12, 4, seq, text, Some(style)) => (seq, text, style),
        other => panic!("not a styled snapshot: {:?}", other),
    };
    let mut copy = Session::new(12, 4);
    copy.set_style_mode(StyleMode::Styled);
    copy.output_at(seq, 1);
    assert_eq!(copy.text(), text);
    let again = StyleData::build(&copy.cells(), 12, 4);
    assert_eq!(again.char_map, style.char_map);
    assert_eq!(again.styles.len(), style.styles.len());
    for r in 0..4 {
        for c in 0..12 {
            assert_eq!(again.styles[again.style_map[r][c]], style.styles[style.style_map[r][c]]);
        }
    }
}

#[test]
fn client_is_handed_its_subscription() {
    let mut session = Session::new(20, 5);
    let (tx, mut rx) = tokio::sync::oneshot::channel();
    let subscription = session.subscribe_at(1);
    Client(tx).accept(subscription);
    let mut received = rx.try_recv().expect("the subscription");
    assert!(matches!(received.init, Event::Init(1, 20, 5, 0, _, _, None)));
    session.output_at("x".to_string(), 2);
    assert_eq!(drain(&mut received), vec![Event::Output(2, "x".to_string())]);
}

#[test]
fn client_that_went_away_is_no_error() {
    let mut session = Session::new(20, 5);
    let (tx, rx) = tokio::sync::oneshot::channel();
    drop(rx);
    let subscription = session.subscribe_at(1);
    Client(tx).accept(subscription);
}

#[test]
fn slow_subscriber_loses_the_oldest_events() {
    let mut session = Session::new(20, 5);
    let mut subscription = session.subscribe_at(0);
    for i in 0..(BROADCAST_BACKLOG as i32 + 10) {
        session.emit_exit_code_at(i, 1);
    }
    assert!(matches!(subscription.broadcast_rx.try_recv(), Err(TryRecvError::Lagged(_))));
    assert_eq!(subscription.broadcast_rx.try_recv(), Ok(Event::ExitCode(1, 10)));
}
