use htty::cli::StyleMode;
use htty::command::{Command, CursorKey, InputSeq};
use htty::coordinator::{Action, Coordinator, FifoOutcome, LoopEvent, NANOS_PER_MILLI, QUIET_NANOS};
use htty::session::{Client, Event, Session, Subscription};

const MS: u128 = 1_000_000;

fn start(cols: usize, rows: usize) -> (Coordinator, Subscription) {
    let mut session = Session::new(cols, rows);
    let subscription = session.subscribe_at(0);
    (Coordinator::new_at(session, 0), subscription)
}

fn drain(subscription: &mut Subscription) -> Vec<Event> {
    let mut events = Vec::new();
    while let Ok(event) = subscription.broadcast_rx.try_recv() {
        events.push(event);
    }
    events
}

fn debug(time: u128, message: &str) -> Event {
    Event::Debug(time, message.to_string())
}

#[test]
fn quiet_window_is_200_ms() {
    assert_eq!(QUIET_NANOS, 200 * MS);
    assert_eq!(NANOS_PER_MILLI, MS);
}

#[test]
fn new_coordinator_serves_and_has_nothing_pending() {
    let (coordinator, _) = start(20, 5);
    assert!(coordinator.serving());
    assert!(!coordinator.api_completed());
    assert!(!coordinator.pending_exit());
    assert_eq!(coordinator.session_ref().terminal_size(), (20, 5));
    let fresh = Coordinator::new(Session::new(3, 3));
    assert!(fresh.serving());
    assert!(fresh.read_clock() <= fresh.read_clock());
}

#[test]
fn output_is_decoded_fed_and_published() {
    let (mut coordinator, mut subscription) = start(20, 5);
    let action = coordinator.handle(LoopEvent::Output(Some(b"hi".to_vec())), 5);
    assert_eq!(action, Action::Continue);
    assert_eq!(
        drain(&mut subscription),
        vec![debug(5, "outputReceived:2bytes"), Event::Output(5, "hi".to_string()), debug(5, "outputProcessed")]
    );
    assert!(coordinator.session_ref().text().starts_with("hi "));
}

#[test]
fn output_that_is_not_utf8_is_decoded_with_replacement() {
    let (mut coordinator, mut subscription) = start(20, 5);
    coordinator.handle(LoopEvent::Output(Some(vec![0xff, b'a', 0xc3])), 1);
    let events = drain(&mut subscription);
    assert_eq!(events[0], debug(1, "outputReceived:3bytes"));
    assert_eq!(events[1], Event::Output(1, "\u{fffd}a\u{fffd}".to_string()));
}

#[test]
fn closed_output_channel_ends_the_loop() {
    let (mut coordinator, mut subscription) = start(20, 5);
    assert_eq!(coordinator.handle(LoopEvent::Output(None), 3), Action::Stop);
    assert_eq!(drain(&mut subscription), vec![debug(3, "outputChannelClosed")]);
}

#[test]
fn pid_and_exit_code_are_forwarded() {
    let (mut coordinator, mut subscription) = start(20, 5);
    assert_eq!(coordinator.handle(LoopEvent::Pid(Some(77)), 1), Action::Continue);
    assert_eq!(coordinator.handle(LoopEvent::Pid(None), 2), Action::Continue);
    assert_eq!(coordinator.handle(LoopEvent::ExitCode(Some(143)), 3), Action::Continue);
    assert_eq!(coordinator.handle(LoopEvent::ExitCode(None), 4), Action::Continue);
    assert_eq!(drain(&mut subscription), vec![Event::Pid(1, 77), Event::ExitCode(3, 143)]);
    assert_eq!(coordinator.session_ref().pending_pid(), Some(77));
}

#[test]
fn output_is_published_before_the_exit_code() {
    let (mut coordinator, mut subscription) = start(20, 5);
    coordinator.handle(LoopEvent::Output(Some(b"hello\r\n".to_vec())), 1);
    coordinator.handle(LoopEvent::Command(Some(Command::Completed("/tmp/ht_fifo_1".to_string()))), 2);
    coordinator.handle(LoopEvent::ExitCode(Some(0)), 3);
    let events = drain(&mut subscription);
    let output = events.iter().position(|e| matches!(e, Event::Output(_, text) if text == "hello\r\n"));
    let completed = events.iter().position(|e| matches!(e, Event::Completed(_)));
    let exit = events.iter().position(|e| matches!(e, Event::ExitCode(_, 0)));
    assert!(output.unwrap() < completed.unwrap());
    assert!(completed.unwrap() < exit.unwrap());
    assert_eq!(exit.unwrap(), events.len() - 1);
}

#[test]
fn input_is_encoded_by_the_mode_of_the_terminal() {
    let (mut coordinator, mut subscription) = start(20, 5);
    let keys = vec![InputSeq::Standard("ls".to_string()), InputSeq::Cursor(CursorKey::Up)];
    let action = coordinator.handle(LoopEvent::Command(Some(Command::Input(keys.clone()))), 1);
    assert_eq!(action, Action::SendInput(b"ls\x1b[A".to_vec()));
    coordinator.handle(LoopEvent::Output(Some(b"\x1b[?1h".to_vec())), 2);
    let action = coordinator.handle(LoopEvent::Command(Some(Command::Input(keys))), 3);
    assert_eq!(action, Action::SendInput(b"ls\x1bOA".to_vec()));
    let events = drain(&mut subscription);
    assert_eq!(events[0], debug(1, "commandReceived:Input([Standard(\"ls\"), Cursor(Up)])"));
    assert_eq!(events.len(), 5);
}

#[test]
fn snapshot_command_publishes_a_snapshot_between_two_notes() {
    let (mut coordinator, mut subscription) = start(20, 5);
    coordinator.handle(LoopEvent::Output(Some(b"hi".to_vec())), 1);
    drain(&mut subscription);
    assert_eq!(coordinator.handle(LoopEvent::Command(Some(Command::Snapshot)), 2), Action::Continue);
    let session = coordinator.session_ref();
    assert_eq!(
        drain(&mut subscription),
        vec![
            debug(2, "commandReceived:Snapshot"),
            debug(2, "snapshotCommandReceived"),
            Event::Snapshot(20, 5, session.dump_seq(), session.text(), None),
            debug(2, "snapshotCommandCompleted"),
        ]
    );
}

#[test]
fn resize_command_resizes_the_terminal() {
    let (mut coordinator, mut subscription) = start(80, 24);
    assert_eq!(coordinator.handle(LoopEvent::Command(Some(Command::Resize(40, 10))), 4), Action::Continue);
    assert_eq!(
        drain(&mut subscription),
        vec![debug(4, "commandReceived:Resize(40, 10)"), Event::Resize(4, 40, 10)]
    );
    assert_eq!(coordinator.session_ref().terminal_size(), (40, 10));
    coordinator.handle(LoopEvent::Command(Some(Command::Snapshot)), 5);
    let events = drain(&mut subscription);
    assert!(matches!(events[2], Event::Snapshot(40, 10, _, _, None)));
}

#[test]
fn debug_command_publishes_its_message() {
    let (mut coordinator, mut subscription) = start(20, 5);
    coordinator.handle(LoopEvent::Command(Some(Command::Debug("ptyHeartbeat".to_string()))), 9);
    assert_eq!(
        drain(&mut subscription),
        vec![debug(9, "commandReceived:Debug(\"ptyHeartbeat\")"), debug(9, "ptyHeartbeat")]
    );
}

#[test]
fn closed_command_channel_ends_the_loop() {
    let (mut coordinator, mut subscription) = start(20, 5);
    assert_eq!(coordinator.handle(LoopEvent::Command(None), 3), Action::Stop);
    assert_eq!(drain(&mut subscription), vec![debug(3, "commandChannelClosed")]);
}

#[test]
fn exit_waits_until_the_commands_have_been_quiet_for_200_ms() {
    let (mut coordinator, mut subscription) = start(20, 5);
    let keys = vec![InputSeq::Standard("ls".to_string()), InputSeq::Standard("\r".to_string())];
    assert_eq!(
        coordinator.handle(LoopEvent::Command(Some(Command::Input(keys))), 1 * MS),
        Action::SendInput(b"ls\r".to_vec())
    );
    assert_eq!(coordinator.handle(LoopEvent::Command(Some(Command::Snapshot)), 2 * MS), Action::Continue);
    assert_eq!(coordinator.handle(LoopEvent::Command(Some(Command::Exit)), 3 * MS), Action::Continue);
    assert!(coordinator.pending_exit());
    assert_eq!(coordinator.handle(LoopEvent::Tick, 10 * MS), Action::Continue);
    assert_eq!(coordinator.handle(LoopEvent::Tick, 203 * MS - 1), Action::Continue);
    assert_eq!(coordinator.handle(LoopEvent::Tick, 203 * MS), Action::Stop);
    let events = drain(&mut subscription);
    let snapshot = events.iter().position(|e| matches!(e, Event::Snapshot(..))).unwrap();
    let leaving = events.iter().position(|e| *e == debug(203 * MS, "exitAfterQuiescence")).unwrap();
    assert!(snapshot < leaving);
    assert_eq!(leaving, events.len() - 1);
    assert_eq!(
        &events[events.len() - 7..],
        &[
            debug(3 * MS, "commandReceived:Exit"),
            debug(3 * MS, "exitCommandReceived"),
            debug(3 * MS, "exitCommandQueued"),
            debug(10 * MS, "emptinessCheck:7ms"),
            debug(203 * MS - 1, "emptinessCheck:199ms"),
            debug(203 * MS, "emptinessCheck:200ms"),
            debug(203 * MS, "exitAfterQuiescence"),
        ]
    );
}

#[test]
fn a_command_after_exit_starts_the_quiet_window_again() {
    let (mut coordinator, _subscription) = start(20, 5);
    coordinator.handle(LoopEvent::Command(Some(Command::Exit)), 0);
    assert_eq!(coordinator.handle(LoopEvent::Tick, 150 * MS), Action::Continue);
    coordinator.handle(LoopEvent::Command(Some(Command::Snapshot)), 190 * MS);
    assert_eq!(coordinator.handle(LoopEvent::Tick, 250 * MS), Action::Continue);
    assert_eq!(coordinator.handle(LoopEvent::Tick, 389 * MS), Action::Continue);
    assert_eq!(coordinator.handle(LoopEvent::Tick, 390 * MS), Action::Stop);
}

#[test]
fn tick_with_nothing_pending_is_silent() {
    let (mut coordinator, mut subscription) = start(20, 5);
    assert_eq!(coordinator.handle(LoopEvent::Tick, 500 * MS), Action::Continue);
    assert_eq!(drain(&mut subscription), Vec::new());
}

#[test]
fn a_clock_before_the_last_command_counts_as_no_wait() {
    let (mut coordinator, mut subscription) = start(20, 5);
    coordinator.handle(LoopEvent::Command(Some(Command::Exit)), 900 * MS);
    drain(&mut subscription);
    assert_eq!(coordinator.handle(LoopEvent::Tick, 100 * MS), Action::Continue);
    assert_eq!(drain(&mut subscription), vec![debug(900 * MS, "emptinessCheck:0ms")]);
}

#[test]
fn completed_is_published_and_the_helper_is_signalled_after_the_quiet_window() {
    let (mut coordinator, mut subscription) = start(20, 5);
    let path = "/tmp/ht_fifo_99".to_string();
    assert_eq!(
        coordinator.handle(LoopEvent::Command(Some(Command::Completed(path.clone()))), 10 * MS),
        Action::Continue
    );
    assert_eq!(
        drain(&mut subscription),
        vec![
            debug(10 * MS, "commandReceived:Completed(\"/tmp/ht_fifo_99\")"),
            Event::Completed(10 * MS),
            debug(10 * MS, "commandCompletedReceived"),
        ]
    );
    assert_eq!(coordinator.handle(LoopEvent::Tick, 100 * MS), Action::Continue);
    assert_eq!(coordinator.handle(LoopEvent::Tick, 210 * MS), Action::SignalFifo(path));
    assert_eq!(
        drain(&mut subscription),
        vec![
            debug(100 * MS, "emptinessCheck:90ms"),
            debug(210 * MS, "emptinessCheck:200ms"),
            debug(210 * MS, "signalingWaitexit"),
        ]
    );
    assert_eq!(coordinator.handle(LoopEvent::FifoSignalled(FifoOutcome::Sent), 210 * MS), Action::Continue);
    assert_eq!(drain(&mut subscription), vec![debug(210 * MS, "exitSignalSent")]);
    assert_eq!(coordinator.handle(LoopEvent::Tick, 220 * MS), Action::Continue);
    assert_eq!(drain(&mut subscription), Vec::new());
}

#[test]
fn each_outcome_of_the_signal_has_its_note() {
    for (outcome, message) in [
        (FifoOutcome::Sent, "exitSignalSent"),
        (FifoOutcome::Failed, "exitSignalFailed"),
        (FifoOutcome::Missing, "fifoMissingForExit"),
    ] {
        let (mut coordinator, mut subscription) = start(20, 5);
        assert_eq!(coordinator.handle(LoopEvent::FifoSignalled(outcome), 1), Action::Continue);
        assert_eq!(drain(&mut subscription), vec![debug(1, message)]);
    }
}

#[test]
fn signal_and_exit_due_at_the_same_tick_are_both_done() {
    let (mut coordinator, mut subscription) = start(20, 5);
    coordinator.handle(LoopEvent::Command(Some(Command::Completed("/tmp/f".to_string()))), 0);
    coordinator.handle(LoopEvent::Command(Some(Command::Exit)), 1 * MS);
    drain(&mut subscription);
    assert_eq!(coordinator.handle(LoopEvent::Tick, 201 * MS), Action::SignalFifo("/tmp/f".to_string()));
    assert_eq!(coordinator.handle(LoopEvent::FifoSignalled(FifoOutcome::Failed), 201 * MS), Action::Stop);
    assert_eq!(
        drain(&mut subscription),
        vec![
            debug(201 * MS, "emptinessCheck:200ms"),
            debug(201 * MS, "signalingWaitexit"),
            debug(201 * MS, "exitSignalFailed"),
            debug(201 * MS, "exitAfterQuiescence"),
        ]
    );
}

#[test]
fn clients_are_handed_a_subscription_while_serving() {
    let (mut coordinator, _) = start(20, 5);
    coordinator.handle(LoopEvent::Pid(Some(5)), 1);
    let (tx, mut rx) = tokio::sync::oneshot::channel();
    assert_eq!(coordinator.handle(LoopEvent::Client(Some(Client(tx))), 2), Action::Continue);
    let mut subscription = rx.try_recv().expect("a subscription");
    assert!(matches!(subscription.init, Event::Init(2, 20, 5, 5, _, _, None)));
    assert_eq!(drain(&mut subscription), vec![Event::Pid(2, 5)]);
    assert_eq!(coordinator.handle(LoopEvent::Client(None), 3), Action::Continue);
    assert!(!coordinator.serving());
    let (tx, mut rx) = tokio::sync::oneshot::channel();
    assert_eq!(coordinator.handle(LoopEvent::Client(Some(Client(tx))), 4), Action::Continue);
    assert!(rx.try_recv().is_err());
}

#[test]
fn end_of_the_command_reader_does_not_end_the_loop() {
    let (mut coordinator, mut subscription) = start(20, 5);
    assert_eq!(coordinator.handle(LoopEvent::ApiClosed, 1), Action::Continue);
    assert!(coordinator.api_completed());
    assert_eq!(
        drain(&mut subscription),
        vec![debug(1, "apiHandleClosed"), debug(1, "apiClosedContinuingToProcessCommands")]
    );
    assert_eq!(coordinator.handle(LoopEvent::ApiClosed, 2), Action::Continue);
    assert_eq!(drain(&mut subscription), Vec::new());
    assert_eq!(coordinator.handle(LoopEvent::Command(Some(Command::Snapshot)), 3), Action::Continue);
    assert_eq!(drain(&mut subscription).len(), 4);
}

#[test]
fn late_snapshot_after_the_exit_code_shows_the_output() {
    let (mut coordinator, mut subscription) = start(20, 5);
    coordinator.handle(LoopEvent::Output(Some(b"hello\r\n".to_vec())), 1);
    coordinator.handle(LoopEvent::ExitCode(Some(0)), 2);
    coordinator.handle(LoopEvent::Command(Some(Command::Snapshot)), 3);
    let events = drain(&mut subscription);
    let text = events
        .iter()
        .find_map(|e| match e {
            Event::Snapshot(_, _, _, text, _) => Some(text.clone()),
            _ => None,
        })
        .unwrap();
    assert!(text.contains("hello"));
}

#[test]
fn styled_session_gives_styled_snapshots_through_the_coordinator() {
    let mut session = Session::new(4, 2);
    session.set_style_mode(StyleMode::Styled);
    let mut subscription = session.subscribe_at(0);
    let mut coordinator = Coordinator::new_at(session, 0);
    coordinator.handle(LoopEvent::Command(Some(Command::Snapshot)), 1);
    let events = drain(&mut subscription);
    match &events[2] {
        Event::Snapshot(4, 2, _, _, Some(style)) => {
            assert_eq!(style.char_map, vec![vec![' '; 4]; 2]);
            assert_eq!(style.style_map, vec![vec![0; 4]; 2]);
            assert_eq!(style.styles.len(), 1);
        }
        other => panic!("unexpected: {:?}", other),
    }
}

#[test]
fn step_reads_the_clock_itself() {
    let (mut coordinator, mut subscription) = start(20, 5);
    assert_eq!(coordinator.step(LoopEvent::Pid(Some(1))), Action::Continue);
    assert_eq!(coordinator.step(LoopEvent::Output(None)), Action::Stop);
    let events = drain(&mut subscription);
    assert!(matches!(events[0], Event::Pid(_, 1)));
    assert!(matches!(&events[1], Event::Debug(_, m) if m == "outputChannelClosed"));
}
