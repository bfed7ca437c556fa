use htty::command::Command;
use htty::pty::{
    after_read, classify, exit_code, fifo_path, fifo_watch, is_exit_line, shell_arguments, shell_command,
    ChildStatus, Driver, DriverAction, DriverEvent, DriverPhase, FatalIo, IoAttempt, Pump, ReadNext,
    WriteNext, CHILD_TERM, EXIT_LINE, FIFO_WATCH_MILLIS, HEARTBEAT_MILLIS, LINGER_CHECK_MILLIS,
    READ_BUF_SIZE, REAP_CUSHION_MILLIS, SHELL_PATH,
};

fn note(message: &str) -> DriverAction {
    DriverAction::Send(Command::Debug(message.to_string()))
}

#[test]
fn fifo_lies_under_tmp_with_the_pid_of_the_host() {
    assert_eq!(fifo_path(1234), "/tmp/ht_fifo_1234");
    assert_eq!(fifo_path(0), "/tmp/ht_fifo_0");
    assert_eq!(fifo_path(u32::MAX), "/tmp/ht_fifo_4294967295");
}

#[test]
fn shell_runs_the_command_then_the_helper_and_keeps_the_exit_code() {
    assert_eq!(
        shell_command("exit 7", "/usr/bin/ht", "/tmp/ht_fifo_1"),
        "exit 7 ; exit_code=$? ; /usr/bin/ht wait-exit /tmp/ht_fifo_1 ; exit $exit_code"
    );
    assert_eq!(
        shell_arguments("ls -l", "ht", "/tmp/ht_fifo_2"),
        vec![
            "/bin/sh".to_string(),
            "-c".to_string(),
            "ls -l ; exit_code=$? ; ht wait-exit /tmp/ht_fifo_2 ; exit $exit_code".to_string(),
        ]
    );
}

#[test]
fn constants_of_the_driver() {
    assert_eq!(CHILD_TERM, "xterm-256color");
    assert_eq!(SHELL_PATH, "/bin/sh");
    assert_eq!(EXIT_LINE, "exit\n");
    assert_eq!(READ_BUF_SIZE, 128 * 1024);
    assert_eq!(FIFO_WATCH_MILLIS, 50);
    assert_eq!(REAP_CUSHION_MILLIS, 200);
    assert_eq!(HEARTBEAT_MILLIS, 60_000);
    assert_eq!(LINGER_CHECK_MILLIS, 100);
}

#[test]
fn helper_is_released_by_the_line_exit() {
    assert!(is_exit_line("exit"));
    assert!(is_exit_line("exit\n"));
    assert!(is_exit_line("  exit \t\r\n"));
    assert!(!is_exit_line("exit now"));
    assert!(!is_exit_line("Exit"));
    assert!(!is_exit_line(""));
    assert!(is_exit_line(EXIT_LINE));
}

#[test]
fn exit_code_of_a_child_that_exited_is_its_own() {
    assert_eq!(exit_code(ChildStatus::Exited(0)), 0);
    assert_eq!(exit_code(ChildStatus::Exited(7)), 7);
    assert_eq!(exit_code(ChildStatus::Exited(-3)), -3);
}

#[test]
fn exit_code_of_a_signalled_child_is_128_and_the_signal() {
    assert_eq!(exit_code(ChildStatus::Signaled(15)), 143);
    assert_eq!(exit_code(ChildStatus::Signaled(9)), 137);
    assert_eq!(exit_code(ChildStatus::Signaled(1)), 129);
    assert_eq!(exit_code(ChildStatus::Signaled(255)), 383);
}

#[test]
fn exit_code_of_anything_else_is_minus_one() {
    assert_eq!(exit_code(ChildStatus::Other), -1);
}

#[test]
fn watcher_reports_the_fifo_once_it_is_there() {
    assert_eq!(fifo_watch(false, "/tmp/ht_fifo_1"), None);
    assert_eq!(fifo_watch(true, "/tmp/ht_fifo_1"), Some(Command::Completed("/tmp/ht_fifo_1".to_string())));
}

#[test]
fn attempts_are_classified() {
    assert_eq!(classify(IoAttempt::Moved(12)), Ok(Some(12)));
    assert_eq!(classify(IoAttempt::Moved(0)), Ok(Some(0)));
    assert_eq!(classify(IoAttempt::WouldBlock), Ok(None));
    assert_eq!(classify(IoAttempt::Failed), Err(FatalIo));
}

#[test]
fn reads_are_forwarded_until_the_end() {
    assert_eq!(after_read(Some(5)), ReadNext::Forward(5));
    assert_eq!(after_read(Some(READ_BUF_SIZE)), ReadNext::Forward(READ_BUF_SIZE));
    assert_eq!(after_read(Some(0)), ReadNext::Finished);
    assert_eq!(after_read(None), ReadNext::Wait);
}

#[test]
fn pump_keeps_input_until_it_is_written() {
    let mut pump = Pump::new();
    assert!(!pump.wants_write());
    pump.queue(b"abc");
    pump.queue(b"");
    pump.queue(b"de");
    assert!(pump.wants_write());
    assert_eq!(pump.to_write(), b"abcde");
    assert_eq!(pump.after_write(Some(2)), WriteNext::Again);
    assert_eq!(pump.to_write(), b"cde");
    assert_eq!(pump.after_write(None), WriteNext::Wait);
    assert_eq!(pump.to_write(), b"cde");
    pump.queue(b"f");
    assert_eq!(pump.to_write(), b"cdef");
    assert_eq!(pump.after_write(Some(4)), WriteNext::Drained);
    assert!(!pump.wants_write());
    assert_eq!(pump.to_write(), b"");
}

#[test]
fn pump_stops_when_the_master_takes_nothing() {
    let mut pump = Pump::new();
    pump.queue(b"abc");
    assert_eq!(pump.after_write(Some(0)), WriteNext::Finished);
    assert_eq!(pump.to_write(), b"abc");
}

#[test]
fn pump_never_drops_more_than_it_holds() {
    let mut pump = Pump::new();
    pump.queue(b"abc");
    assert_eq!(pump.after_write(Some(10)), WriteNext::Drained);
    assert_eq!(pump.to_write(), b"");
}

#[test]
fn driver_follows_its_script() {
    let mut driver = Driver::new(42);
    assert_eq!(driver.fifo_path(), "/tmp/ht_fifo_42");
    assert_eq!(driver.current_phase(), DriverPhase::Starting);
    assert_eq!(
        driver.advance(DriverEvent::Forked(1000)),
        vec![
            DriverAction::SendPid(1000),
            note("fifoPathGenerated:/tmp/ht_fifo_42"),
            note("startingCoordination:/tmp/ht_fifo_42"),
            note("startingFifoMonitoring"),
            DriverAction::WatchFifo("/tmp/ht_fifo_42".to_string()),
            DriverAction::RunPump,
        ]
    );
    assert_eq!(driver.current_phase(), DriverPhase::Pumping);
    assert_eq!(
        driver.advance(DriverEvent::PumpEnded),
        vec![note("outputCaptureComplete"), DriverAction::Hangup, DriverAction::Cushion]
    );
    assert_eq!(driver.current_phase(), DriverPhase::Releasing);
    assert_eq!(
        driver.advance(DriverEvent::CushionElapsed),
        vec![note("coordinationComplete"), DriverAction::Reap]
    );
    assert_eq!(driver.current_phase(), DriverPhase::Reaping);
    assert_eq!(
        driver.advance(DriverEvent::Reaped(ChildStatus::Signaled(15))),
        vec![DriverAction::SendExitCode(143), note("ptyContinuingForSnapshots"), DriverAction::Linger]
    );
    assert_eq!(driver.current_phase(), DriverPhase::Lingering);
    assert_eq!(
        driver.advance(DriverEvent::HeartbeatDue),
        vec![DriverAction::Heartbeat(Command::Debug("ptyHeartbeat".to_string()))]
    );
    assert_eq!(driver.current_phase(), DriverPhase::Lingering);
    assert_eq!(
        driver.advance(DriverEvent::ChannelClosed),
        vec![note("ptyExitingDueToMainShutdown"), note("ptyTaskExiting"), DriverAction::Finish]
    );
    assert_eq!(driver.current_phase(), DriverPhase::Done);
    assert_eq!(driver.advance(DriverEvent::HeartbeatDue), Vec::new());
}

#[test]
fn driver_leaves_when_the_heartbeat_is_lost() {
    let mut driver = Driver::new(1);
    driver.advance(DriverEvent::Forked(2));
    driver.advance(DriverEvent::PumpEnded);
    driver.advance(DriverEvent::CushionElapsed);
    driver.advance(DriverEvent::Reaped(ChildStatus::Exited(7)));
    assert_eq!(
        driver.advance(DriverEvent::HeartbeatLost),
        vec![note("ptyExitingDueToChannelClosure"), note("ptyTaskExiting"), DriverAction::Finish]
    );
    assert_eq!(driver.current_phase(), DriverPhase::Done);
}

#[test]
fn driver_ignores_what_its_phase_does_not_wait_for() {
    let mut driver = Driver::new(1);
    assert_eq!(driver.advance(DriverEvent::Reaped(ChildStatus::Exited(0))), Vec::new());
    assert_eq!(driver.advance(DriverEvent::PumpEnded), Vec::new());
    assert_eq!(driver.current_phase(), DriverPhase::Starting);
    driver.advance(DriverEvent::Forked(2));
    assert_eq!(driver.advance(DriverEvent::CushionElapsed), Vec::new());
    assert_eq!(driver.advance(DriverEvent::ChannelClosed), Vec::new());
    assert_eq!(driver.current_phase(), DriverPhase::Pumping);
}
