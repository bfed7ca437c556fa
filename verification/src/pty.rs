//! The rules of the PTY driver: where the helper's FIFO lies, what the child
//! shell is asked to run, how the pump keeps input until it is written, what
//! exit code a reaped child stands for, and the script that the driver
//! follows from fork to its last heartbeat.
//!
//! The driver itself forks, reads and writes; it hands what happens to the
//! functions here and does what they answer.

use crate::command::{Command, CommandView};
use crate::text::{decimal, push_decimal, same_text};
use vstd::prelude::*;

verus! {

/// The size of the scratch buffer for reads from the master side: 128 KiB.
pub const READ_BUF_SIZE: usize = 131072;

/// The time between two looks for the helper's FIFO, in milliseconds.
pub const FIFO_WATCH_MILLIS: u64 = 50;

/// The time left to the helper after the hang-up before the child is
/// reaped, in milliseconds.
pub const REAP_CUSHION_MILLIS: u64 = 200;

/// The time between two heartbeats of a lingering driver, in milliseconds.
pub const HEARTBEAT_MILLIS: u64 = 60000;

/// The time between two looks at the command channel of a lingering driver,
/// in milliseconds.
pub const LINGER_CHECK_MILLIS: u64 = 100;

/// The value of `TERM` for the child.
pub const CHILD_TERM: &'static str = "xterm-256color";

/// The shell that runs the child's command.
pub const SHELL_PATH: &'static str = "/bin/sh";

/// The path of the FIFO of the host with this PID: `/tmp/ht_fifo_<pid>`.
pub open spec fn fifo_path_of(host_pid: u32) -> Seq<char> {
    "/tmp/ht_fifo_"@ + decimal(host_pid as nat)
}

/// The path of the FIFO of the host with this PID.
pub fn fifo_path(host_pid: u32) -> (path: String)
    ensures
        path@ == fifo_path_of(host_pid),
{
    let mut path = String::from_str("/tmp/ht_fifo_");
    push_decimal(&mut path, host_pid as u128);
    path
}

/// What the shell is asked to run: the user's command, then the helper,
/// then an exit with the code of the user's command:
/// `<command> ; exit_code=$? ; <binary> wait-exit <fifo> ; exit $exit_code`.
pub open spec fn shell_command_of(command: Seq<char>, binary: Seq<char>, fifo: Seq<char>) -> Seq<char> {
    command + " ; exit_code=$? ; "@ + binary + " wait-exit "@ + fifo + " ; exit $exit_code"@
}

/// What the shell is asked to run.
pub fn shell_command(command: &str, binary: &str, fifo: &str) -> (line: String)
    ensures
        line@ == shell_command_of(command@, binary@, fifo@),
{
    let mut line = String::from_str(command);
    line.append(" ; exit_code=$? ; ");
    line.append(binary);
    line.append(" wait-exit ");
    line.append(fifo);
    line.append(" ; exit $exit_code");
    line
}

/// The arguments of the child: the shell, `-c`, and what it is to run.
pub fn shell_arguments(command: &str, binary: &str, fifo: &str) -> (arguments: Vec<String>)
    ensures
        arguments@.len() == 3,
        arguments@[0]@ == SHELL_PATH@,
        arguments@[1]@ == "-c"@,
        arguments@[2]@ == shell_command_of(command@, binary@, fifo@),
{
    let mut arguments: Vec<String> = Vec::new();
    arguments.push(String::from_str(SHELL_PATH));
    arguments.push(String::from_str("-c"));
    arguments.push(shell_command(command, binary, fifo));
    arguments
}

/// What `str::trim` leaves of a text: the text without the white space at
/// its two ends.
pub uninterp spec fn trimmed(text: Seq<char>) -> Seq<char>;

/// `str::trim`.
#[verifier::external_body]
fn trim(text: &str) -> (inner: &str)
    ensures
        inner@ == trimmed(text@),
{
    text.trim()
}

/// Whether a line that the helper read from its FIFO releases it: the line
/// is `exit`, white space at its ends aside.
pub fn is_exit_line(line: &str) -> (releases: bool)
    ensures
        releases == (trimmed(line@) == "exit"@),
{
    same_text(trim(line), "exit")
}

/// The line that releases the helper.
pub const EXIT_LINE: &'static str = "exit\n";

/// How the wait for the child ended.
#[derive(Clone, Copy, Debug, PartialEq, Eq)]
pub enum ChildStatus {
    /// The child exited with this code.
    Exited(i32),
    /// The child was ended by the signal of this number.
    Signaled(u8),
    /// The wait reported anything else, or failed.
    Other,
}

/// The exit code that a reaped child stands for: its own, 128 and the
/// number of the signal that ended it, or -1.
pub open spec fn exit_code_of(status: ChildStatus) -> int {
    match status {
        ChildStatus::Exited(code) => code as int,
        ChildStatus::Signaled(signal) => 128 + signal,
        ChildStatus::Other => -1,
    }
}

/// The exit code that a reaped child stands for.
pub fn exit_code(status: ChildStatus) -> (code: i32)
    ensures
        code == exit_code_of(status),
{
    match status {
        ChildStatus::Exited(code) => code,
        ChildStatus::Signaled(signal) => {
            let number: i32 = signal as i32;
            128 + number
        },
        ChildStatus::Other => -1,
    }
}

/// What the watcher of the FIFO sends when it has looked: `Completed` with
/// the path once the FIFO is there, after which it looks no more.
pub fn fifo_watch(exists: bool, path: &str) -> (found: Option<Command>)
    ensures
        match found {
            Some(command) => exists && command@ == CommandView::Completed(path@),
            None => !exists,
        },
{
    if exists {
        Some(Command::Completed(String::from_str(path)))
    } else {
        None
    }
}

/// What an attempt to read or write without blocking gave.
#[derive(Clone, Copy, Debug, PartialEq, Eq)]
pub enum IoAttempt {
    /// This many bytes were moved; none at the end of the stream.
    Moved(usize),
    /// The attempt failed because it would have blocked.
    WouldBlock,
    /// The attempt failed otherwise.
    Failed,
}

/// An attempt failed for another reason than that it would have blocked.
#[derive(Clone, Copy, Debug, PartialEq, Eq)]
pub struct FatalIo;

/// The result of an attempt as the pump reads it: `Some(n)` for bytes,
/// `Some(0)` for the end of the stream, `None` for "would block"; any other
/// failure is fatal.
pub fn classify(attempt: IoAttempt) -> (result: Result<Option<usize>, FatalIo>)
    ensures
        result == (match attempt {
            IoAttempt::Moved(n) => Ok::<Option<usize>, FatalIo>(Some(n)),
            IoAttempt::WouldBlock => Ok(None),
            IoAttempt::Failed => Err(FatalIo),
        }),
{
    match attempt {
        IoAttempt::Moved(n) => Ok(Some(n)),
        IoAttempt::WouldBlock => Ok(None),
        IoAttempt::Failed => Err(FatalIo),
    }
}

/// What the pump does after a read from the master side.
#[derive(Clone, Copy, Debug, PartialEq, Eq)]
pub enum ReadNext {
    /// Send the first bytes of the scratch buffer, this many, on the output
    /// channel, and read again.
    Forward(usize),
    /// The stream has ended: the pump is done.
    Finished,
    /// Nothing to read now: wait until the master side is readable again.
    Wait,
}

/// What the pump does after a read from the master side.
pub fn after_read(result: Option<usize>) -> (next: ReadNext)
    ensures
        next == (match result {
            Some(n) => if n == 0 {
                ReadNext::Finished
            } else {
                ReadNext::Forward(n)
            },
            None => ReadNext::Wait,
        }),
{
    match result {
        Some(n) => if n == 0 {
            ReadNext::Finished
        } else {
            ReadNext::Forward(n)
        },
        None => ReadNext::Wait,
    }
}

/// What the pump does after a write to the master side.
#[derive(Clone, Copy, Debug, PartialEq, Eq)]
pub enum WriteNext {
    /// Input is left: write again.
    Again,
    /// All input is written.
    Drained,
    /// Nothing can be written now: wait until the master side is writable
    /// again.
    Wait,
    /// The master side takes no more: the pump is done.
    Finished,
}

/// The input that the pump holds until the child has taken it.
pub struct Pump {
    input: Vec<u8>,
}

/// How many bytes a write took of `pending`: what it reports, and never
/// more than there were.
pub open spec fn taken(pending: Seq<u8>, result: Option<usize>) -> int {
    match result {
        Some(n) => if n <= pending.len() {
            n as int
        } else {
            pending.len() as int
        },
        None => 0,
    }
}

/// What the pump does after a write that found `pending` to write.
pub open spec fn write_next(pending: Seq<u8>, result: Option<usize>) -> WriteNext {
    match result {
        Some(n) => if n == 0 {
            WriteNext::Finished
        } else if n >= pending.len() {
            WriteNext::Drained
        } else {
            WriteNext::Again
        },
        None => WriteNext::Wait,
    }
}

impl Pump {
    /// The bytes that wait to be written, oldest first.
    pub closed spec fn pending(&self) -> Seq<u8> {
        self.input@
    }

    /// A pump that holds nothing.
    pub fn new() -> (pump: Pump)
        ensures
            pump.pending() == Seq::<u8>::empty(),
    {
        Pump { input: Vec::new() }
    }

    /// A batch of input has come from the coordinator: it is kept behind
    /// what is already held.
    pub fn queue(&mut self, data: &[u8])
        ensures
            final(self).pending() == old(self).pending() + data@,
    {
        self.input.extend_from_slice(data);
    }

    /// Whether there is input to write: the pump waits for the master side
    /// to be writable only while there is.
    pub fn wants_write(&self) -> (wants: bool)
        ensures
            wants == (self.pending().len() > 0),
    {
        self.input.len() > 0
    }

    /// The bytes to offer to the next write.
    pub fn to_write(&self) -> (bytes: &[u8])
        ensures
            bytes@ == self.pending(),
    {
        self.input.as_slice()
    }

    /// A write was attempted with all that is pending: what it took leaves
    /// the buffer, the rest stays, in order.
    pub fn after_write(&mut self, result: Option<usize>) -> (next: WriteNext)
        ensures
            final(self).pending() == old(self).pending().skip(taken(old(self).pending(), result)),
            next == write_next(old(self).pending(), result),
    {
        match result {
            None => {
                assert(self.input@.skip(0) =~= self.input@);
                WriteNext::Wait
            },
            Some(n) => {
                if n == 0 {
                    assert(self.input@.skip(0) =~= self.input@);
                    WriteNext::Finished
                } else if n >= self.input.len() {
                    self.input.clear();
                    assert(self.input@ =~= old(self).pending().skip(old(self).pending().len() as int));
                    WriteNext::Drained
                } else {
                    let rest = self.input.split_off(n);
                    self.input = rest;
                    assert(self.input@ =~= old(self).pending().skip(n as int));
                    WriteNext::Again
                }
            },
        }
    }
}

/// One thing that happens to a pump.
pub enum PumpOp {
    /// A batch of input came.
    Queue(Seq<u8>),
    /// A write was attempted, with this result.
    Write(Option<usize>),
}

/// What the pump holds after the first `n` of `ops`.
pub open spec fn pending_after(ops: Seq<PumpOp>, n: int) -> Seq<u8>
    decreases n,
{
    if n <= 0 {
        Seq::empty()
    } else {
        let held = pending_after(ops, n - 1);
        match ops[n - 1] {
            PumpOp::Queue(data) => held + data,
            PumpOp::Write(result) => held.skip(taken(held, result)),
        }
    }
}

/// All input that came in the first `n` of `ops`, in order.
pub open spec fn queued_after(ops: Seq<PumpOp>, n: int) -> Seq<u8>
    decreases n,
{
    if n <= 0 {
        Seq::empty()
    } else {
        match ops[n - 1] {
            PumpOp::Queue(data) => queued_after(ops, n - 1) + data,
            PumpOp::Write(_) => queued_after(ops, n - 1),
        }
    }
}

/// All that the writes of the first `n` of `ops` took, in order.
pub open spec fn written_after(ops: Seq<PumpOp>, n: int) -> Seq<u8>
    decreases n,
{
    if n <= 0 {
        Seq::empty()
    } else {
        let held = pending_after(ops, n - 1);
        match ops[n - 1] {
            PumpOp::Queue(_) => written_after(ops, n - 1),
            PumpOp::Write(result) => written_after(ops, n - 1) + held.take(taken(held, result)),
        }
    }
}

/// No byte of input is lost or reordered: whatever came and whatever the
/// writes took, the input that came is what was written followed by what
/// the pump still holds.
pub proof fn lemma_pump_keeps_input(ops: Seq<PumpOp>, n: int)
    requires
        0 <= n <= ops.len(),
    ensures
        queued_after(ops, n) == written_after(ops, n) + pending_after(ops, n),
    decreases n,
{
    if n > 0 {
        lemma_pump_keeps_input(ops, n - 1);
        let held = pending_after(ops, n - 1);
        match ops[n - 1] {
            PumpOp::Queue(data) => {
                assert(queued_after(ops, n) =~= written_after(ops, n) + pending_after(ops, n));
            },
            PumpOp::Write(result) => {
                let k = taken(held, result);
                assert(held =~= held.take(k) + held.skip(k));
                assert(queued_after(ops, n) =~= written_after(ops, n) + pending_after(ops, n));
            },
        }
    } else {
        assert(queued_after(ops, n) =~= written_after(ops, n) + pending_after(ops, n));
    }
}

/// Where the driver is in its script.
#[derive(Clone, Copy, Debug, PartialEq, Eq)]
pub enum DriverPhase {
    /// The child is to be forked.
    Starting,
    /// The pump runs.
    Pumping,
    /// The child was hung up on; the helper is given time.
    Releasing,
    /// The child is waited for.
    Reaping,
    /// The child is gone; the driver stays for late snapshots.
    Lingering,
    /// The driver has ended.
    Done,
}

/// One thing that happens to the driver.
#[derive(Clone, Copy, Debug, PartialEq, Eq)]
pub enum DriverEvent {
    /// The child was forked, with this PID.
    Forked(i32),
    /// The pump has ended: the input channel was closed, the master side
    /// reached its end, or an attempt failed.
    PumpEnded,
    /// The time given to the helper has passed.
    CushionElapsed,
    /// The wait for the child has ended.
    Reaped(ChildStatus),
    /// A heartbeat is due.
    HeartbeatDue,
    /// The heartbeat could not be sent.
    HeartbeatLost,
    /// The command channel was found closed.
    ChannelClosed,
}

/// One thing that the driver is asked to do.
#[derive(Clone, Debug, PartialEq, Eq)]
pub enum DriverAction {
    /// Send the PID on the PID channel, if there is room.
    SendPid(i32),
    /// Send this command on the command channel, if there is room.
    Send(Command),
    /// Look for the FIFO at this path every 50 ms.
    WatchFifo(String),
    /// Run the pump until it ends.
    RunPump,
    /// Send the child a hang-up.
    Hangup,
    /// Wait for 200 ms.
    Cushion,
    /// Wait for the child.
    Reap,
    /// Send the exit code on the exit code channel, if there is room.
    SendExitCode(i32),
    /// Keep alive: a heartbeat every 60 s, a look at the command channel
    /// every 100 ms.
    Linger,
    /// Send the heartbeat on the command channel, and report it lost if it
    /// could not be sent.
    Heartbeat(Command),
    /// End the driver.
    Finish,
}

/// What a `DriverAction` holds.
pub enum DriverActionView {
    SendPid(i32),
    Send(CommandView),
    WatchFifo(Seq<char>),
    RunPump,
    Hangup,
    Cushion,
    Reap,
    SendExitCode(i32),
    Linger,
    Heartbeat(CommandView),
    Finish,
}

impl View for DriverAction {
    type V = DriverActionView;

    open spec fn view(&self) -> DriverActionView {
        match *self {
            DriverAction::SendPid(pid) => DriverActionView::SendPid(pid),
            DriverAction::Send(command) => DriverActionView::Send(command@),
            DriverAction::WatchFifo(path) => DriverActionView::WatchFifo(path@),
            DriverAction::RunPump => DriverActionView::RunPump,
            DriverAction::Hangup => DriverActionView::Hangup,
            DriverAction::Cushion => DriverActionView::Cushion,
            DriverAction::Reap => DriverActionView::Reap,
            DriverAction::SendExitCode(code) => DriverActionView::SendExitCode(code),
            DriverAction::Linger => DriverActionView::Linger,
            DriverAction::Heartbeat(command) => DriverActionView::Heartbeat(command@),
            DriverAction::Finish => DriverActionView::Finish,
        }
    }
}

/// A list of actions by what each holds.
pub open spec fn actions_view(actions: Vec<DriverAction>) -> Seq<DriverActionView> {
    Seq::new(actions@.len(), |i: int| actions@[i]@)
}

/// The action that sends a debug command with this message.
pub open spec fn note(message: Seq<char>) -> DriverActionView {
    DriverActionView::Send(CommandView::Debug(message))
}

/// Where the driver is after an event. An event that the phase does not
/// wait for changes nothing.
pub open spec fn next_phase(phase: DriverPhase, event: DriverEvent) -> DriverPhase {
    match (phase, event) {
        (DriverPhase::Starting, DriverEvent::Forked(_)) => DriverPhase::Pumping,
        (DriverPhase::Pumping, DriverEvent::PumpEnded) => DriverPhase::Releasing,
        (DriverPhase::Releasing, DriverEvent::CushionElapsed) => DriverPhase::Reaping,
        (DriverPhase::Reaping, DriverEvent::Reaped(_)) => DriverPhase::Lingering,
        (DriverPhase::Lingering, DriverEvent::HeartbeatLost) => DriverPhase::Done,
        (DriverPhase::Lingering, DriverEvent::ChannelClosed) => DriverPhase::Done,
        _ => phase,
    }
}

/// What the driver is asked to do after an event, in order. An event that
/// the phase does not wait for asks for nothing.
pub open spec fn driver_actions(phase: DriverPhase, event: DriverEvent, fifo: Seq<char>) -> Seq<
    DriverActionView,
> {
    match (phase, event) {
        (DriverPhase::Starting, DriverEvent::Forked(pid)) => seq![
            DriverActionView::SendPid(pid),
            note("fifoPathGenerated:"@ + fifo),
            note("startingCoordination:"@ + fifo),
            note("startingFifoMonitoring"@),
            DriverActionView::WatchFifo(fifo),
            DriverActionView::RunPump,
        ],
        (DriverPhase::Pumping, DriverEvent::PumpEnded) => seq![
            note("outputCaptureComplete"@),
            DriverActionView::Hangup,
            DriverActionView::Cushion,
        ],
        (DriverPhase::Releasing, DriverEvent::CushionElapsed) => seq![
            note("coordinationComplete"@),
            DriverActionView::Reap,
        ],
        (DriverPhase::Reaping, DriverEvent::Reaped(status)) => seq![
            DriverActionView::SendExitCode(exit_code_of(status) as i32),
            note("ptyContinuingForSnapshots"@),
            DriverActionView::Linger,
        ],
        (DriverPhase::Lingering, DriverEvent::HeartbeatDue) => seq![
            DriverActionView::Heartbeat(CommandView::Debug("ptyHeartbeat"@)),
        ],
        (DriverPhase::Lingering, DriverEvent::HeartbeatLost) => seq![
            note("ptyExitingDueToChannelClosure"@),
            note("ptyTaskExiting"@),
            DriverActionView::Finish,
        ],
        (DriverPhase::Lingering, DriverEvent::ChannelClosed) => seq![
            note("ptyExitingDueToMainShutdown"@),
            note("ptyTaskExiting"@),
            DriverActionView::Finish,
        ],
        _ => Seq::empty(),
    }
}

fn debug_command(message: &str) -> (action: DriverAction)
    ensures
        action@ == note(message@),
{
    DriverAction::Send(Command::Debug(String::from_str(message)))
}

fn debug_with_path(prefix: &str, fifo: &str) -> (action: DriverAction)
    ensures
        action@ == note(prefix@ + fifo@),
{
    let mut message = String::from_str(prefix);
    message.append(fifo);
    DriverAction::Send(Command::Debug(message))
}

/// The driver of one child.
pub struct Driver {
    phase: DriverPhase,
    fifo: String,
}

impl Driver {
    /// Where the driver is in its script.
    pub closed spec fn phase(&self) -> DriverPhase {
        self.phase
    }

    /// The path of the helper's FIFO.
    pub closed spec fn fifo(&self) -> Seq<char> {
        self.fifo@
    }

    /// The driver of the child of the host with this PID, before the fork.
    pub fn new(host_pid: u32) -> (driver: Driver)
        ensures
            driver.phase() == DriverPhase::Starting,
            driver.fifo() == fifo_path_of(host_pid),
    {
        Driver { phase: DriverPhase::Starting, fifo: fifo_path(host_pid) }
    }

    /// The path of the helper's FIFO.
    pub fn fifo_path(&self) -> (path: &str)
        ensures
            path@ == self.fifo(),
    {
        self.fifo.as_str()
    }

    /// Where the driver is in its script.
    pub fn current_phase(&self) -> (phase: DriverPhase)
        ensures
            phase == self.phase(),
    {
        self.phase
    }

    /// Takes an event and answers with what is to be done, in order.
    pub fn advance(&mut self, event: DriverEvent) -> (actions: Vec<DriverAction>)
        ensures
            final(self).phase() == next_phase(old(self).phase(), event),
            final(self).fifo() == old(self).fifo(),
            actions_view(actions) == driver_actions(old(self).phase(), event, old(self).fifo()),
    {
        let mut actions: Vec<DriverAction> = Vec::new();
        match (self.phase, event) {
            (DriverPhase::Starting, DriverEvent::Forked(pid)) => {
                actions.push(DriverAction::SendPid(pid));
                actions.push(debug_with_path("fifoPathGenerated:", self.fifo.as_str()));
                actions.push(debug_with_path("startingCoordination:", self.fifo.as_str()));
                actions.push(debug_command("startingFifoMonitoring"));
                actions.push(DriverAction::WatchFifo(self.fifo.clone()));
                actions.push(DriverAction::RunPump);
                self.phase = DriverPhase::Pumping;
            },
            (DriverPhase::Pumping, DriverEvent::PumpEnded) => {
                actions.push(debug_command("outputCaptureComplete"));
                actions.push(DriverAction::Hangup);
                actions.push(DriverAction::Cushion);
                self.phase = DriverPhase::Releasing;
            },
            (DriverPhase::Releasing, DriverEvent::CushionElapsed) => {
                actions.push(debug_command("coordinationComplete"));
                actions.push(DriverAction::Reap);
                self.phase = DriverPhase::Reaping;
            },
            (DriverPhase::Reaping, DriverEvent::Reaped(status)) => {
                actions.push(DriverAction::SendExitCode(exit_code(status)));
                actions.push(debug_command("ptyContinuingForSnapshots"));
                actions.push(DriverAction::Linger);
                self.phase = DriverPhase::Lingering;
            },
            (DriverPhase::Lingering, DriverEvent::HeartbeatDue) => {
                actions.push(DriverAction::Heartbeat(Command::Debug(String::from_str("ptyHeartbeat"))));
            },
            (DriverPhase::Lingering, DriverEvent::HeartbeatLost) => {
                actions.push(debug_command("ptyExitingDueToChannelClosure"));
                actions.push(debug_command("ptyTaskExiting"));
                actions.push(DriverAction::Finish);
                self.phase = DriverPhase::Done;
            },
            (DriverPhase::Lingering, DriverEvent::ChannelClosed) => {
                actions.push(debug_command("ptyExitingDueToMainShutdown"));
                actions.push(debug_command("ptyTaskExiting"));
                actions.push(DriverAction::Finish);
                self.phase = DriverPhase::Done;
            },
            _ => {},
        }
        assert(actions_view(actions) =~= driver_actions(old(self).phase(), event, old(self).fifo()));
        actions
    }
}

/// The phase of a driver after the first `n` of `events`, from its start.
pub open spec fn phase_after(events: Seq<DriverEvent>, n: int) -> DriverPhase
    decreases n,
{
    if n <= 0 {
        DriverPhase::Starting
    } else {
        next_phase(phase_after(events, n - 1), events[n - 1])
    }
}

/// How far a phase is into the script.
pub open spec fn phase_rank(phase: DriverPhase) -> int {
    match phase {
        DriverPhase::Starting => 0,
        DriverPhase::Pumping => 1,
        DriverPhase::Releasing => 2,
        DriverPhase::Reaping => 3,
        DriverPhase::Lingering => 4,
        DriverPhase::Done => 5,
    }
}

/// The driver never goes back in its script, and never skips a phase.
pub proof fn lemma_driver_moves_forward(phase: DriverPhase, event: DriverEvent)
    ensures
        phase_rank(phase) <= phase_rank(next_phase(phase, event)) <= phase_rank(phase) + 1,
{
}

/// The exit code is sent only for a child that was reaped, and the child is
/// reaped only after the pump has ended and the 200 ms after the hang-up
/// have passed: whatever events the driver is given, if the `k`th asks for
/// the exit code, then the pump's end and the end of the cushion are among
/// the events before it, in this order.
pub proof fn lemma_exit_code_after_pump(events: Seq<DriverEvent>, k: int, fifo: Seq<char>, code: i32)
    requires
        0 <= k < events.len(),
        driver_actions(phase_after(events, k), events[k], fifo).contains(
            DriverActionView::SendExitCode(code),
        ),
    ensures
        events[k] is Reaped,
        exists|i: int, j: int|
            0 <= i < j < k && events[i] == DriverEvent::PumpEnded && events[j]
                == DriverEvent::CushionElapsed,
{
    let actions = driver_actions(phase_after(events, k), events[k], fifo);
    let at = choose|at: int| 0 <= at < actions.len() && actions[at] == DriverActionView::SendExitCode(code);
    assert(actions[at] == DriverActionView::SendExitCode(code));
    assert(phase_after(events, k) == DriverPhase::Reaping);
    lemma_reached(events, k);
}

proof fn lemma_reached(events: Seq<DriverEvent>, n: int)
    requires
        0 <= n <= events.len(),
    ensures
        phase_rank(phase_after(events, n)) >= 2 ==> exists|i: int|
            0 <= i < n && #[trigger] events[i] == DriverEvent::PumpEnded && phase_rank(
                phase_after(events, i + 1),
            ) == 2,
        phase_rank(phase_after(events, n)) >= 3 ==> exists|i: int, j: int|
            0 <= i < j < n && #[trigger] events[i] == DriverEvent::PumpEnded && #[trigger] events[j]
                == DriverEvent::CushionElapsed,
    decreases n,
{
    if n > 0 {
        lemma_reached(events, n - 1);
        let before = phase_after(events, n - 1);
        let after = phase_after(events, n);
        if phase_rank(after) >= 2 {
            if phase_rank(before) >= 2 {
                let i = choose|i: int|
                    0 <= i < n - 1 && #[trigger] events[i] == DriverEvent::PumpEnded && phase_rank(
                        phase_after(events, i + 1),
                    ) == 2;
                assert(events[i] == DriverEvent::PumpEnded);
            } else {
                assert(events[n - 1] == DriverEvent::PumpEnded);
            }
        }
        if phase_rank(after) >= 3 {
            if phase_rank(before) >= 3 {
                let (i, j) = choose|i: int, j: int|
                    0 <= i < j < n - 1 && #[trigger] events[i] == DriverEvent::PumpEnded
                        && #[trigger] events[j] == DriverEvent::CushionElapsed;
                assert(events[i] == DriverEvent::PumpEnded && events[j] == DriverEvent::CushionElapsed);
            } else {
                assert(events[n - 1] == DriverEvent::CushionElapsed);
                assert(phase_rank(before) == 2);
                let i = choose|i: int|
                    0 <= i < n - 1 && #[trigger] events[i] == DriverEvent::PumpEnded && phase_rank(
                        phase_after(events, i + 1),
                    ) == 2;
                assert(events[i] == DriverEvent::PumpEnded && events[n - 1]
                    == DriverEvent::CushionElapsed);
            }
        }
    }
}

} // verus!
