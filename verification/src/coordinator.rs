//! The coordinator of the event loop: what each turn of the loop does to the
//! session and to the loop's own state, and what it asks of its caller.
//!
//! The caller waits on the channels and the timer, hands each thing that
//! happens to `step`, and carries out the action that comes back.

use crate::command::{describe, seqs_bytes, seqs_to_bytes, Command, CommandView};
use crate::session::{
    later_of, lemma_follows_self, lemma_follows_trans, resize_sequence, Client, EventView, Session,
};
use crate::text::{decimal, lossy_text, push_decimal, utf8_lossy};
use vstd::prelude::*;

verus! {

/// How long the commands must have been quiet before a pending exit or a
/// pending signal to the helper is acted on: 200 ms, in nanoseconds.
pub const QUIET_NANOS: u128 = 200_000_000;

/// The nanoseconds of a millisecond.
pub const NANOS_PER_MILLI: u128 = 1_000_000;

/// The time between two ticks of the loop's timer, in milliseconds.
pub const TICK_MILLIS: u64 = 10;

/// How many items the channels for input, output and commands hold.
pub const CHANNEL_CAPACITY: usize = 1024;

/// How many items the channels for the PID, the exit code and the clients
/// hold.
pub const SINGLE_SLOT_CAPACITY: usize = 1;

/// How long a client waits for its subscription, in seconds.
pub const SUBSCRIPTION_TIMEOUT_SECS: u64 = 5;

/// How an attempt to signal the helper through its FIFO ended.
#[derive(Clone, Copy, Debug, PartialEq, Eq)]
pub enum FifoOutcome {
    /// The line was written.
    Sent,
    /// The FIFO is there but could not be opened for writing.
    Failed,
    /// There is no FIFO at the path.
    Missing,
}

/// One thing that happens to the loop.
pub enum LoopEvent {
    /// The output channel gave a batch of bytes, or was closed.
    Output(Option<Vec<u8>>),
    /// The PID channel gave the child's PID, or was closed.
    Pid(Option<i32>),
    /// The exit code channel gave the child's exit code, or was closed.
    ExitCode(Option<i32>),
    /// The timer ticked.
    Tick,
    /// The signal that the last action asked for was attempted.
    FifoSignalled(FifoOutcome),
    /// The command channel gave a command, or was closed.
    Command(Option<Command>),
    /// The clients channel gave a client, or was closed.
    Client(Option<Client>),
    /// The task that reads commands has ended.
    ApiClosed,
}

/// What a `LoopEvent` holds. Of a client only that there is one.
pub enum LoopEventView {
    Output(Option<Seq<u8>>),
    Pid(Option<i32>),
    ExitCode(Option<i32>),
    Tick,
    FifoSignalled(FifoOutcome),
    Command(Option<CommandView>),
    Client(bool),
    ApiClosed,
}

impl View for LoopEvent {
    type V = LoopEventView;

    open spec fn view(&self) -> LoopEventView {
        match *self {
            LoopEvent::Output(Some(bytes)) => LoopEventView::Output(Some(bytes@)),
            LoopEvent::Output(None) => LoopEventView::Output(None),
            LoopEvent::Pid(pid) => LoopEventView::Pid(pid),
            LoopEvent::ExitCode(code) => LoopEventView::ExitCode(code),
            LoopEvent::Tick => LoopEventView::Tick,
            LoopEvent::FifoSignalled(outcome) => LoopEventView::FifoSignalled(outcome),
            LoopEvent::Command(Some(command)) => LoopEventView::Command(Some(command@)),
            LoopEvent::Command(None) => LoopEventView::Command(None),
            LoopEvent::Client(client) => LoopEventView::Client(client is Some),
            LoopEvent::ApiClosed => LoopEventView::ApiClosed,
        }
    }
}

/// What the loop is asked to do after a turn.
#[derive(Clone, Debug, PartialEq, Eq)]
pub enum Action {
    /// Nothing: wait for the next thing to happen.
    Continue,
    /// Send these bytes to the child.
    SendInput(Vec<u8>),
    /// Write the line `exit` to the FIFO at this path, then report how it
    /// went with `LoopEvent::FifoSignalled`.
    SignalFifo(String),
    /// Leave the loop.
    Stop,
}

/// What an `Action` holds.
pub enum ActionView {
    Continue,
    SendInput(Seq<u8>),
    SignalFifo(Seq<char>),
    Stop,
}

impl View for Action {
    type V = ActionView;

    open spec fn view(&self) -> ActionView {
        match *self {
            Action::Continue => ActionView::Continue,
            Action::SendInput(bytes) => ActionView::SendInput(bytes@),
            Action::SignalFifo(path) => ActionView::SignalFifo(path@),
            Action::Stop => ActionView::Stop,
        }
    }
}

/// The loop's own state.
pub struct LoopState {
    /// Whether clients are still taken.
    pub serving: bool,
    /// The clock reading at which the command channel last gave anything.
    pub last_command_time: u128,
    /// The FIFO of a helper that waits to be signalled.
    pub pending_waitexit: Option<Seq<char>>,
    /// Whether an exit was asked for.
    pub pending_exit: bool,
    /// Whether the task that reads commands has ended.
    pub api_completed: bool,
}

/// For how long the command channel has given nothing.
pub open spec fn idle(state: LoopState, now: u128) -> u128 {
    if now >= state.last_command_time {
        (now - state.last_command_time) as u128
    } else {
        0
    }
}

/// The commands have been quiet for 200 ms.
pub open spec fn quiet(state: LoopState, now: u128) -> bool {
    idle(state, now) >= QUIET_NANOS
}

/// A helper waits to be signalled, and the commands have been quiet.
pub open spec fn signal_due(state: LoopState, now: u128) -> bool {
    state.pending_waitexit is Some && quiet(state, now)
}

/// An exit was asked for, and the commands have been quiet.
pub open spec fn exit_due(state: LoopState, now: u128) -> bool {
    state.pending_exit && quiet(state, now)
}

/// The state of the loop after a turn.
pub open spec fn next_state(state: LoopState, event: LoopEventView, now: u128) -> LoopState {
    match event {
        LoopEventView::Command(command) => LoopState {
            serving: state.serving,
            last_command_time: now,
            pending_waitexit: match command {
                Some(CommandView::Completed(path)) => Some(path),
                _ => state.pending_waitexit,
            },
            pending_exit: state.pending_exit || command == Some(CommandView::Exit),
            api_completed: state.api_completed,
        },
        LoopEventView::Tick => LoopState {
            serving: state.serving,
            last_command_time: state.last_command_time,
            pending_waitexit: if signal_due(state, now) {
                None
            } else {
                state.pending_waitexit
            },
            pending_exit: state.pending_exit,
            api_completed: state.api_completed,
        },
        LoopEventView::Client(false) => LoopState {
            serving: false,
            last_command_time: state.last_command_time,
            pending_waitexit: state.pending_waitexit,
            pending_exit: state.pending_exit,
            api_completed: state.api_completed,
        },
        LoopEventView::ApiClosed => LoopState {
            serving: state.serving,
            last_command_time: state.last_command_time,
            pending_waitexit: state.pending_waitexit,
            pending_exit: state.pending_exit,
            api_completed: true,
        },
        _ => state,
    }
}

/// What the loop is asked to do after a turn. `app_mode` is the mode of the
/// terminal's cursor keys before the turn.
pub open spec fn next_action(state: LoopState, event: LoopEventView, now: u128, app_mode: bool) -> ActionView {
    match event {
        LoopEventView::Output(None) => ActionView::Stop,
        LoopEventView::Command(None) => ActionView::Stop,
        LoopEventView::Command(Some(CommandView::Input(seqs))) => ActionView::SendInput(
            seqs_bytes(seqs, app_mode, seqs.len() as int),
        ),
        LoopEventView::Tick => if signal_due(state, now) {
            ActionView::SignalFifo(state.pending_waitexit->0)
        } else if exit_due(state, now) {
            ActionView::Stop
        } else {
            ActionView::Continue
        },
        LoopEventView::FifoSignalled(_) => if exit_due(state, now) {
            ActionView::Stop
        } else {
            ActionView::Continue
        },
        _ => ActionView::Continue,
    }
}

/// A debug event.
pub open spec fn debug(time: u128, message: Seq<char>) -> EventView {
    EventView::Debug { time, message }
}

/// The debug event that reports how a signal to the helper went.
pub open spec fn outcome_message(outcome: FifoOutcome) -> Seq<char> {
    match outcome {
        FifoOutcome::Sent => "exitSignalSent"@,
        FifoOutcome::Failed => "exitSignalFailed"@,
        FifoOutcome::Missing => "fifoMissingForExit"@,
    }
}

/// The debug event that ends the loop after the commands have gone quiet,
/// where an exit is due.
pub open spec fn exit_notice(state: LoopState, now: u128, time: u128) -> Seq<EventView> {
    if exit_due(state, now) {
        seq![debug(time, "exitAfterQuiescence"@)]
    } else {
        Seq::empty()
    }
}

/// What a tick publishes.
pub open spec fn tick_events(state: LoopState, now: u128, time: u128) -> Seq<EventView> {
    (if state.pending_exit || state.pending_waitexit is Some {
        seq![
            debug(
                time,
                "emptinessCheck:"@ + decimal((idle(state, now) / NANOS_PER_MILLI) as nat) + "ms"@,
            ),
        ]
    } else {
        Seq::empty()
    }) + (if signal_due(state, now) {
        seq![debug(time, "signalingWaitexit"@)]
    } else {
        exit_notice(state, now, time)
    })
}

/// What a command publishes after the debug event that reports it.
pub open spec fn command_events(session: Session, command: CommandView, time: u128) -> Seq<EventView> {
    match command {
        CommandView::Input(_) => Seq::empty(),
        CommandView::Snapshot => seq![
            debug(time, "snapshotCommandReceived"@),
            session.snapshot_now(),
            debug(time, "snapshotCommandCompleted"@),
        ],
        CommandView::Resize(cols, rows) => seq![EventView::Resize { time, cols, rows }],
        CommandView::Debug(message) => seq![debug(time, message)],
        CommandView::Completed(_) => seq![
            EventView::Completed { time },
            debug(time, "commandCompletedReceived"@),
        ],
        CommandView::Exit => seq![
            debug(time, "exitCommandReceived"@),
            debug(time, "exitCommandQueued"@),
        ],
    }
}

/// What the session publishes in a turn, every event at `time`.
pub open spec fn turn_events(
    state: LoopState,
    session: Session,
    event: LoopEventView,
    now: u128,
    time: u128,
) -> Seq<EventView> {
    match event {
        LoopEventView::Output(Some(bytes)) => seq![
            debug(time, "outputReceived:"@ + decimal(bytes.len()) + "bytes"@),
            EventView::Output { time, seq: utf8_lossy(bytes) },
            debug(time, "outputProcessed"@),
        ],
        LoopEventView::Output(None) => seq![debug(time, "outputChannelClosed"@)],
        LoopEventView::Pid(Some(pid)) => seq![EventView::Pid { time, pid }],
        LoopEventView::Pid(None) => Seq::empty(),
        LoopEventView::ExitCode(Some(code)) => seq![EventView::ExitCode { time, code }],
        LoopEventView::ExitCode(None) => Seq::empty(),
        LoopEventView::Tick => tick_events(state, now, time),
        LoopEventView::FifoSignalled(outcome) => seq![debug(time, outcome_message(outcome))]
            + exit_notice(state, now, time),
        LoopEventView::Command(Some(command)) => seq![
            debug(time, "commandReceived:"@ + describe(command)),
        ] + command_events(session, command, time),
        LoopEventView::Command(None) => seq![debug(time, "commandChannelClosed"@)],
        LoopEventView::Client(true) => if state.serving {
            session.replay_now(time)
        } else {
            Seq::empty()
        },
        LoopEventView::Client(false) => Seq::empty(),
        LoopEventView::ApiClosed => if state.api_completed {
            Seq::empty()
        } else {
            seq![
                debug(time, "apiHandleClosed"@),
                debug(time, "apiClosedContinuingToProcessCommands"@),
            ]
        },
    }
}

/// What the terminal is fed in a turn.
pub open spec fn turn_feed(event: LoopEventView) -> Seq<char> {
    match event {
        LoopEventView::Output(Some(bytes)) => utf8_lossy(bytes),
        LoopEventView::Command(Some(CommandView::Resize(cols, rows))) => resize_sequence(
            cols as nat,
            rows as nat,
        ),
        _ => Seq::empty(),
    }
}

/// The PID that the session knows after a turn.
pub open spec fn turn_pid(pid: Option<i32>, event: LoopEventView) -> Option<i32> {
    match event {
        LoopEventView::Pid(Some(pid)) => Some(pid),
        _ => pid,
    }
}

/// The coordinator: the session and the state of the loop.
pub struct Coordinator {
    session: Session,
    serving: bool,
    last_command_time: u128,
    pending_waitexit: Option<String>,
    pending_exit: bool,
    api_completed: bool,
}

pub open spec fn path_view(path: Option<String>) -> Option<Seq<char>> {
    match path {
        Some(p) => Some(p@),
        None => None,
    }
}

impl Coordinator {
    /// The session.
    pub closed spec fn session(&self) -> Session {
        self.session
    }

    /// The state of the loop.
    pub closed spec fn state(&self) -> LoopState {
        LoopState {
            serving: self.serving,
            last_command_time: self.last_command_time,
            pending_waitexit: path_view(self.pending_waitexit),
            pending_exit: self.pending_exit,
            api_completed: self.api_completed,
        }
    }

    /// The session's record is in order.
    pub open spec fn wf(&self) -> bool {
        self.session().wf()
    }

    /// The time that the events of a turn at the clock reading `now` carry.
    pub open spec fn turn_time(&self, now: u128) -> u128 {
        later_of(now, self.session().clock())
    }

    /// `self` is what a turn with `event` at the clock reading `now` makes
    /// of `before`, and `action` is what the turn asks for.
    pub open spec fn handled(
        &self,
        before: &Coordinator,
        event: LoopEventView,
        now: u128,
        action: ActionView,
    ) -> bool {
        &&& before.wf() ==> self.wf()
        &&& self.state() == next_state(before.state(), event, now)
        &&& action == next_action(before.state(), event, now, before.session().app_mode())
        &&& self.session().follows(&before.session())
        &&& self.session().events() == before.session().events() + turn_events(
            before.state(),
            before.session(),
            event,
            now,
            before.turn_time(now),
        )
        &&& self.session().fed() == before.session().fed() + turn_feed(event)
        &&& self.session().pid() == turn_pid(before.session().pid(), event)
        &&& self.session().styled() == before.session().styled()
        &&& self.session().backlog() == before.session().backlog()
    }

    /// A coordinator for `session` that starts at the clock reading `now`:
    /// it takes clients, and nothing is pending.
    pub fn new_at(session: Session, now: u128) -> (coordinator: Coordinator)
        ensures
            coordinator.session() == session,
            coordinator.state() == (LoopState {
                serving: true,
                last_command_time: now,
                pending_waitexit: None,
                pending_exit: false,
                api_completed: false,
            }),
    {
        Coordinator {
            session,
            serving: true,
            last_command_time: now,
            pending_waitexit: None,
            pending_exit: false,
            api_completed: false,
        }
    }

    /// A coordinator for `session` that starts now.
    pub fn new(session: Session) -> (coordinator: Coordinator)
        ensures
            coordinator.session() == session,
            coordinator.state().serving,
            coordinator.state().pending_waitexit is None,
            !coordinator.state().pending_exit,
            !coordinator.state().api_completed,
    {
        let now = session.read_clock();
        Coordinator::new_at(session, now)
    }

    /// The session, to read.
    pub fn session_ref(&self) -> (session: &Session)
        ensures
            *session == self.session(),
    {
        &self.session
    }

    /// Whether clients are still taken: the loop waits on the clients
    /// channel only while they are.
    pub fn serving(&self) -> (serving: bool)
        ensures
            serving == self.state().serving,
    {
        self.serving
    }

    /// Whether the task that reads commands has ended: the loop waits on it
    /// only until it has.
    pub fn api_completed(&self) -> (completed: bool)
        ensures
            completed == self.state().api_completed,
    {
        self.api_completed
    }

    /// Whether an exit was asked for.
    pub fn pending_exit(&self) -> (pending: bool)
        ensures
            pending == self.state().pending_exit,
    {
        self.pending_exit
    }

    /// The nanoseconds since the session began, as the clock reports them
    /// now.
    pub fn read_clock(&self) -> u128 {
        self.session.read_clock()
    }

    fn idle_nanos(&self, now: u128) -> (nanos: u128)
        ensures
            nanos == idle(self.state(), now),
    {
        if now >= self.last_command_time {
            now - self.last_command_time
        } else {
            0
        }
    }

    fn debug_at(&mut self, message: &str, now: u128)
        ensures
            old(self).wf() ==> final(self).wf(),
            final(self).state() == old(self).state(),
            final(self).session().follows(&old(self).session()),
            final(self).turn_time(now) == old(self).turn_time(now),
            final(self).session().events() == old(self).session().events().push(
                debug(old(self).turn_time(now), message@),
            ),
            final(self).session().same_screen(&old(self).session()),
            final(self).session().same_settings(&old(self).session()),
    {
        self.session.emit_debug_event_at(message, now);
    }

    fn exit_check(&mut self, now: u128) -> (action: Action)
        ensures
            old(self).wf() ==> final(self).wf(),
            final(self).state() == old(self).state(),
            final(self).session().follows(&old(self).session()),
            final(self).turn_time(now) == old(self).turn_time(now),
            final(self).session().events() == old(self).session().events() + exit_notice(
                old(self).state(),
                now,
                old(self).turn_time(now),
            ),
            final(self).session().same_screen(&old(self).session()),
            final(self).session().same_settings(&old(self).session()),
            action@ == (if exit_due(old(self).state(), now) {
                ActionView::Stop
            } else {
                ActionView::Continue
            }),
    {
        if self.pending_exit && self.idle_nanos(now) >= QUIET_NANOS {
            self.debug_at("exitAfterQuiescence", now);
            assert(self.session().events() =~= old(self).session().events() + exit_notice(
                old(self).state(),
                now,
                old(self).turn_time(now),
            ));
            Action::Stop
        } else {
            assert(self.session().events() =~= old(self).session().events() + exit_notice(
                old(self).state(),
                now,
                old(self).turn_time(now),
            ));
            proof {
                lemma_follows_self(self.session());
            }
            Action::Continue
        }
    }

    fn on_output(&mut self, data: Option<Vec<u8>>, now: u128) -> (action: Action)
        ensures
            final(self).handled(
                old(self),
                LoopEventView::Output(
                    match data {
                        Some(bytes) => Some(bytes@),
                        None => None,
                    },
                ),
                now,
                action@,
            ),
    {
        let ghost time = self.turn_time(now);
        let ghost before = self.session().events();
        match data {
            Some(bytes) => {
                let mut notice = String::from_str("outputReceived:");
                push_decimal(&mut notice, bytes.len() as u128);
                notice.append("bytes");
                self.debug_at(notice.as_str(), now);
                let ghost mid = self.session();
                self.session.output_at(lossy_text(bytes.as_slice()), now);
                let ghost mid2 = self.session();
                self.debug_at("outputProcessed", now);
                proof {
                    lemma_follows_trans(old(self).session(), mid, mid2);
                    lemma_follows_trans(old(self).session(), mid2, self.session());
                    assert(notice@ =~= "outputReceived:"@ + decimal(bytes@.len()) + "bytes"@);
                    assert(self.session().events() =~= before + seq![
                        debug(time, "outputReceived:"@ + decimal(bytes@.len()) + "bytes"@),
                        EventView::Output { time, seq: utf8_lossy(bytes@) },
                        debug(time, "outputProcessed"@),
                    ]);
                }
                Action::Continue
            },
            None => {
                self.debug_at("outputChannelClosed", now);
                assert(self.session().events() =~= before + seq![debug(time, "outputChannelClosed"@)]);
                assert(self.session().fed() =~= old(self).session().fed() + Seq::<char>::empty());
                Action::Stop
            },
        }
    }

    fn on_pid(&mut self, pid: Option<i32>, now: u128) -> (action: Action)
        ensures
            final(self).handled(old(self), LoopEventView::Pid(pid), now, action@),
    {
        let ghost before = self.session().events();
        match pid {
            Some(pid) => {
                self.session.emit_pid_at(pid, now);
                assert(self.session().events() =~= before + seq![
                    EventView::Pid { time: old(self).turn_time(now), pid },
                ]);
            },
            None => {
                proof {
                    lemma_follows_self(self.session());
                }
                assert(self.session().events() =~= before + Seq::<EventView>::empty());
            },
        }
        assert(self.session().fed() =~= old(self).session().fed() + Seq::<char>::empty());
        Action::Continue
    }

    fn on_exit_code(&mut self, code: Option<i32>, now: u128) -> (action: Action)
        ensures
            final(self).handled(old(self), LoopEventView::ExitCode(code), now, action@),
    {
        let ghost before = self.session().events();
        match code {
            Some(code) => {
                self.session.emit_exit_code_at(code, now);
                assert(self.session().events() =~= before + seq![
                    EventView::ExitCode { time: old(self).turn_time(now), code },
                ]);
            },
            None => {
                proof {
                    lemma_follows_self(self.session());
                }
                assert(self.session().events() =~= before + Seq::<EventView>::empty());
            },
        }
        assert(self.session().fed() =~= old(self).session().fed() + Seq::<char>::empty());
        Action::Continue
    }

    fn on_tick(&mut self, now: u128) -> (action: Action)
        ensures
            final(self).handled(old(self), LoopEventView::Tick, now, action@),
    {
        let ghost time = self.turn_time(now);
        let ghost before = self.session().events();
        let ghost state = self.state();
        let idle_for = self.idle_nanos(now);
        if self.pending_exit || self.pending_waitexit.is_some() {
            let mut notice = String::from_str("emptinessCheck:");
            push_decimal(&mut notice, idle_for / NANOS_PER_MILLI);
            notice.append("ms");
            self.debug_at(notice.as_str(), now);
            assert(notice@ =~= "emptinessCheck:"@ + decimal((idle(state, now) / NANOS_PER_MILLI) as nat)
                + "ms"@);
        } else {
            proof {
                lemma_follows_self(self.session());
            }
        }
        let ghost mid = self.session();
        let due = self.pending_waitexit.is_some() && idle_for >= QUIET_NANOS;
        let action = if due {
            let path = self.pending_waitexit.take().unwrap();
            self.debug_at("signalingWaitexit", now);
            Action::SignalFifo(path)
        } else {
            self.exit_check(now)
        };
        proof {
            lemma_follows_trans(old(self).session(), mid, self.session());
            assert(self.session().events() =~= before + tick_events(state, now, time));
            assert(self.session().fed() =~= old(self).session().fed() + Seq::<char>::empty());
        }
        action
    }

    fn on_fifo_signalled(&mut self, outcome: FifoOutcome, now: u128) -> (action: Action)
        ensures
            final(self).handled(old(self), LoopEventView::FifoSignalled(outcome), now, action@),
    {
        let ghost time = self.turn_time(now);
        let ghost before = self.session().events();
        let ghost state = self.state();
        match outcome {
            FifoOutcome::Sent => self.debug_at("exitSignalSent", now),
            FifoOutcome::Failed => self.debug_at("exitSignalFailed", now),
            FifoOutcome::Missing => self.debug_at("fifoMissingForExit", now),
        }
        let ghost mid = self.session();
        let action = self.exit_check(now);
        proof {
            lemma_follows_trans(old(self).session(), mid, self.session());
            assert(self.session().events() =~= before + (seq![debug(time, outcome_message(outcome))]
                + exit_notice(state, now, time)));
            assert(self.session().fed() =~= old(self).session().fed() + Seq::<char>::empty());
        }
        action
    }

    fn on_api_closed(&mut self, now: u128) -> (action: Action)
        ensures
            final(self).handled(old(self), LoopEventView::ApiClosed, now, action@),
    {
        let ghost time = self.turn_time(now);
        let ghost before = self.session().events();
        if !self.api_completed {
            self.api_completed = true;
            self.debug_at("apiHandleClosed", now);
            let ghost mid = self.session();
            self.debug_at("apiClosedContinuingToProcessCommands", now);
            proof {
                lemma_follows_trans(old(self).session(), mid, self.session());
                assert(self.session().events() =~= before + seq![
                    debug(time, "apiHandleClosed"@),
                    debug(time, "apiClosedContinuingToProcessCommands"@),
                ]);
            }
        } else {
            proof {
                lemma_follows_self(self.session());
            }
            assert(self.session().events() =~= before + Seq::<EventView>::empty());
        }
        assert(self.session().fed() =~= old(self).session().fed() + Seq::<char>::empty());
        Action::Continue
    }

    fn on_client(&mut self, client: Option<Client>, now: u128) -> (action: Action)
        ensures
            final(self).handled(old(self), LoopEventView::Client(client is Some), now, action@),
    {
        let ghost before = self.session().events();
        match client {
            Some(client) => {
                if self.serving {
                    let subscription = self.session.subscribe_at(now);
                    client.accept(subscription);
                } else {
                    proof {
                        lemma_follows_self(self.session());
                    }
                    assert(self.session().events() =~= before + Seq::<EventView>::empty());
                }
            },
            None => {
                self.serving = false;
                proof {
                    lemma_follows_self(self.session());
                }
                assert(self.session().events() =~= before + Seq::<EventView>::empty());
            },
        }
        assert(self.session().fed() =~= old(self).session().fed() + Seq::<char>::empty());
        Action::Continue
    }

    fn on_command(&mut self, command: Option<Command>, now: u128) -> (action: Action)
        ensures
            final(self).handled(
                old(self),
                LoopEventView::Command(
                    match command {
                        Some(c) => Some(c@),
                        None => None,
                    },
                ),
                now,
                action@,
            ),
    {
        let ghost time = self.turn_time(now);
        let ghost before = self.session().events();
        let ghost start = self.session();
        self.last_command_time = now;
        match command {
            None => {
                self.debug_at("commandChannelClosed", now);
                assert(self.session().events() =~= before + seq![debug(time, "commandChannelClosed"@)]);
                assert(self.session().fed() =~= old(self).session().fed() + Seq::<char>::empty());
                Action::Stop
            },
            Some(command) => {
                let mut notice = String::from_str("commandReceived:");
                notice.append(command.describe().as_str());
                assert(notice@ =~= "commandReceived:"@ + describe(command@));
                self.debug_at(notice.as_str(), now);
                let ghost mid = self.session();
                let ghost head = seq![debug(time, "commandReceived:"@ + describe(command@))];
                assert(mid.events() =~= before + head);
                let action = match command {
                    Command::Input(seqs) => {
                        let app_mode = self.session.cursor_key_app_mode();
                        proof {
                            lemma_follows_self(self.session());
                        }
                        assert(self.session().fed() =~= start.fed() + Seq::<char>::empty());
                        Action::SendInput(seqs_to_bytes(&seqs, app_mode))
                    },
                    Command::Snapshot => {
                        self.debug_at("snapshotCommandReceived", now);
                        let ghost mid2 = self.session();
                        self.session.snapshot();
                        let ghost mid3 = self.session();
                        self.debug_at("snapshotCommandCompleted", now);
                        proof {
                            lemma_follows_trans(mid, mid2, mid3);
                            lemma_follows_trans(mid, mid3, self.session());
                            assert(mid2.snapshot_now() == start.snapshot_now());
                            assert(self.session().events() =~= mid.events() + seq![
                                debug(time, "snapshotCommandReceived"@),
                                start.snapshot_now(),
                                debug(time, "snapshotCommandCompleted"@),
                            ]);
                            assert(self.session().fed() =~= start.fed() + Seq::<char>::empty());
                        }
                        Action::Continue
                    },
                    Command::Resize(cols, rows) => {
                        self.session.resize_at(cols, rows, now);
                        assert(self.session().events() =~= mid.events() + seq![
                            EventView::Resize { time, cols, rows },
                        ]);
                        Action::Continue
                    },
                    Command::Debug(message) => {
                        self.debug_at(message.as_str(), now);
                        assert(self.session().events() =~= mid.events() + seq![debug(time, message@)]);
                        assert(self.session().fed() =~= start.fed() + Seq::<char>::empty());
                        Action::Continue
                    },
                    Command::Completed(path) => {
                        self.session.emit_command_completed_at(now);
                        let ghost mid2 = self.session();
                        self.pending_waitexit = Some(path);
                        self.debug_at("commandCompletedReceived", now);
                        proof {
                            lemma_follows_trans(mid, mid2, self.session());
                            assert(self.session().events() =~= mid.events() + seq![
                                EventView::Completed { time },
                                debug(time, "commandCompletedReceived"@),
                            ]);
                            assert(self.session().fed() =~= start.fed() + Seq::<char>::empty());
                        }
                        Action::Continue
                    },
                    Command::Exit => {
                        self.debug_at("exitCommandReceived", now);
                        let ghost mid2 = self.session();
                        self.pending_exit = true;
                        self.debug_at("exitCommandQueued", now);
                        proof {
                            lemma_follows_trans(mid, mid2, self.session());
                            assert(self.session().events() =~= mid.events() + seq![
                                debug(time, "exitCommandReceived"@),
                                debug(time, "exitCommandQueued"@),
                            ]);
                            assert(self.session().fed() =~= start.fed() + Seq::<char>::empty());
                        }
                        Action::Continue
                    },
                };
                proof {
                    lemma_follows_trans(start, mid, self.session());
                    assert(self.session().events() =~= before + (head + command_events(
                        start,
                        command@,
                        time,
                    )));
                }
                action
            },
        }
    }

    /// One turn of the loop at the clock reading `now`.
    pub fn handle(&mut self, event: LoopEvent, now: u128) -> (action: Action)
        ensures
            final(self).handled(old(self), event@, now, action@),
    {
        match event {
            LoopEvent::Output(data) => self.on_output(data, now),
            LoopEvent::Pid(pid) => self.on_pid(pid, now),
            LoopEvent::ExitCode(code) => self.on_exit_code(code, now),
            LoopEvent::Tick => self.on_tick(now),
            LoopEvent::FifoSignalled(outcome) => self.on_fifo_signalled(outcome, now),
            LoopEvent::Command(command) => self.on_command(command, now),
            LoopEvent::Client(client) => self.on_client(client, now),
            LoopEvent::ApiClosed => self.on_api_closed(now),
        }
    }

    /// One turn of the loop, now. Whatever the clock says, the turn is the
    /// one that `handle` makes for some reading of it.
    pub fn step(&mut self, event: LoopEvent) -> (action: Action)
        ensures
            exists|now: u128| final(self).handled(old(self), event@, now, action@),
    {
        let now = self.session.read_clock();
        self.handle(event, now)
    }
}

/// One turn of a run: what happened, and the clock reading at which it was
/// handled.
pub struct Turn {
    pub event: LoopEventView,
    pub now: u128,
}

/// The state of the loop after the first `n` turns of a run.
pub open spec fn state_after(start: LoopState, turns: Seq<Turn>, n: int) -> LoopState
    decreases n,
{
    if n <= 0 {
        start
    } else {
        next_state(state_after(start, turns, n - 1), turns[n - 1].event, turns[n - 1].now)
    }
}

/// The clock readings of the first `n` turns never go back.
pub open spec fn clock_never_goes_back(turns: Seq<Turn>, n: int) -> bool {
    forall|i: int, j: int| 0 <= i <= j < n ==> (#[trigger] turns[i]).now <= (#[trigger] turns[j]).now
}

/// The turn is one in which the command channel gave something.
pub open spec fn is_command_turn(turn: Turn) -> bool {
    turn.event is Command
}

/// The turn is one in which the command channel gave `Exit`.
pub open spec fn is_exit_turn(turn: Turn) -> bool {
    turn.event == LoopEventView::Command(Some(CommandView::Exit))
}

proof fn lemma_state_after(start: LoopState, turns: Seq<Turn>, n: int)
    requires
        0 <= n <= turns.len(),
        clock_never_goes_back(turns, n),
        !start.pending_exit,
    ensures
        forall|i: int|
            0 <= i < n && is_command_turn(#[trigger] turns[i]) ==> turns[i].now <= state_after(
                start,
                turns,
                n,
            ).last_command_time,
        state_after(start, turns, n).pending_exit ==> exists|j: int|
            0 <= j < n && is_exit_turn(#[trigger] turns[j]),
    decreases n,
{
    if n > 0 {
        lemma_state_after(start, turns, n - 1);
        let before = state_after(start, turns, n - 1);
        let after = state_after(start, turns, n);
        let last = turns[n - 1];
        assert forall|i: int| 0 <= i < n && is_command_turn(#[trigger] turns[i]) implies turns[i].now
            <= after.last_command_time by {
            if is_command_turn(last) {
                assert(after.last_command_time == last.now);
                assert(turns[i].now <= turns[n - 1].now);
            } else {
                assert(after.last_command_time == before.last_command_time);
            }
        }
        if after.pending_exit {
            if before.pending_exit {
                let j = choose|j: int| 0 <= j < n - 1 && is_exit_turn(#[trigger] turns[j]);
                assert(is_exit_turn(turns[j]));
            } else {
                assert(is_exit_turn(turns[n - 1]));
            }
        }
    }
}

/// The loop does not leave on `Exit` itself. In a run whose clock never goes
/// back and that starts with no exit pending, a tick (or the report of a
/// signal) that ends the loop comes after an `Exit` command, and at least
/// 200 ms after every turn in which the command channel gave anything: all
/// of those turns were handled before, and none was cut short.
pub proof fn lemma_exit_waits_for_quiet(start: LoopState, turns: Seq<Turn>, k: int, app_mode: bool)
    requires
        0 <= k < turns.len(),
        clock_never_goes_back(turns, k + 1),
        !start.pending_exit,
        turns[k].event is Tick || turns[k].event is FifoSignalled,
        next_action(state_after(start, turns, k), turns[k].event, turns[k].now, app_mode)
            == ActionView::Stop,
    ensures
        exists|j: int| 0 <= j < k && is_exit_turn(#[trigger] turns[j]),
        forall|i: int|
            0 <= i < k && is_command_turn(#[trigger] turns[i]) ==> turns[i].now + QUIET_NANOS
                <= turns[k].now,
{
    lemma_state_after(start, turns, k);
    let state = state_after(start, turns, k);
    assert(exit_due(state, turns[k].now));
    assert forall|i: int| 0 <= i < k && is_command_turn(#[trigger] turns[i]) implies turns[i].now
        + QUIET_NANOS <= turns[k].now by {
        assert(turns[i].now <= state.last_command_time);
    }
}

/// Once an exit is pending, the first tick that finds the commands quiet
/// for 200 ms, with no helper left to signal, ends the loop.
pub proof fn lemma_quiet_tick_stops(state: LoopState, now: u128, app_mode: bool)
    requires
        state.pending_exit,
        state.pending_waitexit is None,
        now >= state.last_command_time + QUIET_NANOS,
    ensures
        next_action(state, LoopEventView::Tick, now, app_mode) == ActionView::Stop,
{
}

/// A run of the loop: the coordinator before the first turn and after each
/// turn, the turns, and the action that each turn asked for.
pub open spec fn is_run(states: Seq<Coordinator>, turns: Seq<Turn>, actions: Seq<ActionView>) -> bool {
    &&& states.len() == turns.len() + 1
    &&& actions.len() == turns.len()
    &&& forall|i: int|
        0 <= i < turns.len() ==> states[i + 1].handled(
            &states[i],
            (#[trigger] turns[i]).event,
            turns[i].now,
            actions[i],
        )
}

/// What turn `i` of a run published.
pub open spec fn published_in(states: Seq<Coordinator>, turns: Seq<Turn>, i: int) -> Seq<EventView> {
    turn_events(
        states[i].state(),
        states[i].session(),
        turns[i].event,
        turns[i].now,
        states[i].turn_time(turns[i].now),
    )
}

/// In a run the session only ever goes forward: what was published stays
/// where it is in the record, and what comes later is not stamped earlier.
pub proof fn lemma_run_follows(
    states: Seq<Coordinator>,
    turns: Seq<Turn>,
    actions: Seq<ActionView>,
    i: int,
    j: int,
)
    requires
        is_run(states, turns, actions),
        0 <= i <= j <= turns.len(),
    ensures
        states[j].session().follows(&states[i].session()),
    decreases j - i,
{
    if i == j {
        lemma_follows_self(states[i].session());
    } else {
        lemma_run_follows(states, turns, actions, i, j - 1);
        assert(states[j].handled(&states[j - 1], turns[j - 1].event, turns[j - 1].now, actions[j - 1]));
        lemma_follows_trans(states[i].session(), states[j - 1].session(), states[j].session());
    }
}

/// The state of the loop in a run is the one that the turns make of the
/// state at its start.
pub proof fn lemma_run_state(
    states: Seq<Coordinator>,
    turns: Seq<Turn>,
    actions: Seq<ActionView>,
    n: int,
)
    requires
        is_run(states, turns, actions),
        0 <= n <= turns.len(),
    ensures
        states[n].state() == state_after(states[0].state(), turns, n),
    decreases n,
{
    if n > 0 {
        lemma_run_state(states, turns, actions, n - 1);
        assert(states[n].handled(&states[n - 1], turns[n - 1].event, turns[n - 1].now, actions[n - 1]));
    }
}

/// Every turn of a run leaves what it published in the record, as one
/// piece, and the pieces lie in the order of the turns: at any later point
/// of the run, the piece of turn `i` starts where the record ended before
/// the turn and ends where it ended after it.
pub proof fn lemma_run_records_every_turn(
    states: Seq<Coordinator>,
    turns: Seq<Turn>,
    actions: Seq<ActionView>,
    i: int,
    n: int,
)
    requires
        is_run(states, turns, actions),
        0 <= i < n <= turns.len(),
    ensures
        states[i].session().events().len() <= states[i + 1].session().events().len()
            <= states[n].session().events().len(),
        states[n].session().events().subrange(
            states[i].session().events().len() as int,
            states[i + 1].session().events().len() as int,
        ) == published_in(states, turns, i),
{
    let before = states[i].session().events();
    let after = states[i + 1].session().events();
    let record = states[n].session().events();
    assert(states[i + 1].handled(&states[i], turns[i].event, turns[i].now, actions[i]));
    lemma_run_follows(states, turns, actions, i + 1, n);
    assert(record.subrange(0, after.len() as int) == after);
    assert(record.subrange(before.len() as int, after.len() as int) =~= published_in(states, turns, i)) by {
        assert forall|k: int| 0 <= k < after.len() - before.len() implies record[before.len() + k]
            == published_in(states, turns, i)[k] by {
            assert(record.subrange(0, after.len() as int)[before.len() + k] == after[before.len() + k]);
        }
    }
}

/// The loop leaves on a pending exit only when every command has been
/// handled and the commands have gone quiet. In a run whose clock never
/// goes back and that starts with no exit pending, let a tick (or the
/// report of a signal) at turn `k` end the loop. Then `Exit` was among the
/// commands before, and every turn `i` before `k` in which the command
/// channel gave anything lies at least 200 ms back and has all that it
/// published in the record, before anything of turn `k`.
pub proof fn lemma_exit_after_every_command(
    states: Seq<Coordinator>,
    turns: Seq<Turn>,
    actions: Seq<ActionView>,
    k: int,
    i: int,
)
    requires
        is_run(states, turns, actions),
        0 <= i < k < turns.len(),
        clock_never_goes_back(turns, k + 1),
        !states[0].state().pending_exit,
        turns[k].event is Tick || turns[k].event is FifoSignalled,
        actions[k] == ActionView::Stop,
        is_command_turn(turns[i]),
    ensures
        exists|j: int| 0 <= j < k && is_exit_turn(#[trigger] turns[j]),
        turns[i].now + QUIET_NANOS <= turns[k].now,
        states[i + 1].session().events().len() <= states[k].session().events().len(),
        states[k + 1].session().events().subrange(
            states[i].session().events().len() as int,
            states[i + 1].session().events().len() as int,
        ) == published_in(states, turns, i),
{
    lemma_run_state(states, turns, actions, k);
    assert(states[k + 1].handled(&states[k], turns[k].event, turns[k].now, actions[k]));
    lemma_exit_waits_for_quiet(states[0].state(), turns, k, states[k].session().app_mode());
    lemma_run_records_every_turn(states, turns, actions, i, k + 1);
    lemma_run_records_every_turn(states, turns, actions, i, k);
}

/// What the child wrote is published before its exit code. If in a run the
/// output channel gave `bytes` at turn `i` and the exit code channel gave
/// `code` at a later turn `j`, then from turn `j` on the record holds the
/// `Output` event with the text of `bytes` at an earlier place than the
/// `ExitCode` event with `code`, which stands behind everything that was
/// published before its turn.
pub proof fn lemma_output_before_exit_code(
    states: Seq<Coordinator>,
    turns: Seq<Turn>,
    actions: Seq<ActionView>,
    i: int,
    j: int,
    n: int,
    bytes: Seq<u8>,
    code: i32,
)
    requires
        is_run(states, turns, actions),
        0 <= i < j < n <= turns.len(),
        turns[i].event == LoopEventView::Output(Some(bytes)),
        turns[j].event == LoopEventView::ExitCode(Some(code)),
    ensures
        ({
            let record = states[n].session().events();
            let p = states[i].session().events().len() as int + 1;
            let q = states[j].session().events().len() as int;
            &&& p < q < record.len()
            &&& record[p] == (EventView::Output {
                time: states[i].turn_time(turns[i].now),
                seq: utf8_lossy(bytes),
            })
            &&& record[q] == (EventView::ExitCode { time: states[j].turn_time(turns[j].now), code })
        }),
{
    let record = states[n].session().events();
    let a = states[i].session().events().len() as int;
    let b = states[i + 1].session().events().len() as int;
    let q = states[j].session().events().len() as int;
    let r = states[j + 1].session().events().len() as int;
    lemma_run_records_every_turn(states, turns, actions, i, n);
    lemma_run_records_every_turn(states, turns, actions, j, n);
    lemma_run_follows(states, turns, actions, i + 1, j);
    assert(published_in(states, turns, i).len() == 3);
    assert(published_in(states, turns, j).len() == 1);
    assert(record.subrange(a, b)[1] == record[a + 1]);
    assert(record.subrange(q, r)[0] == record[q]);
}

} // verus!
