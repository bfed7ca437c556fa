//! The session: the virtual terminal, the clock of the event stream, and the
//! bus on which every event is published.

use crate::bus::{bus_backlog, bus_open, bus_send, bus_sent, bus_subscribe, oneshot_send, receiver_start};
use crate::cli::StyleMode;
use crate::clock::{instant_now, nanos_since};
use crate::style::{grid_view, style_of, StyleData, StyleView};
use crate::text::{decimal, join_lines, joined, push_decimal};
use crate::vt::{
    vt_app_mode, vt_build, vt_dump, vt_fed, vt_feed_str, vt_get_app_mode, vt_get_dump, vt_get_grid,
    vt_get_size, vt_get_text, vt_grid, vt_size, vt_text, Cell,
};
use std::time::Instant;
use tokio::sync::broadcast::{Receiver, Sender};
use vstd::prelude::*;

verus! {

/// How many events the bus keeps for a subscriber that has fallen behind.
pub const BROADCAST_BACKLOG: usize = 1024;

/// An event of the session. Times are nanoseconds since the session began.
#[derive(Clone, Debug, PartialEq)]
pub enum Event {
    /// time, cols, rows, pid, dump, text, style data
    Init(u128, usize, usize, i32, String, String, Option<StyleData>),
    /// time, the text that the child wrote
    Output(u128, String),
    /// time, cols, rows
    Resize(u128, usize, usize),
    /// cols, rows, dump, text, style data
    Snapshot(usize, usize, String, String, Option<StyleData>),
    /// time, pid
    Pid(u128, i32),
    /// time, exit code
    ExitCode(u128, i32),
    /// time, message
    Debug(u128, String),
    /// time
    Completed(u128),
}

/// What an `Event` holds.
pub enum EventView {
    Init { time: u128, cols: usize, rows: usize, pid: i32, seq: Seq<char>, text: Seq<char>, style: Option<StyleView> },
    Output { time: u128, seq: Seq<char> },
    Resize { time: u128, cols: usize, rows: usize },
    Snapshot { cols: usize, rows: usize, seq: Seq<char>, text: Seq<char>, style: Option<StyleView> },
    Pid { time: u128, pid: i32 },
    ExitCode { time: u128, code: i32 },
    Debug { time: u128, message: Seq<char> },
    Completed { time: u128 },
}

pub open spec fn style_view(style: Option<StyleData>) -> Option<StyleView> {
    match style {
        Some(data) => Some(data@),
        None => None,
    }
}

impl View for Event {
    type V = EventView;

    open spec fn view(&self) -> EventView {
        match *self {
            Event::Init(time, cols, rows, pid, seq, text, style) => EventView::Init {
                time,
                cols,
                rows,
                pid,
                seq: seq@,
                text: text@,
                style: style_view(style),
            },
            Event::Output(time, seq) => EventView::Output { time, seq: seq@ },
            Event::Resize(time, cols, rows) => EventView::Resize { time, cols, rows },
            Event::Snapshot(cols, rows, seq, text, style) => EventView::Snapshot {
                cols,
                rows,
                seq: seq@,
                text: text@,
                style: style_view(style),
            },
            Event::Pid(time, pid) => EventView::Pid { time, pid },
            Event::ExitCode(time, code) => EventView::ExitCode { time, code },
            Event::Debug(time, message) => EventView::Debug { time, message: message@ },
            Event::Completed(time) => EventView::Completed { time },
        }
    }
}

impl EventView {
    /// The time that the event carries; a snapshot carries none.
    pub open spec fn stamp(self) -> Option<u128> {
        match self {
            EventView::Init { time, .. } => Some(time),
            EventView::Output { time, .. } => Some(time),
            EventView::Resize { time, .. } => Some(time),
            EventView::Snapshot { .. } => None,
            EventView::Pid { time, .. } => Some(time),
            EventView::ExitCode { time, .. } => Some(time),
            EventView::Debug { time, .. } => Some(time),
            EventView::Completed { time } => Some(time),
        }
    }

    /// The event carries no time, or one that is at least `floor`.
    pub open spec fn not_before(self, floor: u128) -> bool {
        self.stamp() matches Some(t) ==> t >= floor
    }

    /// The event carries no time, or one that is at most `ceiling`.
    pub open spec fn not_after(self, ceiling: u128) -> bool {
        self.stamp() matches Some(t) ==> t <= ceiling
    }
}

/// No event carries a time above `now`, and no event carries a time below
/// that of an event before it.
pub open spec fn stamps_in_order(events: Seq<EventView>, now: u128) -> bool {
    &&& forall|i: int| 0 <= i < events.len() ==> (#[trigger] events[i]).not_after(now)
    &&& forall|i: int, j: int|
        0 <= i < j < events.len() ==> match ((#[trigger] events[i]).stamp(), (#[trigger] events[j]).stamp()) {
            (Some(a), Some(b)) => a <= b,
            _ => true,
        }
}

/// The later of a reading of the clock and the time of the last event.
pub open spec fn later_of(now: u128, last: u128) -> u128 {
    if now >= last {
        now
    } else {
        last
    }
}

/// The sequence that asks the terminal for `cols` by `rows`:
/// `ESC [ 8 ; rows ; cols t`.
pub open spec fn resize_sequence(cols: nat, rows: nat) -> Seq<char> {
    seq!['\x1b', '[', '8', ';'] + decimal(rows) + seq![';'] + decimal(cols) + seq!['t']
}

/// The sequence that asks the terminal for `cols` by `rows`.
pub fn resize_request(cols: usize, rows: usize) -> (request: String)
    ensures
        request@ == resize_sequence(cols as nat, rows as nat),
{
    proof {
        reveal_strlit("\x1b[8;");
        reveal_strlit(";");
        reveal_strlit("t");
    }
    let mut request = String::from_str("\x1b[8;");
    assert(request@ =~= seq!['\x1b', '[', '8', ';']);
    push_decimal(&mut request, rows as u128);
    request.append(";");
    push_decimal(&mut request, cols as u128);
    request.append("t");
    assert(request@ =~= resize_sequence(cols as nat, rows as nat));
    request
}

/// The session.
pub struct Session {
    vt: avt::Vt,
    broadcast_tx: Sender<Event>,
    start_time: Instant,
    last_event_time: u128,
    pending_pid: Option<i32>,
    style_mode: StyleMode,
}

/// What a new subscriber starts from: the `Init` event, and the receiver of
/// what the bus carries from then on.
pub struct Subscription {
    pub init: Event,
    pub broadcast_rx: Receiver<Event>,
}

/// A client that waits for its subscription.
pub struct Client(pub tokio::sync::oneshot::Sender<Subscription>);

impl Subscription {
    /// The number of the first event of the session that the receiver is
    /// offered.
    pub closed spec fn start(&self) -> nat {
        receiver_start(self.broadcast_rx)
    }
}

impl Client {
    /// Hands the subscription to the client. A client that has gone away is
    /// not an error.
    pub fn accept(self, subscription: Subscription) {
        oneshot_send(self.0, subscription);
    }
}

impl Session {
    /// Every event published so far, oldest first.
    pub closed spec fn events(&self) -> Seq<EventView> {
        bus_sent(self.broadcast_tx)
    }

    /// The backlog of the bus.
    pub closed spec fn backlog(&self) -> nat {
        bus_backlog(self.broadcast_tx)
    }

    /// Everything fed to the terminal so far.
    pub closed spec fn fed(&self) -> Seq<char> {
        vt_fed(self.vt)
    }

    /// The size of the terminal, `(cols, rows)`.
    pub closed spec fn size(&self) -> (usize, usize) {
        vt_size(self.vt)
    }

    /// The cells that the terminal shows.
    pub closed spec fn grid(&self) -> Seq<Seq<Cell>> {
        vt_grid(self.vt)
    }

    /// The text of each line that the terminal shows.
    pub closed spec fn lines(&self) -> Seq<Seq<char>> {
        vt_text(self.vt)
    }

    /// The dump of the terminal.
    pub closed spec fn dump(&self) -> Seq<char> {
        vt_dump(self.vt)
    }

    /// Whether the terminal has its cursor keys in application mode.
    pub closed spec fn app_mode(&self) -> bool {
        vt_app_mode(self.vt)
    }

    /// The time of the last event, in nanoseconds since the session began.
    pub closed spec fn clock(&self) -> u128 {
        self.last_event_time
    }

    /// The PID of the child, once known.
    pub closed spec fn pid(&self) -> Option<i32> {
        self.pending_pid
    }

    /// Whether snapshots carry style data.
    pub closed spec fn styled(&self) -> bool {
        self.style_mode == StyleMode::Styled
    }

    /// The times of the published events never go back, and none is ahead
    /// of the session's clock.
    pub open spec fn wf(&self) -> bool {
        stamps_in_order(self.events(), self.clock())
    }

    /// The terminal and the settings are those of `earlier`.
    pub open spec fn same_screen(&self, earlier: &Session) -> bool {
        &&& self.fed() == earlier.fed()
        &&& self.size() == earlier.size()
        &&& self.grid() == earlier.grid()
        &&& self.lines() == earlier.lines()
        &&& self.dump() == earlier.dump()
        &&& self.app_mode() == earlier.app_mode()
    }

    /// The PID, the style mode and the backlog are those of `earlier`.
    pub open spec fn same_settings(&self, earlier: &Session) -> bool {
        &&& self.pid() == earlier.pid()
        &&& self.styled() == earlier.styled()
        &&& self.backlog() == earlier.backlog()
    }

    /// A session with a terminal of `cols` by `rows`, in plain mode, with
    /// nothing published.
    pub fn new(cols: usize, rows: usize) -> (session: Session)
        requires
            cols > 0,
            rows > 0,
        ensures
            session.wf(),
            session.events() == Seq::<EventView>::empty(),
            session.backlog() == BROADCAST_BACKLOG,
            session.fed() == Seq::<char>::empty(),
            session.size() == (cols, rows),
            session.clock() == 0,
            session.pid() is None,
            !session.styled(),
    {
        Session {
            vt: vt_build(cols, rows),
            broadcast_tx: bus_open(BROADCAST_BACKLOG),
            start_time: instant_now(),
            last_event_time: 0,
            pending_pid: None,
            style_mode: StyleMode::Plain,
        }
    }

    /// The text of the screen: its lines with a line feed between each two.
    pub open spec fn text_view(&self) -> Seq<char> {
        joined(self.lines(), self.lines().len() as int)
    }

    /// The style data that a snapshot taken now carries: none in plain mode.
    pub open spec fn style_now(&self) -> Option<StyleView> {
        if self.styled() {
            Some(style_of(self.grid(), self.size().0 as nat, self.size().1 as nat))
        } else {
            None
        }
    }

    /// `self` is `earlier` after some more events: those of `earlier` still
    /// come first, and every other carries a time that is not before the
    /// clock of `earlier`.
    pub open spec fn follows(&self, earlier: &Session) -> bool {
        &&& earlier.events().len() <= self.events().len()
        &&& self.events().subrange(0, earlier.events().len() as int) == earlier.events()
        &&& self.clock() >= earlier.clock()
        &&& forall|i: int|
            earlier.events().len() <= i < self.events().len() ==> (#[trigger] self.events()[i]).not_before(
                earlier.clock(),
            )
    }

    fn stamp(&self, now: u128) -> (time: u128)
        ensures
            time == later_of(now, self.clock()),
    {
        if now >= self.last_event_time {
            now
        } else {
            self.last_event_time
        }
    }

    /// The nanoseconds since the session began, as the clock reports them
    /// now.
    pub fn read_clock(&self) -> u128 {
        nanos_since(&self.start_time)
    }

    fn publish(&mut self, event: Event, time: u128)
        requires
            time >= old(self).clock(),
            event@.not_before(old(self).clock()),
            event@.not_after(time),
        ensures
            old(self).wf() ==> final(self).wf(),
            final(self).follows(old(self)),
            final(self).clock() == time,
            final(self).events() == old(self).events().push(event@),
            final(self).same_screen(old(self)),
            final(self).same_settings(old(self)),
    {
        let ghost before = self.events();
        bus_send(&mut self.broadcast_tx, event);
        self.last_event_time = time;
        proof {
            if old(self).wf() {
                lemma_push_in_order(before, old(self).clock(), event@, time);
            }
            assert(self.events().subrange(0, before.len() as int) =~= before);
        }
    }

    fn screen_text(&self) -> (text: String)
        ensures
            text@ == self.text_view(),
    {
        let lines = vt_get_text(&self.vt);
        join_lines(&lines)
    }

    fn screen_style(&self, cols: usize, rows: usize) -> (style: Option<StyleData>)
        requires
            self.size() == (cols, rows),
        ensures
            style_view(style) == self.style_now(),
    {
        match self.style_mode {
            StyleMode::Styled => {
                let grid = vt_get_grid(&self.vt);
                Some(StyleData::build(&grid, cols, rows))
            },
            StyleMode::Plain => None,
        }
    }

    /// The child wrote `data` at the clock reading `now`: the terminal is fed
    /// with it, and an `Output` event is published.
    pub fn output_at(&mut self, data: String, now: u128)
        ensures
            old(self).wf() ==> final(self).wf(),
            final(self).follows(old(self)),
            final(self).clock() == later_of(now, old(self).clock()),
            final(self).events() == old(self).events().push(
                EventView::Output { time: final(self).clock(), seq: data@ },
            ),
            final(self).fed() == old(self).fed() + data@,
            final(self).same_settings(old(self)),
    {
        vt_feed_str(&mut self.vt, data.as_str());
        let time = self.stamp(now);
        self.publish(Event::Output(time, data), time);
    }

    /// The child wrote `data`: the terminal is fed with it, and an `Output`
    /// event with the present time is published.
    pub fn output(&mut self, data: String)
        ensures
            old(self).wf() ==> final(self).wf(),
            final(self).follows(old(self)),
            final(self).events() == old(self).events().push(
                EventView::Output { time: final(self).clock(), seq: data@ },
            ),
            final(self).fed() == old(self).fed() + data@,
            final(self).same_settings(old(self)),
    {
        let now = self.read_clock();
        self.output_at(data, now);
    }

    /// Asks the terminal for a new size, by feeding it the resize sequence,
    /// and publishes a `Resize` event.
    pub fn resize_at(&mut self, cols: usize, rows: usize, now: u128)
        ensures
            old(self).wf() ==> final(self).wf(),
            final(self).follows(old(self)),
            final(self).clock() == later_of(now, old(self).clock()),
            final(self).events() == old(self).events().push(
                EventView::Resize { time: final(self).clock(), cols, rows },
            ),
            final(self).fed() == old(self).fed() + resize_sequence(cols as nat, rows as nat),
            final(self).same_settings(old(self)),
    {
        let request = resize_request(cols, rows);
        vt_feed_str(&mut self.vt, request.as_str());
        let time = self.stamp(now);
        self.publish(Event::Resize(time, cols, rows), time);
    }

    /// Asks the terminal for a new size and publishes a `Resize` event with
    /// the present time.
    pub fn resize(&mut self, cols: usize, rows: usize)
        ensures
            old(self).wf() ==> final(self).wf(),
            final(self).follows(old(self)),
            final(self).events() == old(self).events().push(
                EventView::Resize { time: final(self).clock(), cols, rows },
            ),
            final(self).fed() == old(self).fed() + resize_sequence(cols as nat, rows as nat),
            final(self).same_settings(old(self)),
    {
        let now = self.read_clock();
        self.resize_at(cols, rows, now);
    }

    /// The `Snapshot` event of the screen as it is now.
    pub open spec fn snapshot_now(&self) -> EventView {
        EventView::Snapshot {
            cols: self.size().0,
            rows: self.size().1,
            seq: self.dump(),
            text: self.text_view(),
            style: self.style_now(),
        }
    }

    /// Publishes a `Snapshot` event of the screen as it is now. Nothing else
    /// changes.
    pub fn snapshot(&mut self)
        ensures
            old(self).wf() ==> final(self).wf(),
            final(self).follows(old(self)),
            final(self).clock() == old(self).clock(),
            final(self).events() == old(self).events().push(old(self).snapshot_now()),
            final(self).same_screen(old(self)),
            final(self).same_settings(old(self)),
    {
        let (cols, rows) = vt_get_size(&self.vt);
        let style = self.screen_style(cols, rows);
        let event = Event::Snapshot(cols, rows, vt_get_dump(&self.vt), self.screen_text(), style);
        let time = self.last_event_time;
        self.publish(event, time);
    }

    /// The PID of the child is known at the clock reading `now`: it is kept
    /// for later subscribers, and a `Pid` event is published.
    pub fn emit_pid_at(&mut self, pid: i32, now: u128)
        ensures
            old(self).wf() ==> final(self).wf(),
            final(self).follows(old(self)),
            final(self).clock() == later_of(now, old(self).clock()),
            final(self).events() == old(self).events().push(
                EventView::Pid { time: final(self).clock(), pid },
            ),
            final(self).pid() == Some(pid),
            final(self).styled() == old(self).styled(),
            final(self).backlog() == old(self).backlog(),
            final(self).same_screen(old(self)),
    {
        self.pending_pid = Some(pid);
        let time = self.stamp(now);
        self.publish(Event::Pid(time, pid), time);
    }

    /// The PID of the child is known: it is kept for later subscribers, and a
    /// `Pid` event with the present time is published.
    pub fn emit_pid(&mut self, pid: i32)
        ensures
            old(self).wf() ==> final(self).wf(),
            final(self).follows(old(self)),
            final(self).events() == old(self).events().push(
                EventView::Pid { time: final(self).clock(), pid },
            ),
            final(self).pid() == Some(pid),
            final(self).styled() == old(self).styled(),
            final(self).backlog() == old(self).backlog(),
            final(self).same_screen(old(self)),
    {
        let now = self.read_clock();
        self.emit_pid_at(pid, now);
    }

    /// Publishes an `ExitCode` event for the clock reading `now`.
    pub fn emit_exit_code_at(&mut self, exit_code: i32, now: u128)
        ensures
            old(self).wf() ==> final(self).wf(),
            final(self).follows(old(self)),
            final(self).clock() == later_of(now, old(self).clock()),
            final(self).events() == old(self).events().push(
                EventView::ExitCode { time: final(self).clock(), code: exit_code },
            ),
            final(self).same_screen(old(self)),
            final(self).same_settings(old(self)),
    {
        let time = self.stamp(now);
        self.publish(Event::ExitCode(time, exit_code), time);
    }

    /// Publishes an `ExitCode` event with the present time.
    pub fn emit_exit_code(&mut self, exit_code: i32)
        ensures
            old(self).wf() ==> final(self).wf(),
            final(self).follows(old(self)),
            final(self).events() == old(self).events().push(
                EventView::ExitCode { time: final(self).clock(), code: exit_code },
            ),
            final(self).same_screen(old(self)),
            final(self).same_settings(old(self)),
    {
        let now = self.read_clock();
        self.emit_exit_code_at(exit_code, now);
    }

    /// Publishes a `Completed` event for the clock reading `now`.
    pub fn emit_command_completed_at(&mut self, now: u128)
        ensures
            old(self).wf() ==> final(self).wf(),
            final(self).follows(old(self)),
            final(self).clock() == later_of(now, old(self).clock()),
            final(self).events() == old(self).events().push(
                EventView::Completed { time: final(self).clock() },
            ),
            final(self).same_screen(old(self)),
            final(self).same_settings(old(self)),
    {
        let time = self.stamp(now);
        self.publish(Event::Completed(time), time);
    }

    /// Publishes a `Completed` event with the present time.
    pub fn emit_command_completed(&mut self)
        ensures
            old(self).wf() ==> final(self).wf(),
            final(self).follows(old(self)),
            final(self).events() == old(self).events().push(
                EventView::Completed { time: final(self).clock() },
            ),
            final(self).same_screen(old(self)),
            final(self).same_settings(old(self)),
    {
        let now = self.read_clock();
        self.emit_command_completed_at(now);
    }

    /// Publishes a `Debug` event for the clock reading `now`.
    pub fn emit_debug_event_at(&mut self, message: &str, now: u128)
        ensures
            old(self).wf() ==> final(self).wf(),
            final(self).follows(old(self)),
            final(self).clock() == later_of(now, old(self).clock()),
            final(self).events() == old(self).events().push(
                EventView::Debug { time: final(self).clock(), message: message@ },
            ),
            final(self).same_screen(old(self)),
            final(self).same_settings(old(self)),
    {
        let time = self.stamp(now);
        self.publish(Event::Debug(time, String::from_str(message)), time);
    }

    /// Publishes a `Debug` event with the present time.
    pub fn emit_debug_event(&mut self, message: &str)
        ensures
            old(self).wf() ==> final(self).wf(),
            final(self).follows(old(self)),
            final(self).events() == old(self).events().push(
                EventView::Debug { time: final(self).clock(), message: message@ },
            ),
            final(self).same_screen(old(self)),
            final(self).same_settings(old(self)),
    {
        let now = self.read_clock();
        self.emit_debug_event_at(message, now);
    }

    /// Whether the terminal has its cursor keys in application mode.
    pub fn cursor_key_app_mode(&self) -> (on: bool)
        ensures
            on == self.app_mode(),
    {
        vt_get_app_mode(&self.vt)
    }

    /// The size of the terminal, `(cols, rows)`.
    pub fn terminal_size(&self) -> (size: (usize, usize))
        ensures
            size == self.size(),
    {
        vt_get_size(&self.vt)
    }

    /// The cells that the terminal shows, line by line.
    pub fn cells(&self) -> (grid: Vec<Vec<Cell>>)
        ensures
            grid_view(grid) == self.grid(),
    {
        vt_get_grid(&self.vt)
    }

    /// The text that the terminal shows: its lines with a line feed between
    /// each two.
    pub fn text(&self) -> (text: String)
        ensures
            text@ == self.text_view(),
    {
        self.screen_text()
    }

    /// The dump of the terminal: a sequence that brings a new terminal of
    /// the same size to what this one shows.
    pub fn dump_seq(&self) -> (seq: String)
        ensures
            seq@ == self.dump(),
    {
        vt_get_dump(&self.vt)
    }

    /// The PID of the child, once known.
    pub fn pending_pid(&self) -> (pid: Option<i32>)
        ensures
            pid == self.pid(),
    {
        self.pending_pid
    }

    /// Whether snapshots carry style data.
    pub fn style_mode(&self) -> (mode: StyleMode)
        ensures
            (mode == StyleMode::Styled) == self.styled(),
    {
        self.style_mode
    }

    /// Sets whether snapshots carry style data.
    pub fn set_style_mode(&mut self, style_mode: StyleMode)
        ensures
            final(self).styled() == (style_mode == StyleMode::Styled),
            final(self).events() == old(self).events(),
            final(self).clock() == old(self).clock(),
            final(self).pid() == old(self).pid(),
            final(self).backlog() == old(self).backlog(),
            final(self).same_screen(old(self)),
            old(self).wf() ==> final(self).wf(),
    {
        self.style_mode = style_mode;
    }

    /// The `Init` event of a subscription opened now, at time `time`.
    pub open spec fn init_now(&self, time: u128) -> EventView {
        EventView::Init {
            time,
            cols: self.size().0,
            rows: self.size().1,
            pid: match self.pid() {
                Some(pid) => pid,
                None => 0,
            },
            seq: self.dump(),
            text: self.text_view(),
            style: self.style_now(),
        }
    }

    /// The events that opening a subscription publishes: the PID once more,
    /// where it is known.
    pub open spec fn replay_now(&self, time: u128) -> Seq<EventView> {
        match self.pid() {
            Some(pid) => seq![EventView::Pid { time, pid }],
            None => Seq::empty(),
        }
    }

    /// Opens a subscription at the clock reading `now`. Its `Init` event
    /// shows the screen as it is; its receiver is offered every event
    /// published from now on, the first of them the PID, where it is known.
    pub fn subscribe_at(&mut self, now: u128) -> (subscription: Subscription)
        ensures
            old(self).wf() ==> final(self).wf(),
            final(self).follows(old(self)),
            final(self).clock() == later_of(now, old(self).clock()),
            subscription.init@ == old(self).init_now(final(self).clock()),
            subscription.start() == old(self).events().len(),
            final(self).events() == old(self).events() + old(self).replay_now(final(self).clock()),
            final(self).same_screen(old(self)),
            final(self).same_settings(old(self)),
    {
        let (cols, rows) = vt_get_size(&self.vt);
        let style = self.screen_style(cols, rows);
        let time = self.stamp(now);
        let pid = match self.pending_pid {
            Some(pid) => pid,
            None => 0,
        };
        let init = Event::Init(time, cols, rows, pid, vt_get_dump(&self.vt), self.screen_text(), style);
        let broadcast_rx = bus_subscribe(&self.broadcast_tx);
        match self.pending_pid {
            Some(pid) => {
                self.publish(Event::Pid(time, pid), time);
                assert(self.events() =~= old(self).events() + old(self).replay_now(time));
            },
            None => {
                proof {
                    if self.wf() {
                        lemma_in_order_later(self.events(), self.clock(), time);
                    }
                }
                self.last_event_time = time;
                assert(self.events() =~= old(self).events() + old(self).replay_now(time));
                assert(self.events().subrange(0, old(self).events().len() as int) =~= old(self).events());
            },
        }
        Subscription { init, broadcast_rx }
    }

    /// Opens a subscription at the present time.
    pub fn subscribe(&mut self) -> (subscription: Subscription)
        ensures
            old(self).wf() ==> final(self).wf(),
            final(self).follows(old(self)),
            subscription.init@ == old(self).init_now(final(self).clock()),
            subscription.start() == old(self).events().len(),
            final(self).events() == old(self).events() + old(self).replay_now(final(self).clock()),
            final(self).same_screen(old(self)),
            final(self).same_settings(old(self)),
    {
        let now = self.read_clock();
        self.subscribe_at(now)
    }
}

/// One more event, not before the clock and not after the new one, keeps
/// the times in order.
pub proof fn lemma_push_in_order(events: Seq<EventView>, clock: u128, event: EventView, time: u128)
    requires
        stamps_in_order(events, clock),
        time >= clock,
        event.not_before(clock),
        event.not_after(time),
    ensures
        stamps_in_order(events.push(event), time),
{
    let next = events.push(event);
    assert forall|i: int| 0 <= i < next.len() implies (#[trigger] next[i]).not_after(time) by {
        if i < events.len() {
            assert(events[i].not_after(clock));
        }
    }
    assert forall|i: int, j: int| 0 <= i < j < next.len() implies match (
        (#[trigger] next[i]).stamp(),
        (#[trigger] next[j]).stamp(),
    ) {
        (Some(a), Some(b)) => a <= b,
        _ => true,
    } by {
        if j < events.len() {
            assert(next[i] == events[i]);
            assert(next[j] == events[j]);
        } else {
            assert(events[i].not_after(clock));
        }
    }
}

/// Times that are in order under a clock stay so under a later one.
pub proof fn lemma_in_order_later(events: Seq<EventView>, clock: u128, time: u128)
    requires
        stamps_in_order(events, clock),
        time >= clock,
    ensures
        stamps_in_order(events, time),
{
    assert forall|i: int| 0 <= i < events.len() implies (#[trigger] events[i]).not_after(time) by {
        assert(events[i].not_after(clock));
    }
}

impl Subscription {
    /// What the subscriber is shown once the session has come to `session`:
    /// the `Init` event, then every event that the receiver was offered.
    pub open spec fn stream(&self, session: &Session) -> Seq<EventView> {
        seq![self.init@] + session.events().skip(self.start() as int)
    }

    /// The subscription is the one that `subscribe` opened on `before`,
    /// leaving the session as `after`.
    pub open spec fn opened(&self, before: &Session, after: &Session) -> bool {
        &&& before.wf()
        &&& after.wf()
        &&& after.follows(before)
        &&& self.init@ == before.init_now(after.clock())
        &&& self.start() == before.events().len()
        &&& after.events() == before.events() + before.replay_now(after.clock())
    }
}

/// The times of a stream never go back.
pub open spec fn never_goes_back(stream: Seq<EventView>) -> bool {
    forall|i: int, j: int|
        0 <= i < j < stream.len() ==> match ((#[trigger] stream[i]).stamp(), (#[trigger] stream[j]).stamp()) {
            (Some(a), Some(b)) => a <= b,
            _ => true,
        }
}

/// A subscriber is first shown an `Init` event with the size that the
/// terminal had when the subscription was opened, and whatever the session
/// publishes afterwards, the times that the subscriber is shown never go
/// back.
pub proof fn lemma_subscription_stream(
    before: Session,
    after: Session,
    subscription: Subscription,
    later: Session,
)
    requires
        subscription.opened(&before, &after),
        later.wf(),
        later.follows(&after),
    ensures
        subscription.stream(&later)[0] matches EventView::Init { cols, rows, .. } && (cols, rows)
            == before.size(),
        never_goes_back(subscription.stream(&later)),
{
    let stream = subscription.stream(&later);
    let start = before.events().len() as int;
    let time = after.clock();
    let shown = later.events();
    assert(shown.subrange(0, after.events().len() as int) == after.events());
    assert forall|i: int, j: int| 0 <= i < j < stream.len() implies match (
        (#[trigger] stream[i]).stamp(),
        (#[trigger] stream[j]).stamp(),
    ) {
        (Some(a), Some(b)) => a <= b,
        _ => true,
    } by {
        let kj = start + j - 1;
        assert(stream[j] == shown[kj]);
        if i == 0 {
            assert(stream[0].stamp() == Some(time));
            if kj < after.events().len() {
                assert(shown[kj] == shown.subrange(0, after.events().len() as int)[kj]);
                assert(after.events()[kj] == before.replay_now(time)[kj - start]);
            } else {
                assert(shown[kj].not_before(after.clock()));
            }
        } else {
            let ki = start + i - 1;
            assert(stream[i] == shown[ki]);
        }
    }
}

/// A session follows itself.
pub proof fn lemma_follows_self(session: Session)
    ensures
        session.follows(&session),
{
    assert(session.events().subrange(0, session.events().len() as int) =~= session.events());
}

/// What follows a session that follows another follows that other too.
pub proof fn lemma_follows_trans(first: Session, second: Session, third: Session)
    requires
        second.follows(&first),
        third.follows(&second),
    ensures
        third.follows(&first),
{
    let a = first.events();
    let b = second.events();
    let c = third.events();
    assert(c.subrange(0, a.len() as int) =~= a) by {
        assert forall|i: int| 0 <= i < a.len() implies c[i] == a[i] by {
            assert(c.subrange(0, b.len() as int)[i] == b[i]);
            assert(b.subrange(0, a.len() as int)[i] == a[i]);
        }
    }
    assert forall|i: int| a.len() <= i < c.len() implies (#[trigger] c[i]).not_before(first.clock()) by {
        if i < b.len() {
            assert(c.subrange(0, b.len() as int)[i] == b[i]);
            assert(b[i].not_before(first.clock()));
        } else {
            assert(c[i].not_before(second.clock()));
        }
    }
}

/// Whatever the terminal shows, the style data of a snapshot or of an
/// `Init` event taken of it has maps of exactly the terminal's rows and
/// columns, and every number in its style map is the number of a pen in its
/// `styles`.
pub proof fn lemma_snapshot_style_fits(session: Session, time: u128)
    ensures
        session.snapshot_now() matches EventView::Snapshot { cols, rows, style: Some(style), .. }
            ==> style.fits(cols as nat, rows as nat),
        session.init_now(time) matches EventView::Init { cols, rows, style: Some(style), .. }
            ==> style.fits(cols as nat, rows as nat),
        session.styled() <==> session.snapshot_now() matches EventView::Snapshot {
            style: Some(_),
            ..
        },
{
    crate::style::lemma_style_fits(session.grid(), session.size().0 as nat, session.size().1 as nat);
}

} // verus!
