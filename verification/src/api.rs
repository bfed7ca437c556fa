//! The choice of events that a client of the command stream is shown.

use crate::command::{key_input, parse_keys, Command, CommandView};
use crate::session::{Event, EventView};
use crate::text::{pieces, same_text, split_on, strings_view};
use vstd::prelude::*;

verus! {

/// The kinds of event that a client asked for.
#[derive(Clone, Copy, Debug, PartialEq, Eq)]
pub struct Subscription {
    pub init: bool,
    pub snapshot: bool,
    pub resize: bool,
    pub output: bool,
    pub pid: bool,
    pub exit_code: bool,
    pub debug: bool,
    pub command_completed: bool,
}

/// The subscription to nothing.
pub open spec fn no_events() -> Subscription {
    Subscription {
        init: false,
        snapshot: false,
        resize: false,
        output: false,
        pid: false,
        exit_code: false,
        debug: false,
        command_completed: false,
    }
}

impl Default for Subscription {
    fn default() -> (subscription: Subscription)
        ensures
            subscription == no_events(),
    {
        Subscription {
            init: false,
            snapshot: false,
            resize: false,
            output: false,
            pid: false,
            exit_code: false,
            debug: false,
            command_completed: false,
        }
    }
}

/// The subscription with the kind of this name added; nothing for a text
/// that names no kind of event.
pub open spec fn with_event(sub: Subscription, name: Seq<char>) -> Option<Subscription> {
    if name == "init"@ {
        Some(Subscription { init: true, ..sub })
    } else if name == "output"@ {
        Some(Subscription { output: true, ..sub })
    } else if name == "resize"@ {
        Some(Subscription { resize: true, ..sub })
    } else if name == "snapshot"@ {
        Some(Subscription { snapshot: true, ..sub })
    } else if name == "pid"@ {
        Some(Subscription { pid: true, ..sub })
    } else if name == "exitCode"@ {
        Some(Subscription { exit_code: true, ..sub })
    } else if name == "debug"@ {
        Some(Subscription { debug: true, ..sub })
    } else if name == "commandCompleted"@ {
        Some(Subscription { command_completed: true, ..sub })
    } else {
        None
    }
}

/// The subscription that the first `n` names ask for, or the complaint
/// about the first of them that names no kind of event.
pub open spec fn subscribed(names: Seq<Seq<char>>, n: int) -> Result<Subscription, Seq<char>>
    decreases n,
{
    if n <= 0 {
        Ok(no_events())
    } else {
        match subscribed(names, n - 1) {
            Err(complaint) => Err(complaint),
            Ok(sub) => match with_event(sub, names[n - 1]) {
                Some(more) => Ok(more),
                None => Err("invalid event name: "@ + names[n - 1]),
            },
        }
    }
}

/// The subscription that a list of names with commas between them asks for.
pub open spec fn subscription_of(text: Seq<char>) -> Result<Subscription, Seq<char>> {
    subscribed(pieces(text, ','), pieces(text, ',').len() as int)
}

/// A subscription or a complaint as `subscribed` gives them.
pub open spec fn answer_view(answer: Result<Subscription, String>) -> Result<Subscription, Seq<char>> {
    match answer {
        Ok(sub) => Ok(sub),
        Err(complaint) => Err(complaint@),
    }
}

fn add_event(sub: Subscription, name: &str) -> (more: Option<Subscription>)
    ensures
        more == with_event(sub, name@),
{
    let mut more = sub;
    if same_text(name, "init") {
        more.init = true;
    } else if same_text(name, "output") {
        more.output = true;
    } else if same_text(name, "resize") {
        more.resize = true;
    } else if same_text(name, "snapshot") {
        more.snapshot = true;
    } else if same_text(name, "pid") {
        more.pid = true;
    } else if same_text(name, "exitCode") {
        more.exit_code = true;
    } else if same_text(name, "debug") {
        more.debug = true;
    } else if same_text(name, "commandCompleted") {
        more.command_completed = true;
    } else {
        return None;
    }
    Some(more)
}

impl Subscription {
    /// Reads a list of event names with commas between them: `init`,
    /// `output`, `resize`, `snapshot`, `pid`, `exitCode`, `debug`,
    /// `commandCompleted`. Any other name is refused, the first one by name.
    pub fn from_str(s: &str) -> (answer: Result<Subscription, String>)
        ensures
            answer_view(answer) == subscription_of(s@),
    {
        let names = split_on(s, ',');
        let mut sub = Subscription::default();
        let mut i: usize = 0;
        while i < names.len()
            invariant
                i <= names@.len(),
                strings_view(names) == pieces(s@, ','),
                subscribed(strings_view(names), i as int) == Ok::<Subscription, Seq<char>>(sub),
            decreases names@.len() - i,
        {
            assert(strings_view(names)[i as int] == names@[i as int]@);
            match add_event(sub, names[i].as_str()) {
                Some(more) => {
                    sub = more;
                },
                None => {
                    let mut complaint = String::from_str("invalid event name: ");
                    complaint.append(names[i].as_str());
                    proof {
                        lemma_complaint_stays(strings_view(names), i + 1, names@.len() as int);
                    }
                    return Err(complaint);
                },
            }
            i += 1;
        }
        Ok(sub)
    }

    /// Whether the client is shown this event.
    pub fn accepts(&self, event: &Event) -> (shown: bool)
        ensures
            shown == accepts_view(*self, event@),
    {
        match event {
            Event::Init(..) => self.init,
            Event::Output(..) => self.output,
            Event::Resize(..) => self.resize,
            Event::Snapshot(..) => self.snapshot,
            Event::Pid(..) => self.pid,
            Event::ExitCode(..) => self.exit_code,
            Event::Debug(..) => self.debug,
            Event::Completed(..) => self.command_completed,
        }
    }
}

/// Whether a client with this subscription is shown this event.
pub open spec fn accepts_view(sub: Subscription, event: EventView) -> bool {
    match event {
        EventView::Init { .. } => sub.init,
        EventView::Output { .. } => sub.output,
        EventView::Resize { .. } => sub.resize,
        EventView::Snapshot { .. } => sub.snapshot,
        EventView::Pid { .. } => sub.pid,
        EventView::ExitCode { .. } => sub.exit_code,
        EventView::Debug { .. } => sub.debug,
        EventView::Completed { .. } => sub.command_completed,
    }
}

/// A complaint about one name stays the answer however many names follow.
pub proof fn lemma_complaint_stays(names: Seq<Seq<char>>, n: int, m: int)
    requires
        0 <= n <= m,
        subscribed(names, n) is Err,
    ensures
        subscribed(names, m) == subscribed(names, n),
    decreases m - n,
{
    if n < m {
        lemma_complaint_stays(names, n, m - 1);
    }
}

/// A request of a client, as it was read from one line: its type, and the
/// fields that the types ask for, each where the line has it in the right
/// form (`keys` a list of texts, `cols` and `rows` whole numbers).
pub struct Request {
    pub kind: String,
    pub keys: Option<Vec<String>>,
    pub cols: Option<usize>,
    pub rows: Option<usize>,
}

/// What a `Request` holds.
pub struct RequestView {
    pub kind: Seq<char>,
    pub keys: Option<Seq<Seq<char>>>,
    pub cols: Option<usize>,
    pub rows: Option<usize>,
}

impl View for Request {
    type V = RequestView;

    open spec fn view(&self) -> RequestView {
        RequestView {
            kind: self.kind@,
            keys: match self.keys {
                Some(keys) => Some(strings_view(keys)),
                None => None,
            },
            cols: self.cols,
            rows: self.rows,
        }
    }
}

/// The command that a request asks for, or the complaint about it:
/// `sendKeys` with its keys is input, each key by its name; `takeSnapshot`
/// is a snapshot; `resize` with both numbers is a resize; `exit` is the
/// exit. A request of another type, or one that lacks a field, raises no
/// command.
pub open spec fn command_of(request: RequestView) -> Result<CommandView, Seq<char>> {
    if request.kind == "sendKeys"@ {
        match request.keys {
            Some(keys) => Ok(CommandView::Input(keys.map_values(|name: Seq<char>| key_input(name)))),
            None => Err("invalid sendKeys request: keys must be a list of texts"@),
        }
    } else if request.kind == "takeSnapshot"@ {
        Ok(CommandView::Snapshot)
    } else if request.kind == "resize"@ {
        match (request.cols, request.rows) {
            (Some(cols), Some(rows)) => Ok(CommandView::Resize(cols, rows)),
            _ => Err("invalid resize request: cols and rows must be numbers"@),
        }
    } else if request.kind == "exit"@ {
        Ok(CommandView::Exit)
    } else {
        Err("invalid request type: "@ + request.kind)
    }
}

/// A command or a complaint as `command_of` gives them.
pub open spec fn command_answer_view(answer: Result<Command, String>) -> Result<CommandView, Seq<char>> {
    match answer {
        Ok(command) => Ok(command@),
        Err(complaint) => Err(complaint@),
    }
}

impl Request {
    /// The command that the request asks for, or the complaint about it.
    pub fn command(&self) -> (answer: Result<Command, String>)
        ensures
            command_answer_view(answer) == command_of(self@),
    {
        let kind = self.kind.as_str();
        if same_text(kind, "sendKeys") {
            match &self.keys {
                Some(keys) => {
                    let seqs = parse_keys(keys);
                    assert(crate::command::seqs_view(seqs@) =~= strings_view(*keys).map_values(
                        |name: Seq<char>| key_input(name),
                    ));
                    Ok(Command::Input(seqs))
                },
                None => Err(String::from_str("invalid sendKeys request: keys must be a list of texts")),
            }
        } else if same_text(kind, "takeSnapshot") {
            Ok(Command::Snapshot)
        } else if same_text(kind, "resize") {
            match (self.cols, self.rows) {
                (Some(cols), Some(rows)) => Ok(Command::Resize(cols, rows)),
                _ => Err(String::from_str("invalid resize request: cols and rows must be numbers")),
            }
        } else if same_text(kind, "exit") {
            Ok(Command::Exit)
        } else {
            let mut complaint = String::from_str("invalid request type: ");
            complaint.append(kind);
            Err(complaint)
        }
    }
}

} // verus!
