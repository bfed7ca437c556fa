//! The command line of the host.

use crate::api::{answer_view, subscription_of, Subscription};
use crate::text::{decimal, push_decimal, same_text, strings_view};
use vstd::prelude::*;

verus! {

/// Whether snapshots carry the style data of the screen.
#[derive(Clone, Copy, Debug, PartialEq, Eq)]
pub enum StyleMode {
    Plain,
    Styled,
}

/// The columns of a terminal when no size is given.
pub const DEFAULT_COLS: u16 = 120;

/// The rows of a terminal when no size is given.
pub const DEFAULT_ROWS: u16 = 40;

/// The address that `--listen` stands for when none is given.
pub const DEFAULT_LISTEN: &'static str = "127.0.0.1:0";

/// The command of a terminal when none is given.
pub const DEFAULT_SHELL: &'static str = "bash";

/// The size of a terminal.
#[derive(Clone, Copy, Debug, PartialEq, Eq)]
pub struct Size {
    pub cols: u16,
    pub rows: u16,
}

/// Why a text is no size.
#[derive(Clone, Copy, Debug, PartialEq, Eq)]
pub enum SizeError {
    /// The text has no `x`.
    Format,
    /// What stands before the first `x` is no number of columns.
    Cols,
    /// What stands after the first `x` is no number of rows.
    Rows,
}

/// What `str::parse::<u16>` makes of a text: the number that it writes in
/// decimal, if it writes one that fits.
pub uninterp spec fn parsed_u16(text: Seq<char>) -> Option<u16>;

/// `str::parse::<u16>`, without the reason of a failure.
#[verifier::external_body]
fn parse_u16(text: &str) -> (number: Option<u16>)
    ensures
        number == parsed_u16(text@),
{
    text.parse::<u16>().ok()
}

/// The size that a text of the form `COLSxROWS` stands for: the text is cut
/// at its first `x`, and each side is read as a number.
pub open spec fn size_of(text: Seq<char>) -> Result<Size, SizeError> {
    match text.index_of_first('x') {
        None => Err(SizeError::Format),
        Some(at) => match parsed_u16(text.take(at)) {
            None => Err(SizeError::Cols),
            Some(cols) => match parsed_u16(text.skip(at + 1)) {
                None => Err(SizeError::Rows),
                Some(rows) => Ok(Size { cols, rows }),
            },
        },
    }
}

/// A size as it is written: `COLSxROWS`.
pub open spec fn size_text(size: Size) -> Seq<char> {
    decimal(size.cols as nat) + "x"@ + decimal(size.rows as nat)
}

fn find_char(text: &str, wanted: char) -> (at: Option<usize>)
    ensures
        match at {
            Some(i) => text@.index_of_first(wanted) == Some(i as int) && i < text@.len(),
            None => text@.index_of_first(wanted) is None,
        },
{
    let length = text.unicode_len();
    let mut i: usize = 0;
    while i < length
        invariant
            i <= length,
            length == text@.len(),
            forall|j: int| 0 <= j < i ==> text@[j] != wanted,
        decreases length - i,
    {
        if text.get_char(i) == wanted {
            proof {
                text@.index_of_first_ensures(wanted);
            }
            return Some(i);
        }
        i += 1;
    }
    proof {
        text@.index_of_first_ensures(wanted);
    }
    None
}

impl Default for Size {
    fn default() -> (size: Size)
        ensures
            size == (Size { cols: DEFAULT_COLS, rows: DEFAULT_ROWS }),
    {
        Size { cols: DEFAULT_COLS, rows: DEFAULT_ROWS }
    }
}

impl Size {
    /// The columns.
    pub fn cols(&self) -> (cols: usize)
        ensures
            cols == self.cols,
    {
        self.cols as usize
    }

    /// The rows.
    pub fn rows(&self) -> (rows: usize)
        ensures
            rows == self.rows,
    {
        self.rows as usize
    }

    /// Reads a size written as `COLSxROWS`.
    pub fn from_str(s: &str) -> (size: Result<Size, SizeError>)
        ensures
            size == size_of(s@),
    {
        match find_char(s, 'x') {
            None => Err(SizeError::Format),
            Some(at) => {
                let length = s.unicode_len();
                match parse_u16(s.substring_char(0, at)) {
                    None => Err(SizeError::Cols),
                    Some(cols) => match parse_u16(s.substring_char(at + 1, length)) {
                        None => Err(SizeError::Rows),
                        Some(rows) => Ok(Size { cols, rows }),
                    },
                }
            },
        }
    }

    /// The size as it is written: `COLSxROWS`.
    pub fn to_text(&self) -> (text: String)
        ensures
            text@ == size_text(*self),
    {
        let mut text = String::new();
        push_decimal(&mut text, self.cols as u128);
        text.append("x");
        push_decimal(&mut text, self.rows as u128);
        assert(text@ =~= size_text(*self));
        text
    }
}

/// A subcommand of the host.
#[derive(Clone, Debug, PartialEq, Eq)]
pub enum Commands {
    /// Be the helper that waits at the FIFO of this path.
    WaitExit { signal_file: String },
}

/// What the command line asks for.
#[derive(Clone, Debug, PartialEq)]
pub struct Cli {
    pub command: Option<Commands>,
    pub size: Size,
    pub shell_command: Vec<String>,
    pub listen: Option<String>,
    pub subscribe: Option<Subscription>,
    pub style_mode: StyleMode,
}

/// What a `Cli` holds. Of the subcommand the path of its FIFO.
pub struct CliView {
    pub wait_exit: Option<Seq<char>>,
    pub size: Size,
    pub shell_command: Seq<Seq<char>>,
    pub listen: Option<Seq<char>>,
    pub subscribe: Option<Subscription>,
    pub style_mode: StyleMode,
}

impl View for Cli {
    type V = CliView;

    open spec fn view(&self) -> CliView {
        CliView {
            wait_exit: match self.command {
                Some(Commands::WaitExit { signal_file }) => Some(signal_file@),
                None => None,
            },
            size: self.size,
            shell_command: strings_view(self.shell_command),
            listen: match self.listen {
                Some(address) => Some(address@),
                None => None,
            },
            subscribe: self.subscribe,
            style_mode: self.style_mode,
        }
    }
}

/// What the command line asks for.
#[derive(Clone, Debug, PartialEq)]
pub enum Invocation {
    /// Print the help and leave.
    Help,
    /// Print the version and leave.
    Version,
    /// Run, as the helper or as the host.
    Run(Cli),
}

/// What an `Invocation` holds.
pub enum InvocationView {
    Help,
    Version,
    Run(CliView),
}

impl View for Invocation {
    type V = InvocationView;

    open spec fn view(&self) -> InvocationView {
        match *self {
            Invocation::Help => InvocationView::Help,
            Invocation::Version => InvocationView::Version,
            Invocation::Run(cli) => InvocationView::Run(cli@),
        }
    }
}

/// Why a command line is refused.
#[derive(Clone, Debug, PartialEq, Eq)]
pub enum CliError {
    /// The option, which stands last, needs a value.
    MissingValue(String),
    /// The value of `--size` is no size.
    InvalidSize(SizeError, String),
    /// The value of `--subscribe` names something that is no kind of event;
    /// the text is the complaint.
    InvalidSubscription(String),
    /// The argument starts with `-` and is no option.
    UnknownOption(String),
}

/// What a `CliError` holds.
pub enum CliErrorView {
    MissingValue(Seq<char>),
    InvalidSize(SizeError, Seq<char>),
    InvalidSubscription(Seq<char>),
    UnknownOption(Seq<char>),
}

impl View for CliError {
    type V = CliErrorView;

    open spec fn view(&self) -> CliErrorView {
        match *self {
            CliError::MissingValue(option) => CliErrorView::MissingValue(option@),
            CliError::InvalidSize(why, text) => CliErrorView::InvalidSize(why, text@),
            CliError::InvalidSubscription(complaint) => CliErrorView::InvalidSubscription(complaint@),
            CliError::UnknownOption(argument) => CliErrorView::UnknownOption(argument@),
        }
    }
}

/// The line that reports the error.
pub open spec fn error_message(error: CliErrorView) -> Seq<char> {
    match error {
        CliErrorView::MissingValue(option) => if option == "wait-exit"@ {
            "wait-exit requires a signal file path"@
        } else {
            option + " requires a value"@
        },
        CliErrorView::InvalidSize(why, text) => match why {
            SizeError::Format => "invalid size format: "@ + text,
            SizeError::Cols => "invalid number of columns in size: "@ + text,
            SizeError::Rows => "invalid number of rows in size: "@ + text,
        },
        CliErrorView::InvalidSubscription(complaint) => complaint,
        CliErrorView::UnknownOption(argument) => "Unknown option: "@ + argument,
    }
}

impl CliError {
    /// The line that reports the error.
    pub fn message(&self) -> (line: String)
        ensures
            line@ == error_message(self@),
    {
        match self {
            CliError::MissingValue(option) => {
                if same_text(option.as_str(), "wait-exit") {
                    String::from_str("wait-exit requires a signal file path")
                } else {
                    let mut line = option.clone();
                    line.append(" requires a value");
                    line
                }
            },
            CliError::InvalidSize(why, text) => {
                let mut line = String::from_str(
                    match why {
                        SizeError::Format => "invalid size format: ",
                        SizeError::Cols => "invalid number of columns in size: ",
                        SizeError::Rows => "invalid number of rows in size: ",
                    },
                );
                line.append(text.as_str());
                line
            },
            CliError::InvalidSubscription(complaint) => complaint.clone(),
            CliError::UnknownOption(argument) => {
                let mut line = String::from_str("Unknown option: ");
                line.append(argument.as_str());
                line
            },
        }
    }
}

/// What a command line asks for when it says nothing: a terminal of 120 by
/// 40 that runs `bash`, in plain mode.
pub open spec fn default_cli() -> CliView {
    CliView {
        wait_exit: None,
        size: Size { cols: DEFAULT_COLS, rows: DEFAULT_ROWS },
        shell_command: seq![DEFAULT_SHELL@],
        listen: None,
        subscribe: None,
        style_mode: StyleMode::Plain,
    }
}

/// The text starts with `-`.
pub open spec fn is_flag(text: Seq<char>) -> bool {
    text.len() > 0 && text[0] == '-'
}

/// The result of a parse as `parse_from` gives it.
pub open spec fn parse_view(result: Result<Invocation, CliError>) -> Result<
    InvocationView,
    CliErrorView,
> {
    match result {
        Ok(invocation) => Ok(invocation@),
        Err(error) => Err(error@),
    }
}

/// What the arguments from the `i`th on ask for, after those before it have
/// asked for `cli`.
///
/// - `--help` or `-h`, `--version` or `-V`: nothing else is read.
/// - `--size COLSxROWS`, `--subscribe EVENTS`: the next argument is the
///   value.
/// - `--listen` or `-l`: the next argument is the address unless there is
///   none or it starts with `-`; then the address is `127.0.0.1:0`.
/// - `wait-exit PATH`: the helper; nothing else is read.
/// - `--`: what follows, if anything, is the command.
/// - anything else that starts with `-` is refused.
/// - any other argument is the command, with all that follows.
pub open spec fn parse_from(args: Seq<Seq<char>>, i: int, cli: CliView) -> Result<
    InvocationView,
    CliErrorView,
>
    decreases args.len() - i,
{
    if i < 0 || i >= args.len() {
        Ok(InvocationView::Run(cli))
    } else {
        let arg = args[i];
        if arg == "--help"@ || arg == "-h"@ {
            Ok(InvocationView::Help)
        } else if arg == "--version"@ || arg == "-V"@ {
            Ok(InvocationView::Version)
        } else if arg == "--size"@ {
            if i + 1 >= args.len() {
                Err(CliErrorView::MissingValue(arg))
            } else {
                match crate::cli::size_of(args[i + 1]) {
                    Err(why) => Err(CliErrorView::InvalidSize(why, args[i + 1])),
                    Ok(size) => parse_from(args, i + 2, CliView { size, ..cli }),
                }
            }
        } else if arg == "--listen"@ || arg == "-l"@ {
            if i + 1 < args.len() && !is_flag(args[i + 1]) {
                parse_from(args, i + 2, CliView { listen: Some(args[i + 1]), ..cli })
            } else {
                parse_from(args, i + 1, CliView { listen: Some(DEFAULT_LISTEN@), ..cli })
            }
        } else if arg == "--subscribe"@ {
            if i + 1 >= args.len() {
                Err(CliErrorView::MissingValue(arg))
            } else {
                match subscription_of(args[i + 1]) {
                    Err(complaint) => Err(CliErrorView::InvalidSubscription(complaint)),
                    Ok(sub) => parse_from(args, i + 2, CliView { subscribe: Some(sub), ..cli }),
                }
            }
        } else if arg == "wait-exit"@ {
            if i + 1 >= args.len() {
                Err(CliErrorView::MissingValue(arg))
            } else {
                Ok(InvocationView::Run(CliView { wait_exit: Some(args[i + 1]), ..cli }))
            }
        } else if arg == "--"@ {
            if i + 1 < args.len() {
                Ok(
                    InvocationView::Run(
                        CliView { shell_command: args.skip(i + 1), ..cli },
                    ),
                )
            } else {
                Ok(InvocationView::Run(cli))
            }
        } else if is_flag(arg) {
            Err(CliErrorView::UnknownOption(arg))
        } else {
            Ok(InvocationView::Run(CliView { shell_command: args.skip(i), ..cli }))
        }
    }
}

/// What a command line asks for. The first argument is the name of the
/// program and is not read.
pub open spec fn parsed(args: Seq<Seq<char>>) -> Result<InvocationView, CliErrorView> {
    parse_from(args, 1, default_cli())
}

fn starts_with_dash(text: &str) -> (flag: bool)
    ensures
        flag == is_flag(text@),
{
    text.unicode_len() > 0 && text.get_char(0) == '-'
}

fn rest_of(args: &Vec<String>, from: usize) -> (rest: Vec<String>)
    requires
        from <= args@.len(),
    ensures
        strings_view(rest) == strings_view(*args).skip(from as int),
{
    let mut rest: Vec<String> = Vec::new();
    let mut i: usize = from;
    while i < args.len()
        invariant
            from <= i <= args@.len(),
            rest@.len() == i - from,
            forall|j: int| 0 <= j < i - from ==> (#[trigger] rest@[j])@ == args@[from + j]@,
        decreases args@.len() - i,
    {
        rest.push(args[i].clone());
        i += 1;
    }
    assert(strings_view(rest) =~= strings_view(*args).skip(from as int));
    rest
}

/// Reads the command line.
pub fn parse_args(args: &Vec<String>) -> (result: Result<Invocation, CliError>)
    ensures
        parse_view(result) == parsed(strings_view(*args)),
{
    let ghost texts = strings_view(*args);
    let mut shell_command: Vec<String> = Vec::new();
    shell_command.push(String::from_str(DEFAULT_SHELL));
    let mut cli = Cli {
        command: None,
        size: Size::default(),
        shell_command,
        listen: None,
        subscribe: None,
        style_mode: StyleMode::Plain,
    };
    assert(cli@.shell_command =~= seq![DEFAULT_SHELL@]);
    let mut i: usize = 1;
    while i < args.len()
        invariant
            1 <= i,
            texts == strings_view(*args),
            parse_from(texts, i as int, cli@) == parsed(texts),
        decreases args@.len() - i,
    {
        let arg = args[i].as_str();
        assert(texts[i as int] == arg@);
        if same_text(arg, "--help") || same_text(arg, "-h") {
            return Ok(Invocation::Help);
        } else if same_text(arg, "--version") || same_text(arg, "-V") {
            return Ok(Invocation::Version);
        } else if same_text(arg, "--size") {
            if i + 1 >= args.len() {
                return Err(CliError::MissingValue(String::from_str(arg)));
            }
            assert(texts[i + 1] == args@[i + 1]@);
            match Size::from_str(args[i + 1].as_str()) {
                Err(why) => {
                    return Err(CliError::InvalidSize(why, args[i + 1].clone()));
                },
                Ok(size) => {
                    cli.size = size;
                },
            }
            i += 1;
        } else if same_text(arg, "--listen") || same_text(arg, "-l") {
            if i + 1 < args.len() && !starts_with_dash(args[i + 1].as_str()) {
                assert(texts[i + 1] == args@[i + 1]@);
                cli.listen = Some(args[i + 1].clone());
                i += 1;
            } else {
                assert(i + 1 < args.len() ==> texts[i + 1] == args@[i + 1]@);
                cli.listen = Some(String::from_str(DEFAULT_LISTEN));
            }
        } else if same_text(arg, "--subscribe") {
            if i + 1 >= args.len() {
                return Err(CliError::MissingValue(String::from_str(arg)));
            }
            assert(texts[i + 1] == args@[i + 1]@);
            match Subscription::from_str(args[i + 1].as_str()) {
                Err(complaint) => {
                    return Err(CliError::InvalidSubscription(complaint));
                },
                Ok(sub) => {
                    cli.subscribe = Some(sub);
                },
            }
            i += 1;
        } else if same_text(arg, "wait-exit") {
            if i + 1 >= args.len() {
                return Err(CliError::MissingValue(String::from_str(arg)));
            }
            assert(texts[i + 1] == args@[i + 1]@);
            cli.command = Some(Commands::WaitExit { signal_file: args[i + 1].clone() });
            return Ok(Invocation::Run(cli));
        } else if same_text(arg, "--") {
            if i + 1 < args.len() {
                cli.shell_command = rest_of(args, i + 1);
            }
            return Ok(Invocation::Run(cli));
        } else if starts_with_dash(arg) {
            return Err(CliError::UnknownOption(String::from_str(arg)));
        } else {
            cli.shell_command = rest_of(args, i);
            return Ok(Invocation::Run(cli));
        }
        i += 1;
    }
    Ok(Invocation::Run(cli))
}

} // verus!
