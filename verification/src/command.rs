//! The commands that the coordinator takes, and the encoding of input for
//! the child.

use crate::text::{decimal, push_decimal, same_text};
use vstd::prelude::*;
use vstd::utf8::encode_utf8;

verus! {

/// A cursor key.
#[derive(Clone, Copy, Debug, PartialEq, Eq)]
pub enum CursorKey {
    Up,
    Down,
    Right,
    Left,
}

/// A piece of input for the child.
#[derive(Clone, Debug, PartialEq, Eq)]
pub enum InputSeq {
    /// Text that is passed on as it is.
    Standard(String),
    /// A cursor key, whose bytes depend on the mode of the terminal.
    Cursor(CursorKey),
}

/// What an `InputSeq` holds.
pub enum InputSeqView {
    Standard(Seq<char>),
    Cursor(CursorKey),
}

impl View for InputSeq {
    type V = InputSeqView;

    open spec fn view(&self) -> InputSeqView {
        match *self {
            InputSeq::Standard(text) => InputSeqView::Standard(text@),
            InputSeq::Cursor(key) => InputSeqView::Cursor(key),
        }
    }
}

/// A command for the coordinator.
#[derive(Clone, Debug, PartialEq, Eq)]
pub enum Command {
    /// Input for the child.
    Input(Vec<InputSeq>),
    /// Publish a snapshot of the screen.
    Snapshot,
    /// Resize the terminal to cols, rows.
    Resize(usize, usize),
    /// Publish a debug event with this message.
    Debug(String),
    /// The child's command has finished; its helper waits at this FIFO.
    Completed(String),
    /// Leave, once the commands have gone quiet.
    Exit,
}

/// What a `Command` holds.
pub enum CommandView {
    Input(Seq<InputSeqView>),
    Snapshot,
    Resize(usize, usize),
    Debug(Seq<char>),
    Completed(Seq<char>),
    Exit,
}

/// A list of input pieces by what each holds.
pub open spec fn seqs_view(seqs: Seq<InputSeq>) -> Seq<InputSeqView> {
    Seq::new(seqs.len(), |i: int| seqs[i]@)
}

impl View for Command {
    type V = CommandView;

    open spec fn view(&self) -> CommandView {
        match *self {
            Command::Input(seqs) => CommandView::Input(seqs_view(seqs@)),
            Command::Snapshot => CommandView::Snapshot,
            Command::Resize(cols, rows) => CommandView::Resize(cols, rows),
            Command::Debug(message) => CommandView::Debug(message@),
            Command::Completed(path) => CommandView::Completed(path@),
            Command::Exit => CommandView::Exit,
        }
    }
}

/// The final byte of a cursor key's sequence: `A`, `B`, `C` or `D`.
pub open spec fn cursor_final(key: CursorKey) -> u8 {
    match key {
        CursorKey::Up => 0x41,
        CursorKey::Down => 0x42,
        CursorKey::Right => 0x43,
        CursorKey::Left => 0x44,
    }
}

/// The bytes of a cursor key: `ESC O` and the final byte in application
/// mode, `ESC [` and the final byte otherwise.
pub open spec fn cursor_bytes(key: CursorKey, app_mode: bool) -> Seq<u8> {
    if app_mode {
        seq![0x1bu8, 0x4fu8, cursor_final(key)]
    } else {
        seq![0x1bu8, 0x5bu8, cursor_final(key)]
    }
}

/// The bytes of one piece of input: text in UTF-8, a cursor key by the mode.
pub open spec fn seq_bytes(seq: InputSeqView, app_mode: bool) -> Seq<u8> {
    match seq {
        InputSeqView::Standard(text) => encode_utf8(text),
        InputSeqView::Cursor(key) => cursor_bytes(key, app_mode),
    }
}

/// The bytes of the first `n` pieces of input, one after the other.
pub open spec fn seqs_bytes(seqs: Seq<InputSeqView>, app_mode: bool, n: int) -> Seq<u8>
    decreases n,
{
    if n <= 0 {
        Seq::empty()
    } else {
        seqs_bytes(seqs, app_mode, n - 1) + seq_bytes(seqs[n - 1], app_mode)
    }
}

/// The bytes are `ESC [` and one of `A`, `B`, `C`, `D`.
pub open spec fn is_csi_form(bytes: Seq<u8>) -> bool {
    &&& bytes.len() == 3
    &&& bytes[0] == 0x1b
    &&& bytes[1] == 0x5b
    &&& 0x41 <= bytes[2] <= 0x44
}

/// The bytes are `ESC O` and one of `A`, `B`, `C`, `D`.
pub open spec fn is_ss3_form(bytes: Seq<u8>) -> bool {
    &&& bytes.len() == 3
    &&& bytes[0] == 0x1b
    &&& bytes[1] == 0x4f
    &&& 0x41 <= bytes[2] <= 0x44
}

/// A cursor key is sent in CSI form exactly when the terminal is not in
/// application mode, and in SS3 form exactly when it is.
pub proof fn lemma_cursor_key_form(key: CursorKey, app_mode: bool)
    ensures
        is_csi_form(seq_bytes(InputSeqView::Cursor(key), app_mode)) <==> !app_mode,
        is_ss3_form(seq_bytes(InputSeqView::Cursor(key), app_mode)) <==> app_mode,
{
}

fn push_seq_bytes(bytes: &mut Vec<u8>, seq: &InputSeq, app_mode: bool)
    ensures
        final(bytes)@ == old(bytes)@ + seq_bytes(seq@, app_mode),
{
    match seq {
        InputSeq::Standard(text) => {
            bytes.extend_from_slice(text.as_str().as_bytes());
        },
        InputSeq::Cursor(key) => {
            bytes.push(0x1b);
            bytes.push(if app_mode { 0x4f } else { 0x5b });
            bytes.push(
                match key {
                    CursorKey::Up => 0x41,
                    CursorKey::Down => 0x42,
                    CursorKey::Right => 0x43,
                    CursorKey::Left => 0x44,
                },
            );
            assert(bytes@ =~= old(bytes)@ + cursor_bytes(*key, app_mode));
        },
    }
}

/// The bytes that the child is sent for `seqs`, given the mode of the
/// terminal's cursor keys.
pub fn seqs_to_bytes(seqs: &Vec<InputSeq>, app_mode: bool) -> (bytes: Vec<u8>)
    ensures
        bytes@ == seqs_bytes(seqs_view(seqs@), app_mode, seqs@.len() as int),
{
    let mut bytes: Vec<u8> = Vec::new();
    let mut i: usize = 0;
    while i < seqs.len()
        invariant
            i <= seqs@.len(),
            bytes@ == seqs_bytes(seqs_view(seqs@), app_mode, i as int),
        decreases seqs@.len() - i,
    {
        push_seq_bytes(&mut bytes, &seqs[i], app_mode);
        i += 1;
    }
    bytes
}

/// What `{:?}` prints for a string: the string in double quotes, with the
/// escapes of `str::escape_debug`.
pub uninterp spec fn debug_quoted(text: Seq<char>) -> Seq<char>;

/// `format!("{:?}", text)`, the `Debug` form of a `str`.
#[verifier::external_body]
fn quote(text: &str) -> (quoted: String)
    ensures
        quoted@ == debug_quoted(text@),
{
    format!("{:?}", text)
}

/// The name of a cursor key.
pub open spec fn cursor_name(key: CursorKey) -> Seq<char> {
    match key {
        CursorKey::Up => "Up"@,
        CursorKey::Down => "Down"@,
        CursorKey::Right => "Right"@,
        CursorKey::Left => "Left"@,
    }
}

/// One piece of input as the debug events show it.
pub open spec fn describe_seq(seq: InputSeqView) -> Seq<char> {
    match seq {
        InputSeqView::Standard(text) => "Standard("@ + debug_quoted(text) + ")"@,
        InputSeqView::Cursor(key) => "Cursor("@ + cursor_name(key) + ")"@,
    }
}

/// The first `n` pieces of input as the debug events show them, with a
/// comma and a space between each two.
pub open spec fn describe_seqs(seqs: Seq<InputSeqView>, n: int) -> Seq<char>
    decreases n,
{
    if n <= 0 {
        Seq::empty()
    } else if n == 1 {
        describe_seq(seqs[0])
    } else {
        describe_seqs(seqs, n - 1) + ", "@ + describe_seq(seqs[n - 1])
    }
}

/// A command as the debug events show it: the text that `{:?}` prints.
pub open spec fn describe(command: CommandView) -> Seq<char> {
    match command {
        CommandView::Input(seqs) => "Input(["@ + describe_seqs(seqs, seqs.len() as int) + "])"@,
        CommandView::Snapshot => "Snapshot"@,
        CommandView::Resize(cols, rows) => "Resize("@ + decimal(cols as nat) + ", "@ + decimal(
            rows as nat,
        ) + ")"@,
        CommandView::Debug(message) => "Debug("@ + debug_quoted(message) + ")"@,
        CommandView::Completed(path) => "Completed("@ + debug_quoted(path) + ")"@,
        CommandView::Exit => "Exit"@,
    }
}

fn push_described_seq(out: &mut String, seq: &InputSeq)
    ensures
        final(out)@ == old(out)@ + describe_seq(seq@),
{
    match seq {
        InputSeq::Standard(text) => {
            out.append("Standard(");
            out.append(quote(text.as_str()).as_str());
            out.append(")");
            assert(out@ =~= old(out)@ + describe_seq(seq@));
        },
        InputSeq::Cursor(key) => {
            out.append("Cursor(");
            out.append(
                match key {
                    CursorKey::Up => "Up",
                    CursorKey::Down => "Down",
                    CursorKey::Right => "Right",
                    CursorKey::Left => "Left",
                },
            );
            out.append(")");
            assert(out@ =~= old(out)@ + describe_seq(seq@));
        },
    }
}

impl Command {
    /// The command as the debug events show it.
    pub fn describe(&self) -> (text: String)
        ensures
            text@ == describe(self@),
    {
        let mut text = String::new();
        match self {
            Command::Input(seqs) => {
                text.append("Input([");
                let ghost head = text@;
                let mut i: usize = 0;
                while i < seqs.len()
                    invariant
                        i <= seqs@.len(),
                        head == "Input(["@,
                        text@ == head + describe_seqs(seqs_view(seqs@), i as int),
                    decreases seqs@.len() - i,
                {
                    if i > 0 {
                        text.append(", ");
                    }
                    push_described_seq(&mut text, &seqs[i]);
                    proof {
                        assert(seqs_view(seqs@)[i as int] == seqs@[i as int]@);
                        assert(text@ =~= head + describe_seqs(seqs_view(seqs@), i + 1));
                    }
                    i += 1;
                }
                text.append("])");
                assert(text@ =~= describe(self@));
            },
            Command::Snapshot => {
                text.append("Snapshot");
                assert(text@ =~= describe(self@));
            },
            Command::Resize(cols, rows) => {
                text.append("Resize(");
                push_decimal(&mut text, *cols as u128);
                text.append(", ");
                push_decimal(&mut text, *rows as u128);
                text.append(")");
                assert(text@ =~= describe(self@));
            },
            Command::Debug(message) => {
                text.append("Debug(");
                text.append(quote(message.as_str()).as_str());
                text.append(")");
                assert(text@ =~= describe(self@));
            },
            Command::Completed(path) => {
                text.append("Completed(");
                text.append(quote(path.as_str()).as_str());
                text.append(")");
                assert(text@ =~= describe(self@));
            },
            Command::Exit => {
                text.append("Exit");
                assert(text@ =~= describe(self@));
            },
        }
        text
    }
}

/// The input that the name of a key stands for: the named keys `Enter`,
/// `Tab`, `Backspace`, `Escape`, `Space`, `C-c` and `C-d` by their byte, the
/// cursor keys by themselves; any other text stands for itself.
pub open spec fn key_input(name: Seq<char>) -> InputSeqView {
    if name == "Enter"@ {
        InputSeqView::Standard("\r"@)
    } else if name == "Tab"@ {
        InputSeqView::Standard("\t"@)
    } else if name == "Backspace"@ {
        InputSeqView::Standard("\x7f"@)
    } else if name == "Escape"@ {
        InputSeqView::Standard("\x1b"@)
    } else if name == "Space"@ {
        InputSeqView::Standard(" "@)
    } else if name == "C-c"@ {
        InputSeqView::Standard("\x03"@)
    } else if name == "C-d"@ {
        InputSeqView::Standard("\x04"@)
    } else if name == "Up"@ {
        InputSeqView::Cursor(CursorKey::Up)
    } else if name == "Down"@ {
        InputSeqView::Cursor(CursorKey::Down)
    } else if name == "Right"@ {
        InputSeqView::Cursor(CursorKey::Right)
    } else if name == "Left"@ {
        InputSeqView::Cursor(CursorKey::Left)
    } else {
        InputSeqView::Standard(name)
    }
}

/// The input that the name of a key stands for.
pub fn parse_key(name: &str) -> (seq: InputSeq)
    ensures
        seq@ == key_input(name@),
{
    if same_text(name, "Enter") {
        InputSeq::Standard(String::from_str("\r"))
    } else if same_text(name, "Tab") {
        InputSeq::Standard(String::from_str("\t"))
    } else if same_text(name, "Backspace") {
        InputSeq::Standard(String::from_str("\x7f"))
    } else if same_text(name, "Escape") {
        InputSeq::Standard(String::from_str("\x1b"))
    } else if same_text(name, "Space") {
        InputSeq::Standard(String::from_str(" "))
    } else if same_text(name, "C-c") {
        InputSeq::Standard(String::from_str("\x03"))
    } else if same_text(name, "C-d") {
        InputSeq::Standard(String::from_str("\x04"))
    } else if same_text(name, "Up") {
        InputSeq::Cursor(CursorKey::Up)
    } else if same_text(name, "Down") {
        InputSeq::Cursor(CursorKey::Down)
    } else if same_text(name, "Right") {
        InputSeq::Cursor(CursorKey::Right)
    } else if same_text(name, "Left") {
        InputSeq::Cursor(CursorKey::Left)
    } else {
        InputSeq::Standard(String::from_str(name))
    }
}

/// The input that a list of key names stands for.
pub fn parse_keys(names: &Vec<String>) -> (seqs: Vec<InputSeq>)
    ensures
        seqs@.len() == names@.len(),
        forall|i: int| 0 <= i < names@.len() ==> (#[trigger] seqs@[i])@ == key_input(names@[i]@),
{
    let mut seqs: Vec<InputSeq> = Vec::new();
    let mut i: usize = 0;
    while i < names.len()
        invariant
            i <= names@.len(),
            seqs@.len() == i,
            forall|j: int| 0 <= j < i ==> (#[trigger] seqs@[j])@ == key_input(names@[j]@),
        decreases names@.len() - i,
    {
        seqs.push(parse_key(names[i].as_str()));
        i += 1;
    }
    seqs
}

} // verus!
