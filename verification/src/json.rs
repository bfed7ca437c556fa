//! Events as the objects that clients are sent: a type tag and the fields
//! of the data, in order.

use crate::session::{Event, EventView};
use crate::style::{table_view, PenJson, PenJsonView, StyleData, StyleView};
use vstd::prelude::*;

verus! {

/// The value of one field of an event's data.
#[derive(Clone, Debug, PartialEq)]
pub enum JsonField {
    /// A whole number.
    Number(i128),
    /// A time in nanoseconds, which clients are shown in seconds.
    Seconds(u128),
    /// A text.
    Text(String),
    /// Rows of glyphs.
    CharMap(Vec<Vec<char>>),
    /// Rows of pen numbers.
    StyleMap(Vec<Vec<usize>>),
    /// The pens, each under its number.
    Styles(Vec<PenJson>),
}

/// What a `JsonField` holds.
pub enum JsonFieldView {
    Number(int),
    Seconds(u128),
    Text(Seq<char>),
    CharMap(Seq<Seq<char>>),
    StyleMap(Seq<Seq<usize>>),
    Styles(Seq<PenJsonView>),
}

/// A list of pens by what each holds.
pub open spec fn pens_view(pens: Vec<PenJson>) -> Seq<PenJsonView> {
    Seq::new(pens@.len(), |i: int| pens@[i]@)
}

impl View for JsonField {
    type V = JsonFieldView;

    open spec fn view(&self) -> JsonFieldView {
        match *self {
            JsonField::Number(n) => JsonFieldView::Number(n as int),
            JsonField::Seconds(nanos) => JsonFieldView::Seconds(nanos),
            JsonField::Text(text) => JsonFieldView::Text(text@),
            JsonField::CharMap(map) => JsonFieldView::CharMap(table_view(map)),
            JsonField::StyleMap(map) => JsonFieldView::StyleMap(table_view(map)),
            JsonField::Styles(pens) => JsonFieldView::Styles(pens_view(pens)),
        }
    }
}

/// An event as clients are sent it: `{"type": kind, "data": {..}}`.
#[derive(Clone, Debug, PartialEq)]
pub struct EventJson {
    pub kind: String,
    pub data: Vec<(String, JsonField)>,
}

/// What an `EventJson` holds.
pub struct EventJsonView {
    pub kind: Seq<char>,
    pub data: Seq<(Seq<char>, JsonFieldView)>,
}

impl View for EventJson {
    type V = EventJsonView;

    open spec fn view(&self) -> EventJsonView {
        EventJsonView {
            kind: self.kind@,
            data: Seq::new(self.data@.len(), |i: int| (self.data@[i].0@, self.data@[i].1@)),
        }
    }
}

/// The three fields that style data adds to an event: `charMap`, `styleMap`
/// and `styles`; nothing without style data.
pub open spec fn style_fields(style: Option<StyleView>) -> Seq<(Seq<char>, JsonFieldView)> {
    match style {
        Some(data) => seq![
            ("charMap"@, JsonFieldView::CharMap(data.char_map)),
            ("styleMap"@, JsonFieldView::StyleMap(data.style_map)),
            ("styles"@, JsonFieldView::Styles(data.styles)),
        ],
        None => Seq::empty(),
    }
}

/// The type tag of an event.
pub open spec fn event_kind(event: EventView) -> Seq<char> {
    match event {
        EventView::Init { .. } => "init"@,
        EventView::Output { .. } => "output"@,
        EventView::Resize { .. } => "resize"@,
        EventView::Snapshot { .. } => "snapshot"@,
        EventView::Pid { .. } => "pid"@,
        EventView::ExitCode { .. } => "exitCode"@,
        EventView::Debug { .. } => "debug"@,
        EventView::Completed { .. } => "commandCompleted"@,
    }
}

/// The fields of an event's data.
pub open spec fn event_data(event: EventView) -> Seq<(Seq<char>, JsonFieldView)> {
    match event {
        EventView::Init { time, cols, rows, pid, seq, text, style } => seq![
            ("cols"@, JsonFieldView::Number(cols as int)),
            ("rows"@, JsonFieldView::Number(rows as int)),
            ("pid"@, JsonFieldView::Number(pid as int)),
            ("seq"@, JsonFieldView::Text(seq)),
            ("text"@, JsonFieldView::Text(text)),
        ] + style_fields(style),
        EventView::Output { time, seq } => seq![("seq"@, JsonFieldView::Text(seq))],
        EventView::Resize { time, cols, rows } => seq![
            ("cols"@, JsonFieldView::Number(cols as int)),
            ("rows"@, JsonFieldView::Number(rows as int)),
        ],
        EventView::Snapshot { cols, rows, seq, text, style } => seq![
            ("cols"@, JsonFieldView::Number(cols as int)),
            ("rows"@, JsonFieldView::Number(rows as int)),
            ("seq"@, JsonFieldView::Text(seq)),
            ("text"@, JsonFieldView::Text(text)),
        ] + style_fields(style),
        EventView::Pid { time, pid } => seq![("pid"@, JsonFieldView::Number(pid as int))],
        EventView::ExitCode { time, code } => seq![("exitCode"@, JsonFieldView::Number(code as int))],
        EventView::Debug { time, message } => seq![("message"@, JsonFieldView::Text(message))],
        EventView::Completed { time } => seq![("time"@, JsonFieldView::Seconds(time))],
    }
}

/// An event as clients are sent it.
pub open spec fn event_json(event: EventView) -> EventJsonView {
    EventJsonView { kind: event_kind(event), data: event_data(event) }
}

fn copy_table<T: Copy>(table: &Vec<Vec<T>>) -> (copy: Vec<Vec<T>>)
    ensures
        table_view(copy) == table_view(*table),
{
    let mut copy: Vec<Vec<T>> = Vec::new();
    let mut r: usize = 0;
    while r < table.len()
        invariant
            r <= table@.len(),
            copy@.len() == r,
            forall|i: int| 0 <= i < r ==> (#[trigger] copy@[i])@ == table@[i]@,
        decreases table@.len() - r,
    {
        let mut row: Vec<T> = Vec::new();
        let mut c: usize = 0;
        while c < table[r].len()
            invariant
                r < table@.len(),
                c <= table@[r as int]@.len(),
                row@.len() == c,
                forall|j: int| 0 <= j < c ==> #[trigger] row@[j] == table@[r as int]@[j],
            decreases table@[r as int]@.len() - c,
        {
            row.push(table[r][c]);
            c += 1;
        }
        assert(row@ =~= table@[r as int]@);
        copy.push(row);
        r += 1;
    }
    assert(table_view(copy) =~= table_view(*table));
    copy
}

fn copy_texts(texts: &Vec<String>) -> (copy: Vec<String>)
    ensures
        crate::text::strings_view(copy) == crate::text::strings_view(*texts),
{
    let mut copy: Vec<String> = Vec::new();
    let mut i: usize = 0;
    while i < texts.len()
        invariant
            i <= texts@.len(),
            copy@.len() == i,
            forall|j: int| 0 <= j < i ==> (#[trigger] copy@[j])@ == texts@[j]@,
        decreases texts@.len() - i,
    {
        copy.push(texts[i].clone());
        i += 1;
    }
    assert(crate::text::strings_view(copy) =~= crate::text::strings_view(*texts));
    copy
}

fn copy_pens(pens: &Vec<PenJson>) -> (copy: Vec<PenJson>)
    ensures
        pens_view(copy) == pens_view(*pens),
{
    let mut copy: Vec<PenJson> = Vec::new();
    let mut i: usize = 0;
    while i < pens.len()
        invariant
            i <= pens@.len(),
            copy@.len() == i,
            forall|j: int| 0 <= j < i ==> (#[trigger] copy@[j])@ == pens@[j]@,
        decreases pens@.len() - i,
    {
        let pen = &pens[i];
        copy.push(PenJson { fg: pen.fg, bg: pen.bg, attrs: copy_texts(&pen.attrs) });
        i += 1;
    }
    assert(pens_view(copy) =~= pens_view(*pens));
    copy
}

fn named(name: &str, field: JsonField) -> (entry: (String, JsonField))
    ensures
        entry.0@ == name@,
        entry.1@ == field@,
{
    (String::from_str(name), field)
}

fn push_style_fields(data: &mut Vec<(String, JsonField)>, style: &Option<StyleData>)
    ensures
        fields_view(*final(data)) == fields_view(*old(data)) + style_fields(
            crate::session::style_view(*style),
        ),
{
    match style {
        Some(style) => {
            data.push(named("charMap", JsonField::CharMap(copy_table(&style.char_map))));
            data.push(named("styleMap", JsonField::StyleMap(copy_table(&style.style_map))));
            data.push(named("styles", JsonField::Styles(copy_pens(&style.styles))));
            assert(style@.styles =~= pens_view(style.styles));
            assert(fields_view(*data) =~= fields_view(*old(data)) + style_fields(Some(style@)));
        },
        None => {
            assert(fields_view(*data) =~= fields_view(*old(data)) + style_fields(None));
        },
    }
}

/// A list of fields by what each holds.
pub open spec fn fields_view(data: Vec<(String, JsonField)>) -> Seq<(Seq<char>, JsonFieldView)> {
    Seq::new(data@.len(), |i: int| (data@[i].0@, data@[i].1@))
}

impl Event {
    /// The type tag under which clients are sent the event.
    pub fn kind(&self) -> (kind: &'static str)
        ensures
            kind@ == event_kind(self@),
    {
        match self {
            Event::Init(..) => "init",
            Event::Output(..) => "output",
            Event::Resize(..) => "resize",
            Event::Snapshot(..) => "snapshot",
            Event::Pid(..) => "pid",
            Event::ExitCode(..) => "exitCode",
            Event::Debug(..) => "debug",
            Event::Completed(..) => "commandCompleted",
        }
    }

    /// The event as clients are sent it.
    pub fn to_json(&self) -> (json: EventJson)
        ensures
            json@ == event_json(self@),
    {
        let mut data: Vec<(String, JsonField)> = Vec::new();
        match self {
            Event::Init(_time, cols, rows, pid, seq, text, style) => {
                data.push(named("cols", JsonField::Number(*cols as i128)));
                data.push(named("rows", JsonField::Number(*rows as i128)));
                data.push(named("pid", JsonField::Number(*pid as i128)));
                data.push(named("seq", JsonField::Text(seq.clone())));
                data.push(named("text", JsonField::Text(text.clone())));
                push_style_fields(&mut data, style);
                assert(fields_view(data) =~= event_data(self@));
            },
            Event::Output(_time, seq) => {
                data.push(named("seq", JsonField::Text(seq.clone())));
                assert(fields_view(data) =~= event_data(self@));
            },
            Event::Resize(_time, cols, rows) => {
                data.push(named("cols", JsonField::Number(*cols as i128)));
                data.push(named("rows", JsonField::Number(*rows as i128)));
                assert(fields_view(data) =~= event_data(self@));
            },
            Event::Snapshot(cols, rows, seq, text, style) => {
                data.push(named("cols", JsonField::Number(*cols as i128)));
                data.push(named("rows", JsonField::Number(*rows as i128)));
                data.push(named("seq", JsonField::Text(seq.clone())));
                data.push(named("text", JsonField::Text(text.clone())));
                push_style_fields(&mut data, style);
                assert(fields_view(data) =~= event_data(self@));
            },
            Event::Pid(_time, pid) => {
                data.push(named("pid", JsonField::Number(*pid as i128)));
                assert(fields_view(data) =~= event_data(self@));
            },
            Event::ExitCode(_time, code) => {
                data.push(named("exitCode", JsonField::Number(*code as i128)));
                assert(fields_view(data) =~= event_data(self@));
            },
            Event::Debug(_time, message) => {
                data.push(named("message", JsonField::Text(message.clone())));
                assert(fields_view(data) =~= event_data(self@));
            },
            Event::Completed(time) => {
                data.push(named("time", JsonField::Seconds(*time)));
                assert(fields_view(data) =~= event_data(self@));
            },
        }
        EventJson { kind: String::from_str(self.kind()), data }
    }
}

} // verus!
