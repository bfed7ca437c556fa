use htty::json::{EventJson, JsonField};
use htty::session::Event;
use htty::style::{PenJson, StyleData};
use htty::vt::Pen;

fn field(name: &str, value: JsonField) -> (String, JsonField) {
    (name.to_string(), value)
}

fn text(value: &str) -> JsonField {
    JsonField::Text(value.to_string())
}

fn style() -> StyleData {
    StyleData {
        char_map: vec![vec!['a', 'b']],
        style_map: vec![vec![0, 1]],
        styles: vec![PenJson::from(&Pen::default()), PenJson { fg: None, bg: None, attrs: vec!["bold".to_string()] }],
    }
}

fn style_fields() -> Vec<(String, JsonField)> {
    vec![
        field("charMap", JsonField::CharMap(style().char_map)),
        field("styleMap", JsonField::StyleMap(style().style_map)),
        field("styles", JsonField::Styles(style().styles)),
    ]
}

#[test]
fn init_has_size_pid_dump_and_text() {
    let event = Event::Init(5, 20, 5, 77, "seq".to_string(), "text".to_string(), None);
    assert_eq!(event.kind(), "init");
    assert_eq!(
        event.to_json(),
        EventJson {
            kind: "init".to_string(),
            data: vec![
                field("cols", JsonField::Number(20)),
                field("rows", JsonField::Number(5)),
                field("pid", JsonField::Number(77)),
                field("seq", text("seq")),
                field("text", text("text")),
            ],
        }
    );
}

#[test]
fn init_with_style_has_the_three_style_fields() {
    let event = Event::Init(5, 2, 1, 0, String::new(), "ab".to_string(), Some(style()));
    let mut data = vec![
        field("cols", JsonField::Number(2)),
        field("rows", JsonField::Number(1)),
        field("pid", JsonField::Number(0)),
        field("seq", text("")),
        field("text", text("ab")),
    ];
    data.extend(style_fields());
    assert_eq!(event.to_json(), EventJson { kind: "init".to_string(), data });
}

#[test]
fn snapshot_is_init_without_pid() {
    let event = Event::Snapshot(2, 1, "s".to_string(), "ab".to_string(), None);
    assert_eq!(
        event.to_json(),
        EventJson {
            kind: "snapshot".to_string(),
            data: vec![
                field("cols", JsonField::Number(2)),
                field("rows", JsonField::Number(1)),
                field("seq", text("s")),
                field("text", text("ab")),
            ],
        }
    );
    let styled = Event::Snapshot(2, 1, "s".to_string(), "ab".to_string(), Some(style()));
    let json = styled.to_json();
    assert_eq!(json.data.len(), 7);
    assert_eq!(&json.data[4..], &style_fields()[..]);
}

#[test]
fn output_has_the_text() {
    assert_eq!(
        Event::Output(1, "hi\r\n".to_string()).to_json(),
        EventJson { kind: "output".to_string(), data: vec![field("seq", text("hi\r\n"))] }
    );
}

#[test]
fn resize_has_the_size() {
    assert_eq!(
        Event::Resize(1, 40, 10).to_json(),
        EventJson {
            kind: "resize".to_string(),
            data: vec![field("cols", JsonField::Number(40)), field("rows", JsonField::Number(10))],
        }
    );
}

#[test]
fn pid_and_exit_code_have_their_number() {
    assert_eq!(
        Event::Pid(1, 4321).to_json(),
        EventJson { kind: "pid".to_string(), data: vec![field("pid", JsonField::Number(4321))] }
    );
    assert_eq!(
        Event::ExitCode(1, 143).to_json(),
        EventJson { kind: "exitCode".to_string(), data: vec![field("exitCode", JsonField::Number(143))] }
    );
    assert_eq!(
        Event::ExitCode(1, -1).to_json(),
        EventJson { kind: "exitCode".to_string(), data: vec![field("exitCode", JsonField::Number(-1))] }
    );
}

#[test]
fn debug_has_the_message() {
    assert_eq!(
        Event::Debug(1, "ptyHeartbeat".to_string()).to_json(),
        EventJson { kind: "debug".to_string(), data: vec![field("message", text("ptyHeartbeat"))] }
    );
}

#[test]
fn completed_has_the_time() {
    assert_eq!(
        Event::Completed(1_500_000_000).to_json(),
        EventJson {
            kind: "commandCompleted".to_string(),
            data: vec![field("time", JsonField::Seconds(1_500_000_000))],
        }
    );
}
