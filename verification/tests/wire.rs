use droppa::registry::TrackFile;
use droppa::wire::{
    event_frame, names_array, names_payload, progress_payload, push_escaped_char,
    push_escaped_string, push_json_string, push_line, snapshot_payload, to_hex_digit,
};

#[test]
fn a_snapshot_is_a_compact_array() {
    assert_eq!(snapshot_payload(&Vec::new()), "[]");
    let lines = vec![
        TrackFile { size: 1_048_576, name: "report.pdf".to_string(), progress: 25 },
        TrackFile { size: 0, name: "".to_string(), progress: 0 },
        TrackFile { size: 7, name: "a \"b\"".to_string(), progress: 100 },
    ];
    assert_eq!(
        snapshot_payload(&lines),
        "[{\"size\":1048576,\"name\":\"report.pdf\",\"progress\":25},\
{\"size\":0,\"name\":\"\",\"progress\":0},\
{\"size\":7,\"name\":\"a \\\"b\\\"\",\"progress\":100}]"
    );
}

#[test]
fn a_snapshot_reads_back_as_json() {
    let lines = vec![
        TrackFile { size: 12, name: "tab\there \\ \u{1f600} \u{7f}\u{0}".to_string(), progress: 5 },
        TrackFile { size: usize::MAX, name: "line\nbreak".to_string(), progress: 95 },
    ];
    let parsed: serde_json::Value =
        serde_json::from_str(&snapshot_payload(&lines)).expect("the payload is JSON");
    let array = parsed.as_array().expect("the payload is an array");
    assert_eq!(array.len(), 2);
    assert_eq!(array[0]["size"].as_u64(), Some(12));
    assert_eq!(array[0]["name"].as_str(), Some("tab\there \\ \u{1f600} \u{7f}\u{0}"));
    assert_eq!(array[0]["progress"].as_u64(), Some(5));
    assert_eq!(array[1]["size"].as_u64(), Some(usize::MAX as u64));
    assert_eq!(array[1]["name"].as_str(), Some("line\nbreak"));
    assert_eq!(array[1]["progress"].as_u64(), Some(95));
}

#[test]
fn names_are_escaped_as_json_strings() {
    for code in 0..0x300u32 {
        let c = char::from_u32(code).expect("a character below the surrogates");
        let text = format!("a{}b", c);
        let mut out = Vec::new();
        push_escaped_string(&mut out, &text);
        let ours: String = out.iter().collect();
        let theirs = serde_json::to_string(&text).expect("a string is serialised");
        assert_eq!(ours, theirs);
        let mut out = vec!['x'];
        push_json_string(&mut out, &text);
        let through: String = out.iter().collect();
        assert_eq!(through, format!("x{}", theirs));
    }
    let mut out = vec!['x'];
    push_escaped_char(&mut out, '\u{1f}');
    push_escaped_char(&mut out, '"');
    push_escaped_char(&mut out, '\u{1f600}');
    let text: String = out.iter().collect();
    assert_eq!(text, "x\\u001f\\\"\u{1f600}");
    assert_eq!(to_hex_digit(0), '0');
    assert_eq!(to_hex_digit(10), 'a');
    assert_eq!(to_hex_digit(15), 'f');
}

#[test]
fn a_line_is_an_object_with_three_members() {
    let mut out = Vec::new();
    push_line(&mut out, &TrackFile { size: 3, name: "n".to_string(), progress: 50 });
    let text: String = out.iter().collect();
    assert_eq!(text, "{\"size\":3,\"name\":\"n\",\"progress\":50}");
}

#[test]
fn progress_is_framed_as_an_event() {
    assert_eq!(progress_payload(0), "{ \"progress\": 0 }");
    assert_eq!(progress_payload(100), "{ \"progress\": 100 }");
    assert_eq!(event_frame(&progress_payload(45)), "data: { \"progress\": 45 }\n\n");
    assert_eq!(event_frame("CONNECTION_REPLACED"), "data: CONNECTION_REPLACED\n\n");
    assert_eq!(event_frame("[]"), "data: []\n\n");
    assert_eq!(event_frame(""), "data: \n\n");
}

#[test]
fn both_ways_of_writing_names_agree() {
    let names = vec![
        "".to_string(),
        "plain".to_string(),
        "q\"uote \\ \u{1}\u{8}\t\n\u{c}\r\u{1f} \u{7f}".to_string(),
        "\u{e9}\u{4e2d}\u{1f600}".to_string(),
    ];
    let expected = serde_json::to_string(&names).expect("strings are serialised");
    assert_eq!(names_payload(&names), expected);
    assert_eq!(names_array(&names), expected);
    assert_eq!(names_array(&Vec::new()), "[]");
}
