//! The texts that go out to subscribers: progress payloads, snapshot
//! payloads and the event frames that carry them.

use vstd::prelude::*;
use crate::decimal::{decimal_digits, push_decimal};
use crate::registry::{lines_of, TrackFile, TrackFileView};
use crate::text::{chars_of, push_text, string_of};

verus! {

/// The payload that tells a displaced subscriber that a newer one has
/// taken its place.
pub open spec fn replaced_notice() -> Seq<char> {
    "CONNECTION_REPLACED"@
}

/// The payload that a payload channel holds before anything is published:
/// a snapshot without lines.
pub open spec fn empty_snapshot() -> Seq<char> {
    "[]"@
}

/// The lower-case hexadecimal digit for a value below sixteen.
pub open spec fn hex_digit(value: nat) -> char {
    if value < 10 {
        ('0' as nat + value) as char
    } else {
        ('a' as nat + value - 10) as char
    }
}

/// How one character stands inside a JSON string: the quotation mark and
/// the reverse solidus behind a reverse solidus, the control characters
/// below U+0020 by their short escape where JSON has one and as `\u00XX`
/// otherwise, every other character as it is.
pub open spec fn escaped_char(c: char) -> Seq<char> {
    if c == '"' {
        seq!['\\', '"']
    } else if c == '\\' {
        seq!['\\', '\\']
    } else if c == '\u{8}' {
        seq!['\\', 'b']
    } else if c == '\t' {
        seq!['\\', 't']
    } else if c == '\n' {
        seq!['\\', 'n']
    } else if c == '\u{c}' {
        seq!['\\', 'f']
    } else if c == '\r' {
        seq!['\\', 'r']
    } else if (c as nat) < 0x20 {
        seq!['\\', 'u', '0', '0', hex_digit(c as nat / 16), hex_digit(c as nat % 16)]
    } else {
        seq![c]
    }
}

/// A text with each character as it stands inside a JSON string.
pub open spec fn escaped(text: Seq<char>) -> Seq<char>
    decreases text.len(),
{
    if text.len() == 0 {
        Seq::empty()
    } else {
        escaped(text.drop_last()) + escaped_char(text.last())
    }
}

/// A text as a JSON string: escaped, between quotation marks.
pub open spec fn json_string(text: Seq<char>) -> Seq<char> {
    seq!['"'] + escaped(text) + seq!['"']
}

/// One line of a snapshot as a JSON object, with the members `size`,
/// `name` and `progress` in this order and no blanks.
pub open spec fn line_json(line: TrackFileView) -> Seq<char> {
    "{\"size\":"@ + decimal_digits(line.size) + ",\"name\":"@ + json_string(line.name)
        + ",\"progress\":"@ + decimal_digits(line.progress) + "}"@
}

/// The lines of a snapshot as JSON objects with commas between them.
pub open spec fn lines_json(lines: Seq<TrackFileView>) -> Seq<char>
    decreases lines.len(),
{
    if lines.len() == 0 {
        Seq::empty()
    } else if lines.len() == 1 {
        line_json(lines[0])
    } else {
        lines_json(lines.drop_last()) + seq![','] + line_json(lines.last())
    }
}

/// A snapshot as a JSON array of its lines.
pub open spec fn snapshot_json(lines: Seq<TrackFileView>) -> Seq<char> {
    seq!['['] + lines_json(lines) + seq![']']
}

/// A run of texts as JSON strings with commas between them.
pub open spec fn strings_json(texts: Seq<Seq<char>>) -> Seq<char>
    decreases texts.len(),
{
    if texts.len() == 0 {
        Seq::empty()
    } else if texts.len() == 1 {
        json_string(texts[0])
    } else {
        strings_json(texts.drop_last()) + seq![','] + json_string(texts.last())
    }
}

/// A run of texts as a JSON array of strings.
pub open spec fn names_json(texts: Seq<Seq<char>>) -> Seq<char> {
    seq!['['] + strings_json(texts) + seq![']']
}

/// The views of a run of strings.
pub open spec fn texts_of(names: Seq<String>) -> Seq<Seq<char>> {
    names.map_values(|name: String| name@)
}

/// The payload that reports the progress of one transfer.
pub open spec fn progress_json(progress: nat) -> Seq<char> {
    "{ \"progress\": "@ + decimal_digits(progress) + " }"@
}

/// A payload as one event of an event stream.
pub open spec fn event_of(payload: Seq<char>) -> Seq<char> {
    "data: "@ + payload + "\n\n"@
}

/// The lower-case hexadecimal digit for a value below sixteen.
pub fn to_hex_digit(value: u8) -> (c: char)
    requires
        value < 16,
    ensures
        c == hex_digit(value as nat),
{
    if value < 10 {
        (48u8 + value) as char
    } else {
        (87u8 + value) as char
    }
}

/// Appends `c` to `out` as it stands inside a JSON string.
pub fn push_escaped_char(out: &mut Vec<char>, c: char)
    ensures
        final(out)@ == old(out)@ + escaped_char(c),
{
    if c == '"' {
        out.push('\\');
        out.push('"');
    } else if c == '\\' {
        out.push('\\');
        out.push('\\');
    } else if c == '\u{8}' {
        out.push('\\');
        out.push('b');
    } else if c == '\t' {
        out.push('\\');
        out.push('t');
    } else if c == '\n' {
        out.push('\\');
        out.push('n');
    } else if c == '\u{c}' {
        out.push('\\');
        out.push('f');
    } else if c == '\r' {
        out.push('\\');
        out.push('r');
    } else if (c as u32) < 0x20 {
        let code: u8 = c as u8;
        out.push('\\');
        out.push('u');
        out.push('0');
        out.push('0');
        out.push(to_hex_digit(code / 16));
        out.push(to_hex_digit(code % 16));
    } else {
        out.push(c);
    }
    assert(out@ =~= old(out)@ + escaped_char(c));
}

/// Appends `text` to `out` as a JSON string, character by character.
pub fn push_escaped_string(out: &mut Vec<char>, text: &str)
    ensures
        final(out)@ == old(out)@ + json_string(text@),
{
    let chars = chars_of(text);
    out.push('"');
    let ghost head = old(out)@ + seq!['"'];
    assert(chars@.take(0) =~= Seq::<char>::empty());
    let mut i: usize = 0;
    while i < chars.len()
        invariant
            i <= chars.len(),
            out@ == head + escaped(chars@.take(i as int)),
        decreases chars.len() - i,
    {
        assert(chars@.take(i + 1).drop_last() =~= chars@.take(i as int));
        push_escaped_char(out, chars[i]);
        assert(out@ =~= head + escaped(chars@.take(i + 1)));
        i += 1;
    }
    assert(chars@.take(i as int) =~= chars@);
    out.push('"');
    assert(out@ =~= old(out)@ + json_string(text@));
}

/// Writes a text as a JSON string with `serde_json::to_string`: the text
/// between quotation marks, with the quotation mark, the reverse solidus
/// and the control characters below U+0020 escaped as [`escaped_char`]
/// says and every other character as it is.
#[verifier::external_body]
pub(crate) fn json_of_text(text: &str) -> (json: Option<String>)
    ensures
        json matches Some(written) ==> written@ == json_string(text@),
{
    serde_json::to_string(text).ok()
}

/// Writes a run of names as a JSON array with `serde_json::to_string`: the
/// names as JSON strings, with commas between them and no blanks, between
/// square brackets.
#[verifier::external_body]
pub(crate) fn json_of_names(names: &Vec<String>) -> (json: Option<String>)
    ensures
        json matches Some(written) ==> written@ == names_json(texts_of(names@)),
{
    serde_json::to_string(names).ok()
}

/// Appends `text` to `out` as a JSON string. The serialiser writes it;
/// should it refuse, the text is escaped here by the same rule.
pub fn push_json_string(out: &mut Vec<char>, text: &str)
    ensures
        final(out)@ == old(out)@ + json_string(text@),
{
    match json_of_text(text) {
        Some(written) => {
            push_text(out, written.as_str());
        },
        None => {
            push_escaped_string(out, text);
        },
    }
}

/// Appends one line of a snapshot to `out` as a JSON object.
pub fn push_line(out: &mut Vec<char>, line: &TrackFile)
    ensures
        final(out)@ == old(out)@ + line_json(line@),
{
    push_text(out, "{\"size\":");
    push_decimal(out, line.size);
    push_text(out, ",\"name\":");
    push_json_string(out, line.name.as_str());
    push_text(out, ",\"progress\":");
    push_decimal(out, line.progress as usize);
    push_text(out, "}");
    assert(out@ =~= old(out)@ + line_json(line@));
}

/// The payload for a snapshot: a JSON array with one object per line.
pub fn snapshot_payload(lines: &Vec<TrackFile>) -> (payload: String)
    ensures
        payload@ == snapshot_json(lines_of(lines@)),
{
    let ghost views = lines_of(lines@);
    let mut out: Vec<char> = Vec::new();
    out.push('[');
    assert(views.take(0) =~= Seq::<TrackFileView>::empty());
    let mut i: usize = 0;
    while i < lines.len()
        invariant
            i <= lines.len(),
            views == lines_of(lines@),
            out@ == seq!['['] + lines_json(views.take(i as int)),
        decreases lines.len() - i,
    {
        let ghost upto = views.take(i + 1);
        assert(upto.drop_last() =~= views.take(i as int));
        assert(upto.last() == lines@[i as int]@);
        if i > 0 {
            out.push(',');
        }
        push_line(&mut out, &lines[i]);
        assert(out@ =~= seq!['['] + lines_json(upto)) by {
            if i == 0 {
                assert(upto[0] == upto.last());
            }
        }
        i += 1;
    }
    assert(views.take(i as int) =~= views);
    out.push(']');
    assert(out@ =~= snapshot_json(views));
    string_of(&out)
}

/// The payload for a run of names: a JSON array of strings. The
/// serialiser writes it; should it refuse, the array is written here by
/// the same rule.
pub fn names_payload(names: &Vec<String>) -> (payload: String)
    ensures
        payload@ == names_json(texts_of(names@)),
{
    match json_of_names(names) {
        Some(written) => written,
        None => names_array(names),
    }
}

/// A run of names as a JSON array of strings, name by name.
pub fn names_array(names: &Vec<String>) -> (payload: String)
    ensures
        payload@ == names_json(texts_of(names@)),
{
    let ghost texts = texts_of(names@);
    let mut out: Vec<char> = Vec::new();
    out.push('[');
    assert(texts.take(0) =~= Seq::<Seq<char>>::empty());
    let mut i: usize = 0;
    while i < names.len()
        invariant
            i <= names.len(),
            texts == texts_of(names@),
            out@ == seq!['['] + strings_json(texts.take(i as int)),
        decreases names.len() - i,
    {
        let ghost upto = texts.take(i + 1);
        assert(upto.drop_last() =~= texts.take(i as int));
        assert(upto.last() == names@[i as int]@);
        if i > 0 {
            out.push(',');
        }
        push_json_string(&mut out, names[i].as_str());
        assert(out@ =~= seq!['['] + strings_json(upto)) by {
            if i == 0 {
                assert(upto[0] == upto.last());
            }
        }
        i += 1;
    }
    assert(texts.take(i as int) =~= texts);
    out.push(']');
    assert(out@ =~= names_json(texts));
    string_of(&out)
}

/// The payload that reports `progress`.
pub fn progress_payload(progress: u8) -> (payload: String)
    ensures
        payload@ == progress_json(progress as nat),
{
    let mut out: Vec<char> = Vec::new();
    push_text(&mut out, "{ \"progress\": ");
    push_decimal(&mut out, progress as usize);
    push_text(&mut out, " }");
    assert(out@ =~= progress_json(progress as nat));
    string_of(&out)
}

/// A payload framed as one event of an event stream.
pub fn event_frame(payload: &str) -> (frame: String)
    ensures
        frame@ == event_of(payload@),
{
    let mut out: Vec<char> = Vec::new();
    push_text(&mut out, "data: ");
    push_text(&mut out, payload);
    push_text(&mut out, "\n\n");
    assert(out@ =~= event_of(payload@));
    string_of(&out)
}

} // verus!
