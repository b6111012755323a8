//! Server-sent events: framing, reading and rewriting them.

use crate::errors::{bad_gateway, ErrorData, RelayError};
use crate::text::{
    chars_of, first_index, index_of, lemma_first_index, same_text, string_between,
};
use vstd::prelude::*;
use vstd::string::*;
use vstd::utf8::*;

verus! {

/// Whether an event ends before place `e`: two line ends of one kind stand
/// there.
pub open spec fn is_event_end(b: Seq<u8>, e: int) -> bool {
    &&& 0 <= e <= b.len()
    &&& {
        ||| e >= 4 && b[e - 4] == 13 && b[e - 3] == 10 && b[e - 2] == 13 && b[e - 1] == 10
        ||| e >= 2 && b[e - 2] == 10 && b[e - 1] == 10
        ||| e >= 2 && b[e - 2] == 13 && b[e - 1] == 13
    }
}

/// The first end of an event at or after `e`.
pub open spec fn event_end_from(b: Seq<u8>, e: int) -> Option<int>
    decreases b.len() - e + 1,
{
    if e < 0 || e > b.len() {
        None
    } else if is_event_end(b, e) {
        Some(e)
    } else {
        event_end_from(b, e + 1)
    }
}

/// Where the first event of `b` ends, if it is all there.
pub open spec fn first_event_end(b: Seq<u8>) -> Option<int> {
    event_end_from(b, 0)
}

/// The first end found is an end, and none comes before it.
pub proof fn lemma_event_end_from(b: Seq<u8>, e: int)
    requires
        0 <= e,
    ensures
        event_end_from(b, e) matches Some(end) ==> e <= end <= b.len() && is_event_end(b, end),
        event_end_from(b, e) matches Some(end) ==> forall|k: int|
            e <= k < end ==> !is_event_end(b, k),
        event_end_from(b, e) is None ==> forall|k: int| e <= k <= b.len() ==> !is_event_end(b, k),
    decreases b.len() - e + 1,
{
    if e <= b.len() && !is_event_end(b, e) {
        lemma_event_end_from(b, e + 1);
    }
}

/// An end with none before it is the first.
proof fn lemma_event_end_unique(b: Seq<u8>, e: int, end: int)
    requires
        0 <= e <= end,
        is_event_end(b, end),
        forall|k: int| e <= k < end ==> !is_event_end(b, k),
    ensures
        event_end_from(b, e) == Some(end),
    decreases end - e,
{
    if e < end {
        assert(!is_event_end(b, e));
        lemma_event_end_unique(b, e + 1, end);
    }
}

/// An event that is all there ends where it does whatever follows it: how a
/// stream is cut into chunks does not move the ends of its events.
pub proof fn law_chunks_do_not_move_events(b: Seq<u8>, more: Seq<u8>)
    ensures
        first_event_end(b) matches Some(end) ==> first_event_end(b + more) == Some(end) && (b
            + more).take(end) == b.take(end) && (b + more).skip(end) == b.skip(end) + more,
{
    if let Some(end) = first_event_end(b) {
        lemma_event_end_from(b, 0);
        assert forall|k: int| 0 <= k <= b.len() implies is_event_end(b + more, k) == is_event_end(
            b,
            k,
        ) by {}
        assert forall|k: int| 0 <= k < end implies !is_event_end(b + more, k) by {
            assert(!is_event_end(b, k));
        }
        lemma_event_end_unique(b + more, 0, end);
        assert((b + more).take(end) =~= b.take(end));
        assert((b + more).skip(end) =~= b.skip(end) + more);
    }
}

/// Where the first event of `buffer` ends, if it is all there.
pub fn sse_event_end(buffer: &[u8]) -> (r: Option<usize>)
    ensures
        r is Some <==> first_event_end(buffer@) is Some,
        r matches Some(end) ==> first_event_end(buffer@) == Some(end as int) && 2 <= end
            <= buffer@.len(),
{
    let total: usize = buffer.len();
    let mut e: usize = 0;
    while e < total
        invariant
            e <= total == buffer@.len(),
            first_event_end(buffer@) == event_end_from(buffer@, e as int),
        decreases total - e,
    {
        if ends_at(buffer, e) {
            return Some(e);
        }
        e = e + 1;
    }
    if ends_at(buffer, e) {
        Some(e)
    } else {
        proof {
            assert(event_end_from(buffer@, e + 1) is None);
        }
        None
    }
}

/// Whether an event ends before place `e`.
fn ends_at(buffer: &[u8], e: usize) -> (r: bool)
    requires
        e <= buffer@.len(),
    ensures
        r == is_event_end(buffer@, e as int),
        r ==> e >= 2,
{
    if e >= 4 && buffer[e - 4] == 13 && buffer[e - 3] == 10 && buffer[e - 2] == 13 && buffer[e - 1]
        == 10 {
        return true;
    }
    e >= 2 && ((buffer[e - 2] == 10 && buffer[e - 1] == 10) || (buffer[e - 2] == 13 && buffer[e - 1]
        == 13))
}

/// `s` without one carriage return at its end.
pub open spec fn without_return(s: Seq<char>) -> Seq<char> {
    if s.len() > 0 && s.last() == '\r' {
        s.drop_last()
    } else {
        s
    }
}

/// The lines of a text. A line ends with a line feed or with a carriage return
/// and a line feed; what follows the last of them is a line if it is not empty.
pub open spec fn text_lines(s: Seq<char>) -> Seq<Seq<char>>
    decreases s.len(),
{
    if s.len() == 0 {
        Seq::empty()
    } else {
        match first_index(s, '\n') {
            None => seq![s],
            Some(i) => if 0 <= i < s.len() {
                seq![without_return(s.take(i))] + text_lines(s.skip(i + 1))
            } else {
                Seq::empty()
            },
        }
    }
}

/// The lines of an event, each without a carriage return at its end.
pub open spec fn event_lines(s: Seq<char>) -> Seq<Seq<char>> {
    text_lines(s).map_values(|line: Seq<char>| without_return(line))
}

/// The name of the field on a line.
pub open spec fn field_name(line: Seq<char>) -> Seq<char> {
    match first_index(line, ':') {
        Some(i) => line.take(i),
        None => line,
    }
}

/// The value of the field on a line, without one space before it.
pub open spec fn field_value(line: Seq<char>) -> Seq<char> {
    match first_index(line, ':') {
        Some(i) => {
            let value = line.skip(i + 1);
            if value.len() > 0 && value[0] == ' ' {
                value.drop_first()
            } else {
                value
            }
        },
        None => Seq::empty(),
    }
}

/// The type that the lines give an event: that of the last `event` field.
pub open spec fn event_type_of(lines: Seq<Seq<char>>) -> Option<Seq<char>>
    decreases lines.len(),
{
    if lines.len() == 0 {
        None
    } else if field_name(lines.last()) == "event"@ {
        Some(field_value(lines.last()))
    } else {
        event_type_of(lines.drop_last())
    }
}

/// The data that the lines give an event: the values of all `data` fields, one
/// per line.
pub open spec fn event_data_of(lines: Seq<Seq<char>>) -> Option<Seq<char>>
    decreases lines.len(),
{
    if lines.len() == 0 {
        None
    } else {
        let before = event_data_of(lines.drop_last());
        if field_name(lines.last()) == "data"@ {
            match before {
                None => Some(field_value(lines.last())),
                Some(data) => Some(data + seq!['\n'] + field_value(lines.last())),
            }
        } else {
            before
        }
    }
}

/// What an event holds.
pub struct EventData {
    pub raw: Seq<u8>,
    pub event_type: Option<Seq<char>>,
    pub data: Option<Seq<char>>,
}

/// One event, as it came and as it was read.
#[derive(Debug)]
pub struct SseEvent {
    pub raw: Vec<u8>,
    pub event_type: Option<String>,
    pub data: Option<String>,
}

/// The characters of an optional text.
pub open spec fn optional_chars(text: Option<String>) -> Option<Seq<char>> {
    match text {
        Some(t) => Some(t@),
        None => None,
    }
}

impl View for SseEvent {
    type V = EventData;

    open spec fn view(&self) -> EventData {
        EventData {
            raw: self.raw@,
            event_type: optional_chars(self.event_type),
            data: optional_chars(self.data),
        }
    }
}

/// What the bytes of an event say.
pub open spec fn event_of(raw: Seq<u8>) -> EventData {
    let lines = event_lines(decode_utf8(raw));
    EventData { raw, event_type: event_type_of(lines), data: event_data_of(lines) }
}

/// Calls `std::str::from_utf8`: the text that the bytes encode, where they are
/// valid UTF-8.
#[verifier::external_body]
pub(crate) fn text_of_bytes(bytes: &[u8]) -> (r: Option<&str>)
    ensures
        r is Some <==> valid_utf8(bytes@),
        r matches Some(text) ==> encode_utf8(text@) == bytes@,
{
    std::str::from_utf8(bytes).ok()
}

/// The lines of a text.
pub(crate) fn lines_of(s: &str) -> (r: Vec<String>)
    ensures
        r@.map_values(|line: String| line@) == event_lines(s@),
{
    let chars = chars_of(s);
    let total: usize = chars.len();
    let mut out: Vec<String> = Vec::new();
    let mut from: usize = 0;
    proof {
        assert(chars@.skip(0) =~= s@);
        assert(event_lines(s@) =~= Seq::<Seq<char>>::empty() + event_lines(s@));
        assert(out@.map_values(|line: String| line@) =~= Seq::<Seq<char>>::empty());
    }
    while from < total
        invariant
            chars@ == s@,
            from <= total == chars@.len(),
            event_lines(s@) == out@.map_values(|line: String| line@) + event_lines(
                s@.skip(from as int),
            ),
        decreases total - from,
    {
        let ghost rest = s@.skip(from as int);
        let ghost before = out@.map_values(|line: String| line@);
        let rest_chars = vstd::slice::slice_subrange(chars.as_slice(), from, total);
        proof {
            assert(rest_chars@ =~= rest);
        }
        match index_of(rest_chars, '\n') {
            Some(i) => {
                let line = without_one_return(rest_chars, without_one_return(rest_chars, i));
                let text = string_between(rest_chars, 0, line);
                proof {
                    let first = without_return(rest.take(i as int));
                    assert(text@ =~= without_return(first));
                    assert(event_lines(rest) =~= seq![text@] + event_lines(rest.skip(i + 1)));
                    assert(rest.skip(i + 1) =~= s@.skip(from + i + 1));
                    assert(out@.push(text).map_values(|line: String| line@) =~= before.push(text@));
                    assert(before + (seq![text@] + event_lines(rest.skip(i + 1))) =~= before.push(
                        text@,
                    ) + event_lines(rest.skip(i + 1)));
                }
                out.push(text);
                from = from + i + 1;
            },
            None => {
                let line = without_one_return(rest_chars, rest_chars.len());
                let text = string_between(rest_chars, 0, line);
                proof {
                    assert(rest.take(rest.len() as int) =~= rest);
                    assert(text@ =~= without_return(rest));
                    assert(event_lines(rest) =~= seq![text@]);
                    assert(out@.push(text).map_values(|line: String| line@) =~= before.push(text@));
                    assert(s@.skip(total as int) =~= Seq::<char>::empty());
                    assert(event_lines(Seq::<char>::empty()) =~= Seq::<Seq<char>>::empty());
                    assert(before + seq![text@] =~= before.push(text@) + event_lines(
                        s@.skip(total as int),
                    ));
                }
                out.push(text);
                from = total;
            },
        }
    }
    proof {
        assert(s@.skip(from as int) =~= Seq::<char>::empty());
        assert(event_lines(Seq::<char>::empty()) =~= Seq::<Seq<char>>::empty());
        assert(out@.map_values(|line: String| line@) + Seq::<Seq<char>>::empty() =~= out@.map_values(
            |line: String| line@,
        ));
    }
    out
}

/// The length of the first `end` characters without one carriage return at
/// their end.
fn without_one_return(chars: &[char], end: usize) -> (r: usize)
    requires
        end <= chars@.len(),
    ensures
        r <= end,
        chars@.take(r as int) == without_return(chars@.take(end as int)),
{
    proof {
        if end > 0 {
            assert(chars@.take(end as int).last() == chars@[end - 1]);
            assert(chars@.take(end as int).drop_last() =~= chars@.take(end - 1));
        }
    }
    if end > 0 && chars[end - 1] == '\r' {
        end - 1
    } else {
        end
    }
}

/// The field on a line: its name and its value.
fn field_of(line: &str) -> (r: (String, String))
    ensures
        r.0@ == field_name(line@),
        r.1@ == field_value(line@),
{
    let chars = chars_of(line);
    let total: usize = chars.len();
    match index_of(chars.as_slice(), ':') {
        Some(i) => {
            let from: usize = if i + 1 < total && chars[i + 1] == ' ' {
                i + 2
            } else {
                i + 1
            };
            proof {
                assert(line@.subrange(0, i as int) =~= line@.take(i as int));
                assert(line@.subrange(from as int, total as int) =~= field_value(line@));
            }
            (string_between(chars.as_slice(), 0, i), string_between(chars.as_slice(), from, total))
        },
        None => (line.to_owned(), String::new()),
    }
}

/// What lines say of the type and the data of an event.
fn read_fields(lines: &Vec<String>) -> (r: (Option<String>, Option<String>))
    ensures
        ({
            let texts = lines@.map_values(|line: String| line@);
            &&& optional_chars(r.0) == event_type_of(texts)
            &&& optional_chars(r.1) == event_data_of(texts)
        }),
{
    let ghost texts = lines@.map_values(|line: String| line@);
    let mut event_type: Option<String> = None;
    let mut data: Option<String> = None;
    for i in 0..lines.len()
        invariant
            texts == lines@.map_values(|line: String| line@),
            optional_chars(event_type) == event_type_of(texts.take(i as int)),
            optional_chars(data) == event_data_of(texts.take(i as int)),
    {
        let (name, value) = field_of(lines[i].as_str());
        proof {
            assert(texts.take(i + 1).drop_last() =~= texts.take(i as int));
            assert(texts.take(i + 1).last() == lines@[i as int]@);
            reveal_strlit("event");
            reveal_strlit("data");
            assert("event"@.len() == 5 && "data"@.len() == 4);
        }
        if same_text(name.as_str(), "event") {
            event_type = Some(value);
        } else if same_text(name.as_str(), "data") {
            data = match data {
                None => Some(value),
                Some(so_far) => {
                    let mut joined_data = so_far;
                    joined_data.push('\n');
                    joined_data.append(value.as_str());
                    proof {
                        let parts = texts.take(i + 1);
                        assert(joined_data@ == event_data_of(parts)->0);
                    }
                    Some(joined_data)
                },
            };
        }
    }
    proof {
        assert(texts.take(texts.len() as int) =~= texts);
    }
    (event_type, data)
}

/// Reads events off the bytes of a stream.
#[derive(Debug)]
pub struct SseReader {
    pub buffered: Vec<u8>,
}

/// The answer to an event that is not valid UTF-8.
pub open spec fn not_utf8_data() -> ErrorData {
    bad_gateway("upstream SSE event is not valid UTF-8"@, Some("invalid_upstream_response"@))
}

/// What comes of taking the first event off the bytes of a stream.
pub open spec fn event_taken(
    before: Seq<u8>,
    after: Seq<u8>,
    r: Result<Option<SseEvent>, RelayError>,
) -> bool {
    match first_event_end(before) {
        None => after == before && r == Ok::<Option<SseEvent>, RelayError>(None),
        Some(end) => {
            let raw = before.take(end);
            &&& after == before.skip(end)
            &&& valid_utf8(raw) ==> r is Ok && r->Ok_0 is Some && r->Ok_0->0@ == event_of(raw)
            &&& !valid_utf8(raw) ==> r is Err && r->Err_0@ == not_utf8_data()
        },
    }
}

impl SseReader {
    /// A reader that has seen nothing.
    pub fn new() -> (r: Self)
        ensures
            r.buffered@ == Seq::<u8>::empty(),
    {
        SseReader { buffered: Vec::new() }
    }

    /// Takes the next bytes of the stream.
    pub fn push(&mut self, chunk: &[u8])
        ensures
            final(self).buffered@ == old(self).buffered@ + chunk@,
    {
        self.buffered.extend_from_slice(chunk);
    }

    /// Takes the first event off what was seen, if it is all there.
    pub fn next_event(&mut self) -> (r: Result<Option<SseEvent>, RelayError>)
        ensures
            event_taken(old(self).buffered@, final(self).buffered@, r),
    {
        match sse_event_end(self.buffered.as_slice()) {
            None => Ok(None),
            Some(end) => {
                let ghost before = self.buffered@;
                let mut raw = self.buffered.split_off(end);
                std::mem::swap(&mut raw, &mut self.buffered);
                proof {
                    assert(raw@ =~= before.take(end as int));
                    assert(self.buffered@ =~= before.skip(end as int));
                }
                match text_of_bytes(raw.as_slice()) {
                    None => Err(
                        RelayError::new(
                            502,
                            "upstream SSE event is not valid UTF-8",
                            "api_error",
                            None,
                            Some("invalid_upstream_response"),
                        ),
                    ),
                    Some(text) => {
                        proof {
                            encode_utf8_decode_utf8(text@);
                        }
                        let lines = lines_of(text);
                        let (event_type, data) = read_fields(&lines);
                        Ok(Some(SseEvent { raw, event_type, data }))
                    },
                }
            },
        }
    }
}

/// A line names its field before the first colon and gives its value behind it,
/// without one blank; a line without a colon is a field without a value.
pub proof fn law_fields_are_read(name: Seq<char>, value: Seq<char>)
    requires
        !name.contains(':'),
    ensures
        field_name(name + seq![':', ' '] + value) == name,
        field_value(name + seq![':', ' '] + value) == value,
        field_name(name + seq![':'] + value) == name,
        (value.len() == 0 || value[0] != ' ') ==> field_value(name + seq![':'] + value) == value,
        field_name(name) == name,
        field_value(name) == Seq::<char>::empty(),
{
    let spaced = name + seq![':', ' '] + value;
    let bare = name + seq![':'] + value;
    let n = name.len() as int;
    assert forall|k: int| 0 <= k < n implies #[trigger] spaced[k] != ':' by {
        assert(spaced[k] == name[k]);
        assert(name.contains(name[k]));
    }
    assert forall|k: int| 0 <= k < n implies #[trigger] bare[k] != ':' by {
        assert(bare[k] == name[k]);
        assert(name.contains(name[k]));
    }
    assert forall|k: int| 0 <= k < n implies #[trigger] name[k] != ':' by {
        assert(name.contains(name[k]));
    }
    assert(spaced[n] == ':' && bare[n] == ':');
    lemma_first_index(spaced, ':', n);
    lemma_first_index(bare, ':', n);
    lemma_first_index(name, ':', n);
    assert(spaced.take(n) =~= name);
    assert(bare.take(n) =~= name);
    assert(spaced.skip(n + 1)[0] == ' ');
    assert(spaced.skip(n + 1).drop_first() =~= value);
    assert(bare.skip(n + 1) =~= value);
}

/// Whether none of the lines gives a field of a name.
pub open spec fn no_field(lines: Seq<Seq<char>>, name: Seq<char>) -> bool {
    forall|i: int| 0 <= i < lines.len() ==> field_name(#[trigger] lines[i]) != name
}

/// The data of an event is that of its data lines, whatever stands between
/// them: without one it has none, one gives its value, and each further one is
/// put on a line of its own behind it.
pub proof fn law_data_lines_are_gathered(
    before: Seq<Seq<char>>,
    line: Seq<char>,
    after: Seq<Seq<char>>,
)
    requires
        field_name(line) == "data"@,
        no_field(after, "data"@),
    ensures
        no_field(before, "data"@) ==> event_data_of(before) is None && event_data_of(
            before.push(line) + after,
        ) == Some(field_value(line)),
        event_data_of(before) matches Some(data) ==> event_data_of(before.push(line) + after)
            == Some(data + seq!['\n'] + field_value(line)),
    decreases before.len() + after.len(),
{
    let all = before.push(line) + after;
    if after.len() > 0 {
        let front = after.drop_last();
        assert(all.drop_last() =~= before.push(line) + front);
        assert(all.last() == after[after.len() - 1]);
        assert forall|i: int| 0 <= i < front.len() implies field_name(#[trigger] front[i])
            != "data"@ by {
            assert(front[i] == after[i]);
        }
        law_data_lines_are_gathered(before, line, front);
    } else {
        assert(all =~= before.push(line));
        assert(all.drop_last() =~= before);
        lemma_no_data(before);
    }
}

/// Lines without a data field give no data.
proof fn lemma_no_data(lines: Seq<Seq<char>>)
    ensures
        no_field(lines, "data"@) ==> event_data_of(lines) is None,
    decreases lines.len(),
{
    if no_field(lines, "data"@) && lines.len() > 0 {
        let front = lines.drop_last();
        assert(field_name(lines[lines.len() - 1]) != "data"@);
        assert forall|i: int| 0 <= i < front.len() implies field_name(#[trigger] front[i])
            != "data"@ by {
            assert(front[i] == lines[i]);
        }
        lemma_no_data(front);
    }
}

/// The type of an event is that of its last event line, and none without one.
pub proof fn law_the_last_event_line_gives_the_type(
    before: Seq<Seq<char>>,
    line: Seq<char>,
    after: Seq<Seq<char>>,
)
    requires
        field_name(line) == "event"@,
        no_field(after, "event"@),
    ensures
        event_type_of(before.push(line) + after) == Some(field_value(line)),
        event_type_of(after) is None,
    decreases after.len(),
{
    let all = before.push(line) + after;
    if after.len() > 0 {
        let front = after.drop_last();
        assert(all.drop_last() =~= before.push(line) + front);
        assert(all.last() == after[after.len() - 1]);
        assert(field_name(after[after.len() - 1]) != "event"@);
        assert forall|i: int| 0 <= i < front.len() implies field_name(#[trigger] front[i])
            != "event"@ by {
            assert(front[i] == after[i]);
        }
        law_the_last_event_line_gives_the_type(before, line, front);
    } else {
        assert(all =~= before.push(line));
        assert(all.last() == line);
    }
}

/// A text is cut into lines at its line feeds; a carriage return before one, or
/// at the end of the text, is no part of a line.
pub proof fn law_lines_are_cut(line: Seq<char>, rest: Seq<char>)
    requires
        !line.contains('\n'),
        !line.contains('\r'),
    ensures
        event_lines(line + seq!['\n'] + rest) == seq![line] + event_lines(rest),
        event_lines(line + seq!['\r', '\n'] + rest) == seq![line] + event_lines(rest),
        line.len() > 0 ==> event_lines(line) == seq![line],
        event_lines(Seq::<char>::empty()) == Seq::<Seq<char>>::empty(),
{
    let n = line.len() as int;
    let plain = line + seq!['\n'] + rest;
    let returned = line + seq!['\r', '\n'] + rest;
    assert forall|k: int| 0 <= k < n implies #[trigger] line[k] != '\n' && line[k] != '\r' by {
        assert(line.contains(line[k]));
    }
    assert forall|k: int| 0 <= k < n implies #[trigger] plain[k] != '\n' by {
        assert(plain[k] == line[k]);
    }
    assert forall|k: int| 0 <= k < n + 1 implies #[trigger] returned[k] != '\n' by {
        if k < n {
            assert(returned[k] == line[k]);
        }
    }
    lemma_first_index(plain, '\n', n);
    lemma_first_index(returned, '\n', n + 1);
    lemma_first_index(line, '\n', n);
    assert(plain.take(n) =~= line);
    assert(plain.skip(n + 1) =~= rest);
    assert(returned.take(n + 1) =~= line.push('\r'));
    assert(line.push('\r').drop_last() =~= line);
    assert(returned.skip(n + 2) =~= rest);
    if n > 0 {
        assert(line.last() == line[n - 1]);
        assert(event_lines(line) =~= seq![line]);
    }
    assert(event_lines(plain) =~= seq![line] + event_lines(rest));
    assert(event_lines(returned) =~= seq![line] + event_lines(rest));
    assert(event_lines(Seq::<char>::empty()) =~= Seq::<Seq<char>>::empty());
}

/// An event ends behind a blank line, be its lines ended by line feeds, by
/// carriage returns or by both; nothing less ends it.
pub proof fn law_blank_lines_end_events(b: Seq<u8>, end: int)
    ensures
        first_event_end(b + seq![10u8, 10u8]) matches Some(e) && e <= b.len() + 2,
        first_event_end(b + seq![13u8, 13u8]) matches Some(e) && e <= b.len() + 2,
        first_event_end(b + seq![13u8, 10u8, 13u8, 10u8]) matches Some(e) && e <= b.len() + 4,
        first_event_end(b) == Some(end) ==> 2 <= end <= b.len() && {
            ||| b[end - 2] == 10 && b[end - 1] == 10
            ||| b[end - 2] == 13 && b[end - 1] == 13
            ||| end >= 4 && b.subrange(end - 4, end) == seq![13u8, 10u8, 13u8, 10u8]
        },
        first_event_end(b) is None ==> forall|k: int|
            0 <= k < b.len() - 1 ==> !(#[trigger] b[k] == 10 && b[k + 1] == 10) && !(b[k] == 13
                && b[k + 1] == 13),
{
    let feeds = b + seq![10u8, 10u8];
    let carriage = b + seq![13u8, 13u8];
    let both = b + seq![13u8, 10u8, 13u8, 10u8];
    lemma_event_end_from(feeds, 0);
    lemma_event_end_from(carriage, 0);
    lemma_event_end_from(both, 0);
    lemma_event_end_from(b, 0);
    assert(is_event_end(feeds, feeds.len() as int));
    assert(is_event_end(carriage, carriage.len() as int));
    assert(is_event_end(both, both.len() as int));
    if first_event_end(b) == Some(end) && end >= 4 && b[end - 4] == 13 && b[end - 3] == 10 && b[end
        - 2] == 13 && b[end - 1] == 10 {
        assert(b.subrange(end - 4, end) =~= seq![13u8, 10u8, 13u8, 10u8]);
    }
    if first_event_end(b) is None {
        assert forall|k: int| 0 <= k < b.len() - 1 implies !(#[trigger] b[k] == 10 && b[k + 1] == 10)
            && !(b[k] == 13 && b[k + 1] == 13) by {
            assert(!is_event_end(b, k + 2));
        }
    }
}

/// What is read of an event is what its lines say, and its bytes are kept.
pub proof fn law_events_keep_their_bytes(raw: Seq<u8>)
    ensures
        event_of(raw).raw == raw,
        event_of(raw).data == event_data_of(event_lines(decode_utf8(raw))),
        event_of(raw).event_type == event_type_of(event_lines(decode_utf8(raw))),
{
}

/// Taking an event off a stream loses nothing: what was taken and what is left
/// make up what was there. An event that is no text is the upstream's fault.
pub proof fn law_taken_events_lose_nothing(
    before: Seq<u8>,
    after: Seq<u8>,
    r: Result<Option<SseEvent>, RelayError>,
)
    requires
        event_taken(before, after, r),
    ensures
        r matches Ok(None) ==> after == before && first_event_end(before) is None,
        r matches Ok(Some(event)) ==> event.raw@ + after == before,
        r matches Err(error) ==> error@.status == 502 && error@.code == Some(
            "invalid_upstream_response"@,
        ) && error@.message == "upstream SSE event is not valid UTF-8"@,
        r is Err ==> after.len() < before.len(),
{
    if let Some(end) = first_event_end(before) {
        lemma_event_end_from(before, 0);
        assert(before.take(end) + before.skip(end) =~= before);
    }
}

} // verus!
