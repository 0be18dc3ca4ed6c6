//! Incremental decoding of a `text/event-stream` body, one line at a time.
use vstd::prelude::*;

use crate::text::{append_range, chars_equal, chars_of, push_char, string_from_range};

verus! {

/// What the decoder has gathered for the event in progress.
pub struct DecoderState {
    pub event: Option<Seq<char>>,
    pub data: Seq<char>,
}

/// A dispatched event, as plain sequences.
pub struct EventView {
    pub event: Seq<char>,
    pub data: Seq<char>,
}

/// Accumulates `event:` and `data:` fields until a blank line ends the event.
#[derive(Debug)]
pub struct EventDecoder {
    event: Option<String>,
    data: String,
}

/// One complete server-sent event.
#[derive(Debug, PartialEq, Eq)]
pub struct ServerSentEvent {
    pub event: String,
    pub data: String,
}

impl View for EventDecoder {
    type V = DecoderState;

    closed spec fn view(&self) -> DecoderState {
        DecoderState {
            event: match self.event {
                Some(e) => Some(e@),
                None => None,
            },
            data: self.data@,
        }
    }
}

impl View for ServerSentEvent {
    type V = EventView;

    open spec fn view(&self) -> EventView {
        EventView { event: self.event@, data: self.data@ }
    }
}

/// The view of an optional event.
pub open spec fn event_view(event: Option<ServerSentEvent>) -> Option<EventView> {
    match event {
        Some(e) => Some(e@),
        None => None,
    }
}

/// A decoder with nothing gathered.
pub open spec fn empty_state() -> DecoderState {
    DecoderState { event: None, data: Seq::empty() }
}

/// The event name used when no `event:` field was given.
pub open spec fn default_event_name() -> Seq<char> {
    seq!['m', 'e', 's', 's', 'a', 'g', 'e']
}

pub open spec fn strip_last_char(s: Seq<char>, c: char) -> Seq<char> {
    if s.len() > 0 && s.last() == c {
        s.drop_last()
    } else {
        s
    }
}

pub open spec fn strip_first_char(s: Seq<char>, c: char) -> Seq<char> {
    if s.len() > 0 && s[0] == c {
        s.drop_first()
    } else {
        s
    }
}

/// A line without its `\n` terminator and then without a `\r`.
pub open spec fn line_body(line: Seq<char>) -> Seq<char> {
    strip_last_char(strip_last_char(line, '\n'), '\r')
}

/// The index of the first `:` at or after `i`, or -1.
pub open spec fn colon_from(s: Seq<char>, i: int) -> int
    decreases s.len() - i,
{
    if i < 0 || i >= s.len() {
        -1
    } else if s[i] == ':' {
        i
    } else {
        colon_from(s, i + 1)
    }
}

/// The field name of a line: everything before its first `:`.
pub open spec fn field_of(body: Seq<char>) -> Seq<char> {
    let c = colon_from(body, 0);
    if c >= 0 {
        body.take(c)
    } else {
        body
    }
}

/// The field value of a line: everything after its first `:`, without one leading space.
pub open spec fn value_of(body: Seq<char>) -> Seq<char> {
    let c = colon_from(body, 0);
    if c >= 0 {
        strip_first_char(body.skip(c + 1), ' ')
    } else {
        Seq::empty()
    }
}

pub open spec fn event_field() -> Seq<char> {
    seq!['e', 'v', 'e', 'n', 't']
}

pub open spec fn data_field() -> Seq<char> {
    seq!['d', 'a', 't', 'a']
}

/// Ending the event in progress: the state empties, and an event comes out
/// exactly when some data was gathered.
pub open spec fn finish_spec(d: DecoderState) -> (DecoderState, Option<EventView>) {
    if d.data.len() == 0 {
        (empty_state(), None)
    } else {
        (
            empty_state(),
            Some(
                EventView {
                    event: match d.event {
                        Some(e) => e,
                        None => default_event_name(),
                    },
                    data: d.data,
                },
            ),
        )
    }
}

/// Feeding one line: a blank line ends the event, a `:` line is a comment,
/// `event:` replaces the name, `data:` appends a line of data, other fields are ignored.
pub open spec fn push_line_spec(d: DecoderState, line: Seq<char>) -> (DecoderState, Option<EventView>) {
    let body = line_body(line);
    if body.len() == 0 {
        finish_spec(d)
    } else if body[0] == ':' {
        (d, None)
    } else if field_of(body) == event_field() {
        (DecoderState { event: Some(value_of(body)), data: d.data }, None)
    } else if field_of(body) == data_field() {
        (
            DecoderState {
                event: d.event,
                data: if d.data.len() == 0 {
                    value_of(body)
                } else {
                    d.data.push('\n') + value_of(body)
                },
            },
            None,
        )
    } else {
        (d, None)
    }
}

impl Default for EventDecoder {
    fn default() -> (decoder: Self)
        ensures
            decoder@ == empty_state(),
    {
        EventDecoder { event: None, data: String::new() }
    }
}

impl EventDecoder {
    /// A decoder with nothing gathered.
    pub fn new() -> (decoder: Self)
        ensures
            decoder@ == empty_state(),
    {
        EventDecoder { event: None, data: String::new() }
    }

    /// Feeds one line of the stream (with or without its line terminator).
    pub fn push_line(&mut self, line: &str) -> (event: Option<ServerSentEvent>)
        ensures
            (final(self)@, event_view(event)) == push_line_spec(old(self)@, line@),
    {
        let chars = chars_of(line);
        let mut end = chars.len();
        if end > 0 && chars[end - 1] == '\n' {
            end = end - 1;
        }
        if end > 0 && chars[end - 1] == '\r' {
            end = end - 1;
        }
        let ghost body = line_body(line@);
        assert(body =~= chars@.subrange(0, end as int));

        if end == 0 {
            return self.finish();
        }
        if chars[0] == ':' {
            return None;
        }

        let mut colon: usize = 0;
        while colon < end && chars[colon] != ':'
            invariant
                colon <= end <= chars@.len(),
                body == chars@.subrange(0, end as int),
                colon_from(body, 0) == colon_from(body, colon as int),
            decreases end - colon,
        {
            colon += 1;
        }
        let (field_end, value_start) = if colon < end {
            if colon + 1 < end && chars[colon + 1] == ' ' {
                (colon, colon + 2)
            } else {
                (colon, colon + 1)
            }
        } else {
            (end, end)
        };
        proof {
            if colon < end {
                assert(colon_from(body, 0) == colon);
                assert(field_of(body) =~= chars@.subrange(0, field_end as int));
                assert(value_of(body) =~= chars@.subrange(value_start as int, end as int));
            } else {
                assert(colon_from(body, 0) == -1);
                assert(field_of(body) =~= chars@.subrange(0, field_end as int));
                assert(value_of(body) =~= chars@.subrange(value_start as int, end as int));
            }
        }

        let event_name = chars_of("event");
        let data_name = chars_of("data");
        proof {
            reveal_strlit("event");
            reveal_strlit("data");
            assert(event_name@ =~= event_field());
            assert(data_name@ =~= data_field());
        }
        let field = {
            let mut f: Vec<char> = Vec::new();
            let mut i: usize = 0;
            while i < field_end
                invariant
                    i <= field_end <= chars@.len(),
                    f@ == chars@.subrange(0, i as int),
                decreases field_end - i,
            {
                f.push(chars[i]);
                proof {
                    assert(chars@.subrange(0, i + 1) =~= chars@.subrange(0, i as int).push(chars@[i as int]));
                }
                i += 1;
            }
            f
        };

        if chars_equal(&field, &event_name) {
            self.event = Some(string_from_range(&chars, value_start, end));
        } else if chars_equal(&field, &data_name) {
            if !self.data.as_str().is_empty() {
                push_char(&mut self.data, '\n');
            }
            append_range(&mut self.data, &chars, value_start, end);
        }
        None
    }

    /// Ends the event in progress, as at the end of the stream.
    pub fn finish(&mut self) -> (event: Option<ServerSentEvent>)
        ensures
            (final(self)@, event_view(event)) == finish_spec(old(self)@),
    {
        if self.data.as_str().is_empty() {
            self.event = None;
            assert(self.data@ =~= Seq::<char>::empty());
            return None;
        }
        let event = match self.event.take() {
            Some(name) => name,
            None => {
                let name = chars_of("message");
                proof {
                    reveal_strlit("message");
                    assert(name@ =~= default_event_name());
                }
                crate::text::string_from_chars(&name)
            },
        };
        let mut data = String::new();
        std::mem::swap(&mut data, &mut self.data);
        Some(ServerSentEvent { event, data })
    }
}

/// A blank line, with or without its terminator, ends the event exactly as `finish` does.
pub proof fn lemma_blank_line_finishes(d: DecoderState, line: Seq<char>)
    requires
        line == Seq::<char>::empty() || line == seq!['\n'] || line == seq!['\r', '\n'],
    ensures
        push_line_spec(d, line) == finish_spec(d),
{
    assert(line_body(line) =~= Seq::<char>::empty());
}

/// Ending an event always leaves the decoder empty, whether or not an event came out.
pub proof fn lemma_finish_resets(d: DecoderState)
    ensures
        finish_spec(d).0 == empty_state(),
        finish_spec(d).1 is Some <==> d.data.len() > 0,
{
}

/// Only a blank line dispatches an event; any other line leaves nothing to dispatch.
pub proof fn lemma_only_blank_lines_dispatch(d: DecoderState, line: Seq<char>)
    requires
        line_body(line).len() > 0,
    ensures
        push_line_spec(d, line).1 is None,
{
}

/// A comment line (one that begins with `:`) changes nothing.
pub proof fn lemma_comment_is_ignored(d: DecoderState, line: Seq<char>)
    requires
        line_body(line).len() > 0,
        line_body(line)[0] == ':',
    ensures
        push_line_spec(d, line) == (d, None::<EventView>),
{
}

/// A dispatched event always carries data: a stream of blank lines alone produces nothing.
pub proof fn lemma_dispatched_events_carry_data(d: DecoderState, line: Seq<char>)
    ensures
        push_line_spec(d, line).1 matches Some(e) ==> e.data.len() > 0,
{
}

} // verus!
