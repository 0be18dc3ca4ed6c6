//! The deterministic demo provider: canned Markdown answers streamed in small chunks.
use std::time::Duration;

use vstd::prelude::*;

use crate::domain::{
    FinishReason, GenerationEvent, GenerationOutcome, Message, MessageRole, ProviderError,
    ProviderErrorKind,
};
use crate::text::{
    append_range, append_str, char_utf8_width, chars_of, is_whitespace, is_whitespace_char,
    lemma_utf8_len_encode, lemma_utf8_len_prefix, lemma_utf8_len_step, push_char,
    string_from_chars, string_from_range, utf8_len, utf8_width,
};

verus! {

pub const FOCUSED_HEAD: &'static str = "## A focused direction\n\nI would turn ";

pub const FOCUSED_TAIL: &'static str = " into a small, observable workflow. Start with the user-visible state, keep the boundary narrow, and let the implementation grow from a real interaction.\n\n- Name the state the user can see.\n- Keep the first action reversible.\n- Measure the result before adding another layer.\n\nThat gives the next decision a clear place to land.";

pub const PRACTICAL_HEAD: &'static str = "Here is a practical shape for ";

pub const PRACTICAL_TAIL: &'static str = ":\n\n1. Capture the intent in one value.\n2. Render the current state immediately.\n3. Move slow work behind a cancellable task.\n4. Persist only after the result is complete.\n\nThe important part is the seam between the UI and the work behind it.";

pub const SMALL_HEAD: &'static str = "I would keep ";

pub const SMALL_TAIL: &'static str = " deliberately small at first. The UI can model the workflow with a typed operation, then a provider or storage adapter can replace the local fixture later.\n\n```rust\nstruct Operation {\n    input: String,\n    state: OperationState,\n}\n```\n\nThat shape keeps the interface testable while the remote boundary is still evolving.";

pub const MISSING_USER_MESSAGE: &'static str = "the generation request did not contain a user message";

/// A chunk is cut once it reaches this many bytes and a whitespace boundary is available.
const CHUNK_BYTES: usize = 20;

/// The wrapping sum of the bytes of a prompt, which picks the answer template.
pub open spec fn byte_fingerprint(bytes: Seq<u8>) -> usize
    decreases bytes.len(),
{
    if bytes.len() == 0 {
        0
    } else {
        byte_fingerprint(bytes.drop_last()).wrapping_add(bytes.last() as usize)
    }
}

pub open spec fn template_head(k: usize) -> Seq<char> {
    if k == 0 {
        FOCUSED_HEAD@
    } else if k == 1 {
        PRACTICAL_HEAD@
    } else {
        SMALL_HEAD@
    }
}

pub open spec fn template_tail(k: usize) -> Seq<char> {
    if k == 0 {
        FOCUSED_TAIL@
    } else if k == 1 {
        PRACTICAL_TAIL@
    } else {
        SMALL_TAIL@
    }
}

pub open spec fn bold(text: Seq<char>) -> Seq<char> {
    seq!['*', '*'] + text + seq!['*', '*']
}

/// The canned answer for a prompt: one of three templates, chosen by the prompt's
/// byte fingerprint modulo three, with the prompt set in bold inside it.
pub open spec fn fake_response_spec(prompt: Seq<char>) -> Seq<char> {
    let k = (byte_fingerprint(vstd::utf8::encode_utf8(prompt)) % 3) as usize;
    template_head(k) + bold(prompt) + template_tail(k)
}

/// The canned answer for `prompt`.
pub fn fake_response(prompt: &str) -> (response: String)
    ensures
        response@ == fake_response_spec(prompt@),
{
    let bytes = prompt.as_bytes();
    let mut fingerprint: usize = 0;
    let mut i: usize = 0;
    while i < bytes.len()
        invariant
            i <= bytes@.len(),
            fingerprint == byte_fingerprint(bytes@.take(i as int)),
        decreases bytes.len() - i,
    {
        proof {
            assert(bytes@.take(i + 1).drop_last() =~= bytes@.take(i as int));
        }
        fingerprint = fingerprint.wrapping_add(bytes[i] as usize);
        i += 1;
    }
    assert(bytes@.take(bytes@.len() as int) =~= bytes@);
    let k = fingerprint % 3;
    let mut response = String::new();
    if k == 0 {
        append_str(&mut response, FOCUSED_HEAD);
    } else if k == 1 {
        append_str(&mut response, PRACTICAL_HEAD);
    } else {
        append_str(&mut response, SMALL_HEAD);
    }
    push_char(&mut response, '*');
    push_char(&mut response, '*');
    append_str(&mut response, prompt);
    push_char(&mut response, '*');
    push_char(&mut response, '*');
    if k == 0 {
        append_str(&mut response, FOCUSED_TAIL);
    } else if k == 1 {
        append_str(&mut response, PRACTICAL_TAIL);
    } else {
        append_str(&mut response, SMALL_TAIL);
    }
    assert(response@ =~= fake_response_spec(prompt@));
    response
}

/// The progress of the chunking scan after a prefix of the text: where the current
/// chunk starts and the latest whitespace boundary, each as a character index and a
/// byte offset, and the chunks cut so far.
pub struct ChunkScan {
    pub start: int,
    pub start_byte: int,
    pub boundary: int,
    pub boundary_byte: int,
    pub chunks: Seq<Seq<char>>,
}

/// The scan after the first `i` characters of `s`: a whitespace character moves the
/// boundary past itself; once the current chunk spans at least twenty bytes and a
/// boundary lies inside it, the chunk is cut at the boundary.
pub open spec fn chunk_scan(s: Seq<char>, i: int) -> ChunkScan
    decreases i,
{
    if i <= 0 {
        ChunkScan { start: 0, start_byte: 0, boundary: 0, boundary_byte: 0, chunks: Seq::empty() }
    } else {
        let prev = chunk_scan(s, i - 1);
        let end_byte = utf8_len(s.take(i)) as int;
        let (boundary, boundary_byte) = if is_whitespace_char(s[i - 1]) {
            (i, end_byte)
        } else {
            (prev.boundary, prev.boundary_byte)
        };
        if end_byte - prev.start_byte >= 20 && boundary_byte > prev.start_byte {
            ChunkScan {
                start: boundary,
                start_byte: boundary_byte,
                boundary,
                boundary_byte,
                chunks: prev.chunks.push(s.subrange(prev.start, boundary)),
            }
        } else {
            ChunkScan {
                start: prev.start,
                start_byte: prev.start_byte,
                boundary,
                boundary_byte,
                chunks: prev.chunks,
            }
        }
    }
}

/// The chunks of a response: the cut chunks, then whatever text remains.
pub open spec fn response_chunks_spec(s: Seq<char>) -> Seq<Seq<char>> {
    let scan = chunk_scan(s, s.len() as int);
    if scan.start < s.len() {
        scan.chunks.push(s.skip(scan.start))
    } else {
        scan.chunks
    }
}

/// The characters of a sequence of strings, in order.
pub open spec fn concat_all(chunks: Seq<Seq<char>>) -> Seq<char>
    decreases chunks.len(),
{
    if chunks.len() == 0 {
        Seq::empty()
    } else {
        concat_all(chunks.drop_last()) + chunks.last()
    }
}

pub open spec fn strings_view(v: Seq<String>) -> Seq<Seq<char>> {
    v.map_values(|s: String| s@)
}

proof fn lemma_scan_facts(s: Seq<char>, i: int)
    requires
        0 <= i <= s.len(),
    ensures
        ({
            let scan = chunk_scan(s, i);
            &&& 0 <= scan.start <= scan.boundary <= i
            &&& scan.start_byte == utf8_len(s.take(scan.start))
            &&& scan.boundary_byte == utf8_len(s.take(scan.boundary))
            &&& concat_all(scan.chunks) == s.take(scan.start)
            &&& forall|j: int| 0 <= j < scan.chunks.len() ==> #[trigger] scan.chunks[j].len() > 0
        }),
    decreases i,
{
    if i > 0 {
        lemma_scan_facts(s, i - 1);
        let prev = chunk_scan(s, i - 1);
        let scan = chunk_scan(s, i);
        assert(s.take(i).take(i) =~= s.take(i));
        if scan.chunks.len() != prev.chunks.len() {
            let piece = s.subrange(prev.start, scan.start);
            assert(scan.chunks.drop_last() =~= prev.chunks);
            assert(s.take(scan.start) =~= s.take(prev.start) + piece);
            if prev.start == scan.start {
                assert(scan.start_byte == prev.start_byte);
            }
            assert forall|j: int| 0 <= j < scan.chunks.len() implies #[trigger] scan.chunks[j].len()
                > 0 by {
                if j < prev.chunks.len() {
                    assert(scan.chunks[j] == prev.chunks[j]);
                }
            }
        }
    }
}

/// Splits a response into streaming chunks of roughly twenty bytes, cut after whitespace.
pub fn response_chunks(response: &str) -> (chunks: Vec<String>)
    ensures
        strings_view(chunks@) == response_chunks_spec(response@),
{
    let chars = chars_of(response);
    let total_bytes = response.as_bytes().len();
    proof {
        lemma_utf8_len_encode(response@);
    }
    let mut chunks: Vec<String> = Vec::new();
    let mut start: usize = 0;
    let mut start_byte: usize = 0;
    let mut boundary: usize = 0;
    let mut boundary_byte: usize = 0;
    let mut end_byte: usize = 0;
    let mut i: usize = 0;
    assert(chars@.take(0) =~= Seq::<char>::empty());
    while i < chars.len()
        invariant
            chars@ == response@,
            i <= chars@.len(),
            total_bytes == utf8_len(chars@),
            end_byte == utf8_len(chars@.take(i as int)),
            ({
                let scan = chunk_scan(chars@, i as int);
                &&& scan.start == start
                &&& scan.start_byte == start_byte
                &&& scan.boundary == boundary
                &&& scan.boundary_byte == boundary_byte
                &&& scan.chunks == strings_view(chunks@)
            }),
        decreases chars.len() - i,
    {
        proof {
            lemma_utf8_len_step(chars@, i as int);
            lemma_utf8_len_prefix(chars@, i + 1);
            lemma_scan_facts(chars@, i as int);
        }
        let c = chars[i];
        end_byte = end_byte + char_utf8_width(c);
        i = i + 1;
        if is_whitespace(c) {
            boundary = i;
            boundary_byte = end_byte;
        }
        proof {
            lemma_utf8_len_prefix(chars@.take(i as int), start as int);
            assert(chars@.take(i as int).take(start as int) =~= chars@.take(start as int));
        }
        if end_byte - start_byte >= CHUNK_BYTES && boundary_byte > start_byte {
            let piece = string_from_range(&chars, start, boundary);
            chunks.push(piece);
            start = boundary;
            start_byte = boundary_byte;
        }
        proof {
            assert(strings_view(chunks@) =~= chunk_scan(chars@, i as int).chunks);
        }
    }
    proof {
        lemma_scan_facts(chars@, i as int);
    }
    if start < chars.len() {
        let rest = string_from_range(&chars, start, chars.len());
        chunks.push(rest);
        assert(chars@.subrange(start as int, chars@.len() as int) =~= chars@.skip(start as int));
        assert(strings_view(chunks@) =~= response_chunks_spec(response@));
    }
    chunks
}

/// Concatenating the chunks gives the response back, and no chunk is empty.
pub proof fn lemma_chunks_reassemble(s: Seq<char>)
    ensures
        concat_all(response_chunks_spec(s)) == s,
        forall|j: int|
            0 <= j < response_chunks_spec(s).len() ==> #[trigger] response_chunks_spec(s)[j].len()
                > 0,
        s.len() > 0 ==> response_chunks_spec(s).len() > 0,
{
    lemma_scan_facts(s, s.len() as int);
    let scan = chunk_scan(s, s.len() as int);
    assert(s.take(s.len() as int) =~= s);
    if scan.start < s.len() {
        let chunks = scan.chunks.push(s.skip(scan.start));
        assert(chunks.drop_last() =~= scan.chunks);
        assert(s.take(scan.start) + s.skip(scan.start) =~= s);
        assert forall|j: int| 0 <= j < chunks.len() implies #[trigger] chunks[j].len() > 0 by {
            if j < scan.chunks.len() {
                assert(chunks[j] == scan.chunks[j]);
            }
        }
    } else if s.len() > 0 {
        assert(scan.start == s.len());
        assert(concat_all(scan.chunks).len() > 0);
    }
}

proof fn lemma_scan_cuts_after_whitespace(s: Seq<char>, i: int)
    requires
        0 <= i <= s.len(),
    ensures
        ({
            let scan = chunk_scan(s, i);
            &&& scan.boundary > 0 ==> is_whitespace_char(s[scan.boundary - 1])
            &&& forall|j: int| 0 <= j < scan.chunks.len() ==> is_whitespace_char(#[trigger] scan.chunks[j].last())
            &&& (forall|k: int| 0 <= k < i ==> !is_whitespace_char(#[trigger] s[k])) ==> (scan.chunks.len() == 0
                && scan.start == 0 && scan.boundary == 0)
        }),
    decreases i,
{
    if i > 0 {
        lemma_scan_cuts_after_whitespace(s, i - 1);
        lemma_scan_facts(s, i - 1);
        lemma_scan_facts(s, i);
        let prev = chunk_scan(s, i - 1);
        let scan = chunk_scan(s, i);
        assert(s.take(0) =~= Seq::<char>::empty());
        if scan.chunks.len() != prev.chunks.len() {
            let piece = s.subrange(prev.start, scan.boundary);
            assert(scan.chunks.last() == piece);
            assert(piece.len() > 0);
            assert(piece.last() == s[scan.boundary - 1]);
            assert forall|j: int| 0 <= j < scan.chunks.len() implies is_whitespace_char(#[trigger] scan.chunks[j].last()) by {
                if j < prev.chunks.len() {
                    assert(scan.chunks[j] == prev.chunks[j]);
                }
            }
        }
        if forall|k: int| 0 <= k < i ==> !is_whitespace_char(#[trigger] s[k]) {
            assert(!is_whitespace_char(s[i - 1]));
            assert forall|k: int| 0 <= k < i - 1 implies !is_whitespace_char(#[trigger] s[k]) by {}
        }
    }
}

/// Every chunk but the last ends in whitespace; there are chunks exactly when there is
/// text; and a text without whitespace is one chunk.
pub proof fn lemma_chunks_end_in_whitespace(s: Seq<char>)
    ensures
        forall|j: int|
            0 <= j < response_chunks_spec(s).len() - 1 ==> is_whitespace_char(
                #[trigger] response_chunks_spec(s)[j].last(),
            ),
        response_chunks_spec(s).len() == 0 <==> s.len() == 0,
        s.len() > 0 && (forall|k: int| 0 <= k < s.len() ==> !is_whitespace_char(#[trigger] s[k]))
            ==> response_chunks_spec(s) == seq![s],
{
    lemma_scan_cuts_after_whitespace(s, s.len() as int);
    lemma_chunks_reassemble(s);
    let scan = chunk_scan(s, s.len() as int);
    if scan.start < s.len() {
        let chunks = scan.chunks.push(s.skip(scan.start));
        assert forall|j: int| 0 <= j < chunks.len() - 1 implies is_whitespace_char(#[trigger] chunks[j].last()) by {
            assert(chunks[j] == scan.chunks[j]);
        }
    }
    if s.len() > 0 && (forall|k: int| 0 <= k < s.len() ==> !is_whitespace_char(#[trigger] s[k])) {
        assert(s.skip(0) =~= s);
        assert(response_chunks_spec(s) =~= seq![s]);
    }
}

/// The content of the latest user message, if any.
pub open spec fn latest_user_prompt_spec(messages: Seq<Message>) -> Option<Seq<char>>
    decreases messages.len(),
{
    if messages.len() == 0 {
        None
    } else if messages.last().role == MessageRole::User {
        Some(messages.last().content@)
    } else {
        latest_user_prompt_spec(messages.drop_last())
    }
}

/// The content of the latest user message, if any.
pub fn latest_user_prompt(messages: &Vec<Message>) -> (prompt: Option<String>)
    ensures
        match prompt {
            Some(p) => latest_user_prompt_spec(messages@) == Some(p@),
            None => latest_user_prompt_spec(messages@) is None,
        },
{
    let mut i = messages.len();
    assert(messages@.take(i as int) =~= messages@);
    while i > 0
        invariant
            i <= messages@.len(),
            latest_user_prompt_spec(messages@) == latest_user_prompt_spec(messages@.take(i as int)),
        decreases i,
    {
        assert(messages@.take(i as int).drop_last() =~= messages@.take(i - 1));
        if messages[i - 1].role == MessageRole::User {
            return Some(messages[i - 1].content.clone());
        }
        i = i - 1;
    }
    None
}

/// A chat provider that answers every prompt with a canned Markdown response.
#[derive(Clone, Copy, Debug)]
pub struct DemoProvider {
    initial_delay: Duration,
    chunk_delay: Duration,
}

impl DemoProvider {
    pub closed spec fn spec_initial_delay(self) -> Duration {
        self.initial_delay
    }

    pub closed spec fn spec_chunk_delay(self) -> Duration {
        self.chunk_delay
    }

    /// A demo provider that waits `initial_delay` before the first event and
    /// `chunk_delay` before each later one.
    pub fn new(initial_delay: Duration, chunk_delay: Duration) -> (provider: Self)
        ensures
            provider.spec_initial_delay() == initial_delay,
            provider.spec_chunk_delay() == chunk_delay,
    {
        DemoProvider { initial_delay, chunk_delay }
    }

    /// The pause before an event: the initial delay for the first, the chunk delay after.
    pub fn delay_before(&self, first: bool) -> (delay: Duration)
        ensures
            delay == if first {
                self.spec_initial_delay()
            } else {
                self.spec_chunk_delay()
            },
    {
        if first {
            self.initial_delay
        } else {
            self.chunk_delay
        }
    }
}

/// Whether an event is a text delta carrying exactly `text`.
pub open spec fn is_text_delta(event: Result<GenerationEvent, ProviderError>, text: Seq<char>) -> bool {
    match event {
        Ok(GenerationEvent::TextDelta(t)) => t@ == text,
        _ => false,
    }
}

/// Whether an event is the normal completion, with no usage.
pub open spec fn is_stop_completion(event: Result<GenerationEvent, ProviderError>) -> bool {
    match event {
        Ok(GenerationEvent::Completed(outcome)) => outcome.finish_reason == FinishReason::Stop
            && outcome.usage is None,
        _ => false,
    }
}

/// The message of the failure reported when no user message exists.
pub open spec fn missing_user_message_text() -> Seq<char> {
    MISSING_USER_MESSAGE@
}

/// The whole stream of the demo provider for a request, without its timing:
/// with a user message, `Started`, the chunks of the canned answer to the latest
/// user prompt, then a normal completion; without one, a single failure.
pub open spec fn demo_events_spec(
    provider: Seq<char>,
    messages: Seq<Message>,
    events: Seq<Result<GenerationEvent, ProviderError>>,
) -> bool {
    match latest_user_prompt_spec(messages) {
        None => {
            &&& events.len() == 1
            &&& events[0] matches Err(e) && e.provider@ == provider && e.kind
                == ProviderErrorKind::Other && e.message@ == missing_user_message_text()
                && e.http_status is None
        },
        Some(prompt) => {
            let chunks = response_chunks_spec(fake_response_spec(prompt));
            &&& events.len() == chunks.len() + 2
            &&& events[0] == Ok::<GenerationEvent, ProviderError>(GenerationEvent::Started)
            &&& forall|i: int| 0 <= i < chunks.len() ==> is_text_delta(#[trigger] events[i + 1], chunks[i])
            &&& is_stop_completion(events.last())
        },
    }
}

/// The events the demo provider streams for a request from `provider` over `messages`.
pub fn demo_events(provider: &str, messages: &Vec<Message>) -> (events: Vec<Result<GenerationEvent, ProviderError>>)
    ensures
        demo_events_spec(provider@, messages@, events@),
{
    let mut events: Vec<Result<GenerationEvent, ProviderError>> = Vec::new();
    match latest_user_prompt(messages) {
        None => {
            let text = chars_of(MISSING_USER_MESSAGE);
            let name = chars_of(provider);
            events.push(
                Err(
                    ProviderError {
                        provider: string_from_chars(&name),
                        kind: ProviderErrorKind::Other,
                        message: string_from_chars(&text),
                        http_status: None,
                    },
                ),
            );
        },
        Some(prompt) => {
            events.push(Ok(GenerationEvent::Started));
            let response = fake_response(prompt.as_str());
            let chunks = response_chunks(response.as_str());
            let ghost spec_chunks = response_chunks_spec(fake_response_spec(prompt@));
            let mut i: usize = 0;
            while i < chunks.len()
                invariant
                    i <= chunks@.len(),
                    strings_view(chunks@) == spec_chunks,
                    events@.len() == i + 1,
                    events@[0] == Ok::<GenerationEvent, ProviderError>(GenerationEvent::Started),
                    forall|j: int| 0 <= j < i ==> is_text_delta(#[trigger] events@[j + 1], spec_chunks[j]),
                decreases chunks.len() - i,
            {
                events.push(Ok(GenerationEvent::TextDelta(chunks[i].clone())));
                proof {
                    assert(strings_view(chunks@)[i as int] == chunks@[i as int]@);
                }
                i += 1;
            }
            let ghost before = events@;
            events.push(
                Ok(
                    GenerationEvent::Completed(
                        GenerationOutcome { finish_reason: FinishReason::Stop, usage: None },
                    ),
                ),
            );
            proof {
                assert(spec_chunks.len() == chunks@.len());
                assert forall|j: int| 0 <= j < spec_chunks.len() implies is_text_delta(
                    #[trigger] events@[j + 1],
                    spec_chunks[j],
                ) by {
                    assert(events@[j + 1] == before[j + 1]);
                }
            }
        },
    }
    events
}

/// The text a stream delivers: the concatenation of its text deltas, in order.
pub open spec fn streamed_text(events: Seq<Result<GenerationEvent, ProviderError>>) -> Seq<char>
    decreases events.len(),
{
    if events.len() == 0 {
        Seq::empty()
    } else {
        streamed_text(events.drop_last()) + match events.last() {
            Ok(GenerationEvent::TextDelta(t)) => t@,
            _ => Seq::empty(),
        }
    }
}

/// The canned answer always contains the prompt in bold, right after the template's opening.
pub proof fn lemma_fake_response_contains_bold_prompt(prompt: Seq<char>)
    ensures
        ({
            let r = fake_response_spec(prompt);
            let k = (byte_fingerprint(vstd::utf8::encode_utf8(prompt)) % 3) as usize;
            let at = template_head(k).len() as int;
            &&& at + bold(prompt).len() <= r.len()
            &&& r.subrange(at, at + bold(prompt).len()) == bold(prompt)
        }),
{
    let r = fake_response_spec(prompt);
    let k = (byte_fingerprint(vstd::utf8::encode_utf8(prompt)) % 3) as usize;
    let at = template_head(k).len() as int;
    assert(r.subrange(at, at + bold(prompt).len()) =~= bold(prompt));
}

proof fn lemma_streamed_prefix(
    events: Seq<Result<GenerationEvent, ProviderError>>,
    chunks: Seq<Seq<char>>,
    k: int,
)
    requires
        0 <= k <= chunks.len(),
        events.len() == chunks.len() + 2,
        events[0] == Ok::<GenerationEvent, ProviderError>(GenerationEvent::Started),
        forall|i: int| 1 <= i < events.len() - 1 ==> is_text_delta(#[trigger] events[i], chunks[i - 1]),
    ensures
        streamed_text(events.take(k + 1)) == concat_all(chunks.take(k)),
    decreases k,
{
    if k == 0 {
        assert(events.take(1).drop_last() =~= Seq::<Result<GenerationEvent, ProviderError>>::empty());
        assert(chunks.take(0) =~= Seq::<Seq<char>>::empty());
        assert(events.take(1).last() == events[0]);
        assert(streamed_text(events.take(1).drop_last()) =~= Seq::<char>::empty());
        assert(streamed_text(events.take(1)) =~= Seq::<char>::empty());
    } else {
        lemma_streamed_prefix(events, chunks, k - 1);
        assert(events.take(k + 1).drop_last() =~= events.take(k));
        assert(chunks.take(k).drop_last() =~= chunks.take(k - 1));
        assert(is_text_delta(events[k], chunks[k - 1]));
        assert(events.take(k + 1).last() == events[k]);
        assert(chunks.take(k).last() == chunks[k - 1]);
    }
}

/// A successful demo stream starts exactly once, first; completes exactly once, last;
/// and its text deltas reassemble the canned answer to the latest user prompt.
pub proof fn lemma_demo_success_contract(
    provider: Seq<char>,
    messages: Seq<Message>,
    events: Seq<Result<GenerationEvent, ProviderError>>,
)
    requires
        demo_events_spec(provider, messages, events),
        latest_user_prompt_spec(messages) is Some,
    ensures
        events.len() >= 2,
        events[0] == Ok::<GenerationEvent, ProviderError>(GenerationEvent::Started),
        forall|i: int| 1 <= i < events.len() ==> events[i] != Ok::<GenerationEvent, ProviderError>(GenerationEvent::Started),
        forall|i: int| 0 <= i < events.len() - 1 ==> !is_stop_completion(#[trigger] events[i]),
        is_stop_completion(events.last()),
        forall|i: int| 0 <= i < events.len() ==> events[i] is Ok,
        streamed_text(events) == fake_response_spec(latest_user_prompt_spec(messages)->0),
{
    let prompt = latest_user_prompt_spec(messages)->0;
    let chunks = response_chunks_spec(fake_response_spec(prompt));
    let n = chunks.len() as int;
    assert forall|i: int| 1 <= i < events.len() - 1 implies is_text_delta(#[trigger] events[i], chunks[i - 1]) by {
        assert(is_text_delta(events[(i - 1) + 1], chunks[i - 1]));
    }
    assert forall|i: int| 0 <= i < events.len() implies events[i] is Ok by {
        if 1 <= i < events.len() - 1 {
            assert(is_text_delta(events[i], chunks[i - 1]));
        }
    }
    lemma_streamed_prefix(events, chunks, n);
    assert(events.drop_last() =~= events.take(n + 1));
    assert(chunks.take(n) =~= chunks);
    lemma_chunks_reassemble(fake_response_spec(prompt));
}

} // verus!
