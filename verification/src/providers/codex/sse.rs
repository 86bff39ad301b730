//! Watching a stream of server-sent events for a completed response.

use rig_core::providers::openai::responses_api::streaming::{
    ResponseChunkKind, StreamingCompletionChunk,
};
use rig_core::providers::openai::responses_api::ResponseStatus;
use vstd::prelude::*;

use crate::text::{
    after_prefix, chars_of, is_whitespace, is_whitespace_char, lemma_length_before, length_before,
    string_from, strip_prefix, text_from_utf8_lossy, trim_start, utf8_lossy,
};

verus! {

/// A carriage return.
pub const CARRIAGE_RETURN: u8 = 0x0d;

/// A line feed.
pub const LINE_FEED: u8 = 0x0a;

/// A byte that begins a line ending.
pub open spec fn ends_line(byte: u8) -> bool {
    byte == CARRIAGE_RETURN || byte == LINE_FEED
}

/// The length of the line ending at `index`, or `None` where it is not known yet whether a
/// carriage return at the end of the buffer is followed by a line feed.
pub open spec fn ending_length(buffer: Seq<u8>, index: int, end_of_stream: bool) -> Option<int> {
    if buffer[index] == LINE_FEED {
        Some(1)
    } else if index + 1 < buffer.len() {
        if buffer[index + 1] == LINE_FEED {
            Some(2)
        } else {
            Some(1)
        }
    } else if end_of_stream {
        Some(1)
    } else {
        None
    }
}

/// The first line ending at or after `from`, or the length of the buffer where there is none.
pub open spec fn ending_from(buffer: Seq<u8>, from: int) -> int
    decreases buffer.len() - from,
{
    if from >= buffer.len() {
        buffer.len() as int
    } else if ends_line(buffer[from]) {
        from
    } else {
        ending_from(buffer, from + 1)
    }
}

/// The end of the first event from `from` on and the length of the two line endings after it.
pub open spec fn event_from(buffer: Seq<u8>, from: int, end_of_stream: bool) -> Option<(int, int)>
    decreases buffer.len() - from,
    when 0 <= from
    via event_from_decreases
{
    let first = ending_from(buffer, from);
    if first >= buffer.len() {
        None
    } else {
        match ending_length(buffer, first, end_of_stream) {
            None => None,
            Some(length) => {
                let second = first + length;
                if second < buffer.len() && ends_line(buffer[second]) {
                    match ending_length(buffer, second, end_of_stream) {
                        None => None,
                        Some(more) => Some((first, length + more)),
                    }
                } else {
                    event_from(buffer, second, end_of_stream)
                }
            },
        }
    }
}

#[via_fn]
proof fn event_from_decreases(buffer: Seq<u8>, from: int, end_of_stream: bool) {
    lemma_ending_from(buffer, from);
}

proof fn lemma_ending_from(buffer: Seq<u8>, from: int)
    ensures
        from <= buffer.len() ==> from <= ending_from(buffer, from) <= buffer.len(),
        from > buffer.len() ==> ending_from(buffer, from) == buffer.len(),
        0 <= from && ending_from(buffer, from) < buffer.len() ==> ends_line(
            buffer[ending_from(buffer, from)],
        ),
    decreases buffer.len() - from,
{
    if from < buffer.len() && !ends_line(buffer[from]) {
        lemma_ending_from(buffer, from + 1);
    }
}

/// The bytes with every line ending as a line feed.
pub open spec fn with_line_feeds(bytes: Seq<u8>) -> Seq<u8>
    decreases bytes.len(),
{
    if bytes.len() == 0 {
        Seq::empty()
    } else {
        let before = with_line_feeds(bytes.drop_last());
        if bytes.last() == CARRIAGE_RETURN {
            before.push(LINE_FEED)
        } else if bytes.last() == LINE_FEED && bytes.len() >= 2 && bytes[bytes.len() - 2]
            == CARRIAGE_RETURN {
            before
        } else {
            before.push(bytes.last())
        }
    }
}

/// The data of the data lines of an event, joined by line feeds; `first` where none came before.
pub open spec fn data_of_lines(text: Seq<char>, first: bool) -> Seq<char>
    decreases text.len(),
{
    let length = length_before(text, '\n');
    let line = if length >= text.len() {
        text
    } else {
        text.take(length as int)
    };
    let data = after_prefix(line, "data:"@);
    let shown = match data {
        Some(data) => if first {
            trim_start(data)
        } else {
            seq!['\n'] + trim_start(data)
        },
        None => Seq::empty(),
    };
    if length >= text.len() {
        shown
    } else {
        shown + data_of_lines(text.skip(length as int + 1), first && data is None)
    }
}

/// The data of an event.
pub open spec fn event_data(event: Seq<u8>) -> Seq<char> {
    data_of_lines(utf8_lossy(with_line_feeds(event)), true)
}

/// What an event says of a response.
#[derive(Clone, Copy, Debug, PartialEq, Eq, Structural)]
pub struct ResponseFacts {
    /// The event reports the completion of a response.
    pub completed_event: bool,
    /// The response has the status of a completed one.
    pub completed_status: bool,
    pub has_error: bool,
    pub has_incomplete_details: bool,
}

/// What serde_json reads from a text as a response chunk of rig's streaming Responses API; `None`
/// where the text is anything else.
pub uninterp spec fn response_facts(data: Seq<char>) -> Option<ResponseFacts>;

/// `serde_json::from_str` into rig's `StreamingCompletionChunk`, of whose response chunks the kind,
/// the status and the presence of an error and of incomplete details are returned.
#[verifier::external_body]
fn parse_response(data: &str) -> (facts: Option<ResponseFacts>)
    ensures
        facts == response_facts(data@),
{
    match serde_json::from_str::<StreamingCompletionChunk>(data) {
        Ok(StreamingCompletionChunk::Response(chunk)) => Some(ResponseFacts {
            completed_event: matches!(chunk.kind, ResponseChunkKind::ResponseCompleted),
            completed_status: matches!(chunk.response.status, ResponseStatus::Completed),
            has_error: chunk.response.error.is_some(),
            has_incomplete_details: chunk.response.incomplete_details.is_some(),
        }),
        Ok(StreamingCompletionChunk::Delta(_)) | Err(_) => None,
    }
}

/// A response that was completed without an error or a remainder.
pub open spec fn is_completed(facts: Option<ResponseFacts>) -> bool {
    match facts {
        Some(facts) => facts.completed_event && facts.completed_status && !facts.has_error
            && !facts.has_incomplete_details,
        None => false,
    }
}

/// Decides whether an event completes a response.
pub fn completes_response(facts: Option<ResponseFacts>) -> (completes: bool)
    ensures
        completes == is_completed(facts),
{
    match facts {
        Some(facts) => facts.completed_event && facts.completed_status && !facts.has_error
            && !facts.has_incomplete_details,
        None => false,
    }
}

/// Whether a completed response is among the complete events of a buffer.
pub open spec fn saw_completion(buffer: Seq<u8>, end_of_stream: bool) -> bool
    decreases buffer.len(),
{
    match event_from(buffer, 0, end_of_stream) {
        None => false,
        Some((end, delimiter)) => if 0 <= end && 0 < delimiter && end + delimiter <= buffer.len() {
            is_completed(response_facts(event_data(buffer.take(end)))) || saw_completion(
                buffer.skip(end + delimiter),
                end_of_stream,
            )
        } else {
            false
        },
    }
}

/// What is left of a buffer behind its complete events.
pub open spec fn rest_of(buffer: Seq<u8>, end_of_stream: bool) -> Seq<u8>
    decreases buffer.len(),
{
    match event_from(buffer, 0, end_of_stream) {
        None => buffer,
        Some((end, delimiter)) => if 0 <= end && 0 < delimiter && end + delimiter <= buffer.len() {
            rest_of(buffer.skip(end + delimiter), end_of_stream)
        } else {
            buffer
        },
    }
}

proof fn lemma_event_bounds(buffer: Seq<u8>, from: int, end_of_stream: bool)
    requires
        0 <= from <= buffer.len(),
    ensures
        match event_from(buffer, from, end_of_stream) {
            Some((end, delimiter)) => from <= end && 2 <= delimiter && end + delimiter
                <= buffer.len(),
            None => true,
        },
    decreases buffer.len() - from,
{
    lemma_ending_from(buffer, from);
    let first = ending_from(buffer, from);
    if first < buffer.len() {
        if let Some(length) = ending_length(buffer, first, end_of_stream) {
            let second = first + length;
            if !(second < buffer.len() && ends_line(buffer[second])) {
                lemma_event_bounds(buffer, second, end_of_stream);
            }
        }
    }
}

proof fn lemma_ending_from_extended(buffer: Seq<u8>, more: Seq<u8>, from: int)
    requires
        0 <= from,
        ending_from(buffer, from) < buffer.len(),
    ensures
        ending_from(buffer + more, from) == ending_from(buffer, from),
    decreases buffer.len() - from,
{
    if from < buffer.len() {
        assert((buffer + more)[from] == buffer[from]);
        if !ends_line(buffer[from]) {
            lemma_ending_from_extended(buffer, more, from + 1);
        }
    }
}

proof fn lemma_event_extended(buffer: Seq<u8>, more: Seq<u8>, from: int, end_of_stream: bool)
    requires
        0 <= from <= buffer.len(),
        event_from(buffer, from, false) is Some,
    ensures
        event_from(buffer + more, from, end_of_stream) == event_from(buffer, from, false),
    decreases buffer.len() - from,
{
    let all = buffer + more;
    lemma_ending_from(buffer, from);
    lemma_ending_from_extended(buffer, more, from);
    let first = ending_from(buffer, from);
    assert(all[first] == buffer[first]);
    if first + 1 < buffer.len() {
        assert(all[first + 1] == buffer[first + 1]);
    }
    let length = ending_length(buffer, first, false)->0;
    let second = first + length;
    if second < buffer.len() {
        assert(all[second] == buffer[second]);
        if second + 1 < buffer.len() {
            assert(all[second + 1] == buffer[second + 1]);
        }
    }
    if second < buffer.len() && ends_line(buffer[second]) {
    } else {
        if second >= buffer.len() {
            lemma_ending_from(buffer, second);
            assert(event_from(buffer, second, false) is None);
        }
        lemma_event_extended(buffer, more, second, end_of_stream);
    }
}

/// Where a stream is cut does not matter: what is seen in a first part and then in the rest of it
/// with a second part is what is seen in both at once.
pub proof fn lemma_chunk_boundaries_do_not_matter(
    first: Seq<u8>,
    second: Seq<u8>,
    end_of_stream: bool,
)
    ensures
        saw_completion(first + second, end_of_stream) == (saw_completion(first, false)
            || saw_completion(rest_of(first, false) + second, end_of_stream)),
        rest_of(first + second, end_of_stream) == rest_of(
            rest_of(first, false) + second,
            end_of_stream,
        ),
    decreases first.len(),
{
    if let Some((end, delimiter)) = event_from(first, 0, false) {
        lemma_event_bounds(first, 0, false);
        lemma_event_extended(first, second, 0, end_of_stream);
        let both = first + second;
        assert(both.take(end) =~= first.take(end));
        assert(both.skip(end + delimiter) =~= first.skip(end + delimiter) + second);
        lemma_chunk_boundaries_do_not_matter(
            first.skip(end + delimiter),
            second,
            end_of_stream,
        );
    }
}

fn line_ending_length(buffer: &Vec<u8>, index: usize, end_of_stream: bool) -> (length: Option<usize>)
    requires
        index < buffer@.len(),
    ensures
        match length {
            Some(length) => ending_length(buffer@, index as int, end_of_stream) == Some(
                length as int,
            ) && index + length <= buffer@.len() && length > 0,
            None => ending_length(buffer@, index as int, end_of_stream) is None,
        },
{
    if buffer[index] == LINE_FEED {
        Some(1)
    } else if index < buffer.len() - 1 {
        if buffer[index + 1] == LINE_FEED {
            Some(2)
        } else {
            Some(1)
        }
    } else if end_of_stream {
        Some(1)
    } else {
        None
    }
}

/// Finds the end of the first event of a buffer and the length of the line endings after it.
pub fn next_sse_event(buffer: &Vec<u8>, end_of_stream: bool) -> (event: Option<(usize, usize)>)
    ensures
        match event {
            Some((end, delimiter)) => event_from(buffer@, 0, end_of_stream) == Some(
                (end as int, delimiter as int),
            ) && end + delimiter <= buffer@.len(),
            None => event_from(buffer@, 0, end_of_stream) is None,
        },
{
    let mut from: usize = 0;
    loop
        invariant
            from <= buffer@.len(),
            event_from(buffer@, 0, end_of_stream) == event_from(
                buffer@,
                from as int,
                end_of_stream,
            ),
        decreases buffer@.len() - from,
    {
        let mut first: usize = from;
        while first < buffer.len() && buffer[first] != CARRIAGE_RETURN && buffer[first] != LINE_FEED
            invariant
                from <= first <= buffer@.len(),
                ending_from(buffer@, from as int) == ending_from(buffer@, first as int),
            decreases buffer@.len() - first,
        {
            first += 1;
        }
        if first >= buffer.len() {
            return None;
        }
        let length: usize = match line_ending_length(buffer, first, end_of_stream) {
            Some(length) => length,
            None => {
                return None;
            },
        };
        let second: usize = first + length;
        if second < buffer.len() && (buffer[second] == CARRIAGE_RETURN || buffer[second]
            == LINE_FEED) {
            return match line_ending_length(buffer, second, end_of_stream) {
                Some(more) => Some((first, length + more)),
                None => None,
            };
        }
        from = second;
    }
}

fn normalize_sse_lines(buffer: &Vec<u8>, end: usize) -> (text: String)
    requires
        end <= buffer@.len(),
    ensures
        text@ == utf8_lossy(with_line_feeds(buffer@.take(end as int))),
{
    let mut normalized: Vec<u8> = Vec::new();
    let mut index: usize = 0;
    assert(normalized@ =~= with_line_feeds(buffer@.take(0)));
    while index < end
        invariant
            index <= end <= buffer@.len(),
            normalized@ == with_line_feeds(buffer@.take(index as int)),
        decreases end - index,
    {
        proof {
            let seen = buffer@.take(index + 1);
            assert(seen.drop_last() =~= buffer@.take(index as int));
            assert(seen.last() == buffer@[index as int]);
        }
        if buffer[index] == CARRIAGE_RETURN {
            normalized.push(LINE_FEED);
        } else if !(buffer[index] == LINE_FEED && index > 0 && buffer[index - 1]
            == CARRIAGE_RETURN) {
            normalized.push(buffer[index]);
        }
        index += 1;
    }
    text_from_utf8_lossy(normalized.as_slice())
}

proof fn lemma_trim_start(text: Seq<char>, from: int)
    requires
        0 <= from <= text.len(),
        forall|i: int| 0 <= i < from ==> is_whitespace(#[trigger] text[i]),
        from < text.len() ==> !is_whitespace(text[from]),
    ensures
        trim_start(text) == text.skip(from),
    decreases text.len(),
{
    if from == 0 {
        assert(text.skip(0) =~= text);
    } else {
        let rest = text.drop_first();
        assert(is_whitespace(text[0]));
        assert forall|i: int| 0 <= i < from - 1 implies is_whitespace(#[trigger] rest[i]) by {
            assert(rest[i] == text[i + 1]);
        }
        lemma_trim_start(rest, from - 1);
        assert(rest.skip(from - 1) =~= text.skip(from));
    }
}

fn trim_start_text(text: &str) -> (trimmed: String)
    ensures
        trimmed@ == trim_start(text@),
{
    let characters = chars_of(text);
    let mut from: usize = 0;
    while from < characters.len() && is_whitespace_char(characters[from])
        invariant
            from <= characters@.len(),
            forall|i: int| 0 <= i < from ==> is_whitespace(#[trigger] characters@[i]),
        decreases characters@.len() - from,
    {
        from += 1;
    }
    proof {
        lemma_trim_start(characters@, from as int);
        assert(characters@.subrange(from as int, characters@.len() as int) =~= characters@.skip(
            from as int,
        ));
    }
    string_from(&characters, from, characters.len())
}

fn join_data_lines(text: &str) -> (data: String)
    ensures
        data@ == data_of_lines(text@, true),
{
    let characters = chars_of(text);
    let mut data = String::new();
    let mut first = true;
    let mut start: usize = 0;
    assert(characters@.skip(0) =~= text@);
    assert(data@ + data_of_lines(text@, true) =~= data_of_lines(text@, true));
    loop
        invariant
            start <= characters@.len(),
            data_of_lines(text@, true) == data@ + data_of_lines(
                characters@.skip(start as int),
                first,
            ),
        decreases characters@.len() - start,
    {
        let ghost rest = characters@.skip(start as int);
        let mut end: usize = start;
        while end < characters.len() && characters[end] != '\n'
            invariant
                start <= end <= characters@.len(),
                rest == characters@.skip(start as int),
                forall|i: int| 0 <= i < end - start ==> #[trigger] rest[i] != '\n',
            decreases characters@.len() - end,
        {
            assert(rest[end - start] == characters@[end as int]);
            end += 1;
        }
        proof {
            if end < characters@.len() {
                assert(rest[end - start] == characters@[end as int]);
            }
            lemma_length_before(rest, '\n', end - start);
            assert(characters@.subrange(start as int, end as int) =~= rest.take(end - start));
            assert(rest.take(rest.len() as int) =~= rest);
        }
        let ghost before = data@;
        let line = string_from(&characters, start, end);
        let ghost was_first = first;
        if let Some(value) = strip_prefix(&line, "data:") {
            if !first {
                data.push('\n');
            }
            let value = trim_start_text(&value);
            data.push_str(&value);
            first = false;
        }
        if end >= characters.len() {
            assert(data@ =~= data_of_lines(text@, true));
            return data;
        }
        proof {
            assert(rest.skip(end - start + 1) =~= characters@.skip(end + 1));
            assert(data_of_lines(text@, true) =~= data@ + data_of_lines(
                characters@.skip(end + 1),
                first,
            ));
        }
        start = end + 1;
    }
}

/// Adds bytes of a stream to a buffer, takes the complete events out of it and tells whether a
/// completed response was among them.
pub fn observe_completed_sse(buffer: &mut Vec<u8>, bytes: &[u8], end_of_stream: bool) -> (observed:
    bool)
    ensures
        observed == saw_completion(old(buffer)@ + bytes@, end_of_stream),
        final(buffer)@ == rest_of(old(buffer)@ + bytes@, end_of_stream),
{
    let mut added = vstd::slice::slice_to_vec(bytes);
    buffer.append(&mut added);
    let ghost all = buffer@;
    assert(all =~= old(buffer)@ + bytes@);
    let mut observed = false;
    loop
        invariant
            saw_completion(all, end_of_stream) == (observed || saw_completion(
                buffer@,
                end_of_stream,
            )),
            rest_of(all, end_of_stream) == rest_of(buffer@, end_of_stream),
            all == old(buffer)@ + bytes@,
        decreases buffer@.len(),
    {
        proof {
            lemma_event_bounds(buffer@, 0, end_of_stream);
        }
        match next_sse_event(buffer, end_of_stream) {
            None => {
                return observed;
            },
            Some((end, delimiter)) => {
                let event = normalize_sse_lines(buffer, end);
                let data = join_data_lines(&event);
                let facts = parse_response(&data);
                if completes_response(facts) {
                    observed = true;
                }
                let ghost before = buffer@;
                assert(end + delimiter <= buffer.len());
                let rest = buffer.split_off(end + delimiter);
                assert(rest@ =~= before.skip(end + delimiter));
                *buffer = rest;
            },
        }
    }
}

/// Whether the current stream held a completed response.
#[derive(Clone, Copy, Debug, PartialEq, Eq, Structural)]
pub struct CompletionEvidence {
    pub completed: bool,
}

impl CompletionEvidence {
    /// No evidence.
    pub fn new() -> (evidence: Self)
        ensures
            !evidence.completed,
    {
        CompletionEvidence { completed: false }
    }

    /// Whether a completed response was seen.
    pub fn completed(&self) -> (completed: bool)
        ensures
            completed == self.completed,
    {
        self.completed
    }

    /// Forgets what was seen, at the beginning of a stream.
    pub fn reset(&mut self)
        ensures
            !final(self).completed,
    {
        self.completed = false;
    }

    /// Records that a completed response was seen.
    pub fn observe_completed(&mut self)
        ensures
            final(self).completed,
    {
        self.completed = true;
    }
}

/// An event counts as the completion of a response only where it reports one, with the status of a
/// completed response, without an error and without incomplete details; and then it does.
pub proof fn lemma_completion_needs_all_signs(facts: Option<ResponseFacts>)
    ensures
        is_completed(facts) <==> {
            &&& facts is Some
            &&& facts->0.completed_event
            &&& facts->0.completed_status
            &&& !facts->0.has_error
            &&& !facts->0.has_incomplete_details
        },
        forall|completes: bool| #[trigger]
            call_ensures(completes_response, (facts,), completes) ==> completes == (facts is Some
                && facts->0.completed_event && facts->0.completed_status && !facts->0.has_error
                && !facts->0.has_incomplete_details),
{
}

/// Bytes from `start` to `end` that a blank line follows: two line endings, of `length` bytes.
pub open spec fn stands_before_blank_line(
    buffer: Seq<u8>,
    start: int,
    end: int,
    length: int,
) -> bool {
    &&& 0 <= start <= end
    &&& 2 <= length <= 4
    &&& end + length <= buffer.len()
    &&& forall|i: int|
        end <= i < end + length ==> #[trigger] buffer[i] == 0x0d || buffer[i] == 0x0a
    &&& !(length == 2 && buffer[end] == 0x0d && buffer[end + 1] == 0x0a)
}

proof fn lemma_events_stand_before_blank_lines(buffer: Seq<u8>, from: int, end_of_stream: bool)
    requires
        0 <= from <= buffer.len(),
    ensures
        match event_from(buffer, from, end_of_stream) {
            Some((end, length)) => stands_before_blank_line(buffer, from, end, length),
            None => true,
        },
    decreases buffer.len() - from,
{
    lemma_ending_from(buffer, from);
    lemma_event_bounds(buffer, from, end_of_stream);
    let first = ending_from(buffer, from);
    if first < buffer.len() {
        if let Some(length) = ending_length(buffer, first, end_of_stream) {
            let second = first + length;
            if !(second < buffer.len() && ends_line(buffer[second])) {
                lemma_events_stand_before_blank_lines(buffer, second, end_of_stream);
            }
        }
    }
}

/// A completion is seen only where the stream holds an event, closed by a blank line, that reports
/// the completion of a response with the status of a completed one, without an error and without
/// incomplete details. A stream that was cut off before that is never taken for complete.
pub proof fn lemma_completion_is_in_the_stream(buffer: Seq<u8>, end_of_stream: bool)
    requires
        saw_completion(buffer, end_of_stream),
    ensures
        exists|start: int, end: int, length: int|
            {
                &&& #[trigger] stands_before_blank_line(buffer, start, end, length)
                &&& response_facts(event_data(buffer.subrange(start, end))) == Some(
                    ResponseFacts {
                        completed_event: true,
                        completed_status: true,
                        has_error: false,
                        has_incomplete_details: false,
                    },
                )
            },
    decreases buffer.len(),
{
    lemma_event_bounds(buffer, 0, end_of_stream);
    lemma_events_stand_before_blank_lines(buffer, 0, end_of_stream);
    let (end, length) = event_from(buffer, 0, end_of_stream)->0;
    let facts = response_facts(event_data(buffer.take(end)));
    lemma_completion_needs_all_signs(facts);
    if is_completed(facts) {
        assert(buffer.subrange(0, end) =~= buffer.take(end));
        assert(stands_before_blank_line(buffer, 0, end, length));
    } else {
        let rest = buffer.skip(end + length);
        lemma_completion_is_in_the_stream(rest, end_of_stream);
        let (start, later, more) = choose|start: int, later: int, more: int|
            {
                &&& #[trigger] stands_before_blank_line(rest, start, later, more)
                &&& response_facts(event_data(rest.subrange(start, later))) == Some(
                    ResponseFacts {
                        completed_event: true,
                        completed_status: true,
                        has_error: false,
                        has_incomplete_details: false,
                    },
                )
            };
        let shift = end + length;
        assert(buffer.subrange(shift + start, shift + later) =~= rest.subrange(start, later));
        assert forall|i: int| shift + later <= i < shift + later + more implies (
        #[trigger] buffer[i] == 0x0d || buffer[i] == 0x0a) by {
            assert(rest[i - shift] == buffer[i]);
        }
        assert(rest[later] == buffer[shift + later]);
        assert(rest[later + 1] == buffer[shift + later + 1]);
        assert(stands_before_blank_line(buffer, shift + start, shift + later, more));
    }
}

proof fn lemma_no_ending_before(buffer: Seq<u8>, from: int, i: int)
    requires
        0 <= from <= i < ending_from(buffer, from),
    ensures
        i < buffer.len(),
        !ends_line(buffer[i]),
    decreases buffer.len() - from,
{
    lemma_ending_from(buffer, from);
    if from < i {
        lemma_no_ending_before(buffer, from + 1, i);
    }
}

proof fn lemma_first_event(event: Seq<u8>, rest: Seq<u8>, from: int, end_of_stream: bool)
    requires
        0 <= from < event.len(),
        forall|i: int| 0 <= i < event.len() ==> #[trigger] event[i] != 0x0d,
        forall|i: int, j: int|
            0 <= i < event.len() && j == i + 1 && j < event.len() ==> !(#[trigger] event[i] == 0x0a
                && #[trigger] event[j] == 0x0a),
        event.last() != 0x0a,
    ensures
        event_from(event + seq![0x0au8, 0x0au8] + rest, from, end_of_stream) == Some(
            (event.len() as int, 2int),
        ),
    decreases event.len() - from,
{
    let buffer = event + seq![0x0au8, 0x0au8] + rest;
    lemma_ending_from(buffer, from);
    let first = ending_from(buffer, from);
    assert(buffer[event.len() as int] == 0x0a);
    assert(buffer[event.len() as int + 1] == 0x0a);
    if first > event.len() {
        lemma_no_ending_before(buffer, from, event.len() as int);
    }
    if first < event.len() {
        assert(buffer[first] == event[first]);
        assert(first + 1 < event.len());
        assert(buffer[first + 1] == event[first + 1]);
        lemma_first_event(event, rest, first + 1, end_of_stream);
    }
}

/// A completion that comes is seen: of an event that a blank line closes, at the front of what is
/// buffered and whatever follows it.
pub proof fn lemma_completed_event_is_seen(event: Seq<u8>, rest: Seq<u8>, end_of_stream: bool)
    requires
        event.len() > 0,
        forall|i: int| 0 <= i < event.len() ==> #[trigger] event[i] != 0x0d,
        forall|i: int, j: int|
            0 <= i < event.len() && j == i + 1 && j < event.len() ==> !(#[trigger] event[i] == 0x0a
                && #[trigger] event[j] == 0x0a),
        event.last() != 0x0a,
        response_facts(event_data(event)) == Some(
            ResponseFacts {
                completed_event: true,
                completed_status: true,
                has_error: false,
                has_incomplete_details: false,
            },
        ),
    ensures
        saw_completion(event + seq![0x0au8, 0x0au8] + rest, end_of_stream),
        rest_of(event + seq![0x0au8, 0x0au8] + rest, end_of_stream) == rest_of(
            rest,
            end_of_stream,
        ),
{
    let buffer = event + seq![0x0au8, 0x0au8] + rest;
    lemma_first_event(event, rest, 0, end_of_stream);
    assert(buffer.take(event.len() as int) =~= event);
    assert(buffer.skip(event.len() as int + 2) =~= rest);
}

/// The data of an event is that of its data lines, joined by line feeds and without the blanks
/// that lead each; other lines add nothing.
pub proof fn lemma_data_lines_are_joined(line: Seq<char>, rest: Seq<char>, first: bool)
    requires
        forall|i: int| 0 <= i < line.len() ==> #[trigger] line[i] != '\n',
    ensures
        data_of_lines("data:"@ + line, true) == trim_start(line),
        data_of_lines("data:"@ + line, false) == seq!['\n'] + trim_start(line),
        data_of_lines("data:"@ + line + seq!['\n'] + rest, first) == data_of_lines(
            "data:"@ + line,
            first,
        ) + data_of_lines(rest, false),
        !"data:"@.is_prefix_of(line) ==> data_of_lines(line + seq!['\n'] + rest, first)
            == data_of_lines(rest, first) && data_of_lines(line, first).len() == 0,
{
    reveal_strlit("data:");
    let given = "data:"@ + line;
    let more = given + seq!['\n'] + rest;
    lemma_length_before(given, '\n', given.len() as int);
    assert forall|i: int| 0 <= i < given.len() implies #[trigger] more[i] != '\n' by {
        assert(more[i] == given[i]);
    }
    lemma_length_before(more, '\n', given.len() as int);
    assert(more.take(given.len() as int) =~= given);
    assert(more.skip(given.len() as int + 1) =~= rest);
    assert(given.skip(5) =~= line);
    assert("data:"@.is_prefix_of(given));
    let other = line + seq!['\n'] + rest;
    lemma_length_before(line, '\n', line.len() as int);
    assert forall|i: int| 0 <= i < line.len() implies #[trigger] other[i] != '\n' by {
        assert(other[i] == line[i]);
    }
    lemma_length_before(other, '\n', line.len() as int);
    assert(other.take(line.len() as int) =~= line);
    assert(other.skip(line.len() as int + 1) =~= rest);
    if !"data:"@.is_prefix_of(line) {
        assert(Seq::<char>::empty() + data_of_lines(rest, first) =~= data_of_lines(rest, first));
    }
}

/// Every line ending reads as one line feed, and all other bytes as they are.
pub proof fn lemma_line_endings_become_line_feeds(bytes: Seq<u8>, byte: u8)
    ensures
        with_line_feeds(bytes + seq![0x0du8, 0x0au8]) == with_line_feeds(bytes).push(0x0a),
        with_line_feeds(bytes.push(0x0d)) == with_line_feeds(bytes).push(0x0a),
        byte != 0x0d && byte != 0x0a ==> with_line_feeds(bytes.push(byte)) == with_line_feeds(
            bytes,
        ).push(byte),
        bytes.len() == 0 || bytes.last() != 0x0d ==> with_line_feeds(bytes.push(0x0a))
            == with_line_feeds(bytes).push(0x0a),
        with_line_feeds(Seq::empty()) == Seq::<u8>::empty(),
{
    let ended = bytes.push(0x0d);
    let both = bytes + seq![0x0du8, 0x0au8];
    assert(both.drop_last() =~= ended);
    assert(both.last() == 0x0a && both[both.len() - 2] == 0x0d);
    assert(with_line_feeds(both) == with_line_feeds(ended));
    assert(ended.drop_last() =~= bytes);
    assert(bytes.push(byte).drop_last() =~= bytes);
    assert(bytes.push(0x0a).drop_last() =~= bytes);
    if bytes.len() > 0 {
        assert(bytes.push(0x0a)[bytes.len() - 1] == bytes.last());
    }
}

/// Of the operation itself: it tells of a completion only where what was buffered and what came
/// now hold one, and keeps no event that was complete.
pub proof fn lemma_observed_streams_hold_a_completion()
    ensures
        forall|buffer: &mut Vec<u8>, bytes: &[u8], end_of_stream: bool, observed: bool|
            #[trigger] call_ensures(
                observe_completed_sse,
                (buffer, bytes, end_of_stream),
                observed,
            ) && observed ==> exists|start: int, end: int, length: int|
                {
                    &&& #[trigger] stands_before_blank_line(buffer@ + bytes@, start, end, length)
                    &&& response_facts(event_data((buffer@ + bytes@).subrange(start, end))) == Some(
                        ResponseFacts {
                            completed_event: true,
                            completed_status: true,
                            has_error: false,
                            has_incomplete_details: false,
                        },
                    )
                },
{
    assert forall|buffer: &mut Vec<u8>, bytes: &[u8], end_of_stream: bool, observed: bool|
        #[trigger] call_ensures(observe_completed_sse, (buffer, bytes, end_of_stream), observed)
            && observed implies exists|start: int, end: int, length: int|
        {
            &&& #[trigger] stands_before_blank_line(buffer@ + bytes@, start, end, length)
            &&& response_facts(event_data((buffer@ + bytes@).subrange(start, end))) == Some(
                ResponseFacts {
                    completed_event: true,
                    completed_status: true,
                    has_error: false,
                    has_incomplete_details: false,
                },
            )
        } by {
        lemma_completion_is_in_the_stream(buffer@ + bytes@, end_of_stream);
    }
}

/// Two line endings, one directly after the other, that end at a place.
pub open spec fn is_blank_line_at(buffer: Seq<u8>, end: int, length: int) -> bool {
    &&& 0 <= end
    &&& 2 <= length <= 4
    &&& end + length <= buffer.len()
    &&& forall|i: int|
        end <= i < end + length ==> #[trigger] buffer[i] == 0x0d || buffer[i] == 0x0a
    &&& length == 2 ==> !(buffer[end] == 0x0d && buffer[end + 1] == 0x0a)
    &&& end > 0 ==> buffer[end - 1] != 0x0d && buffer[end - 1] != 0x0a
}

proof fn lemma_endings_are_passed(buffer: Seq<u8>, from: int)
    requires
        0 <= from <= buffer.len(),
    ensures
        from <= ending_from(buffer, from) <= buffer.len(),
        forall|i: int|
            from <= i < ending_from(buffer, from) ==> #[trigger] buffer[i] != 0x0d && buffer[i]
                != 0x0a,
        ending_from(buffer, from) < buffer.len() ==> buffer[ending_from(buffer, from)] == 0x0d
            || buffer[ending_from(buffer, from)] == 0x0a,
    decreases buffer.len() - from,
{
    if from < buffer.len() && !ends_line(buffer[from]) {
        lemma_endings_are_passed(buffer, from + 1);
    }
}

proof fn lemma_events_from_end_at_blank_lines(buffer: Seq<u8>, from: int, end_of_stream: bool)
    requires
        0 <= from <= buffer.len(),
        0 < from < buffer.len() ==> buffer[from] != 0x0d && buffer[from] != 0x0a,
    ensures
        match event_from(buffer, from, end_of_stream) {
            Some((end, length)) => is_blank_line_at(buffer, end, length) && end >= from,
            None => true,
        },
    decreases buffer.len() - from,
{
    lemma_endings_are_passed(buffer, from);
    let first = ending_from(buffer, from);
    if first < buffer.len() {
        if let Some(length) = ending_length(buffer, first, end_of_stream) {
            let second = first + length;
            if second < buffer.len() && ends_line(buffer[second]) {
            } else {
                lemma_events_from_end_at_blank_lines(buffer, second, end_of_stream);
            }
        }
    }
}

/// An event ends where a blank line follows it, with `\n`, `\r` or `\r\n` for either line ending.
pub proof fn lemma_events_end_at_blank_lines()
    ensures
        forall|buffer: &Vec<u8>, end_of_stream: bool, event: Option<(usize, usize)>| #[trigger]
            call_ensures(next_sse_event, (buffer, end_of_stream), event) && event is Some
                ==> is_blank_line_at(buffer@, (event->0).0 as int, (event->0).1 as int),
{
    assert forall|buffer: &Vec<u8>, end_of_stream: bool, event: Option<(usize, usize)>| #[trigger]
        call_ensures(next_sse_event, (buffer, end_of_stream), event)
            && event is Some implies is_blank_line_at(
        buffer@,
        (event->0).0 as int,
        (event->0).1 as int,
    ) by {
        lemma_events_from_end_at_blank_lines(buffer@, 0, end_of_stream);
    }
}

proof fn lemma_ending_is_found(buffer: Seq<u8>, from: int, place: int)
    requires
        0 <= from <= place <= buffer.len(),
        forall|i: int| from <= i < place ==> #[trigger] buffer[i] != 0x0d && buffer[i] != 0x0a,
        place < buffer.len() ==> buffer[place] == 0x0d || buffer[place] == 0x0a,
    ensures
        ending_from(buffer, from) == place,
    decreases place - from,
{
    if from < place {
        assert(buffer[from] != 0x0d && buffer[from] != 0x0a);
        lemma_ending_is_found(buffer, from + 1, place);
    }
}

/// One line and a blank line behind it are an event; a line alone is not one yet.
pub proof fn lemma_a_line_and_a_blank_line_are_an_event(
    line: Seq<u8>,
    rest: Seq<u8>,
    end_of_stream: bool,
)
    requires
        forall|i: int| 0 <= i < line.len() ==> #[trigger] line[i] != 0x0d && line[i] != 0x0a,
    ensures
        event_from(line + seq![0x0au8, 0x0au8] + rest, 0, end_of_stream) == Some(
            (line.len() as int, 2int),
        ),
        event_from(line + seq![0x0du8, 0x0au8, 0x0du8, 0x0au8] + rest, 0, end_of_stream) == Some(
            (line.len() as int, 4int),
        ),
        event_from(line, 0, end_of_stream) is None,
        event_from(line.push(0x0a), 0, end_of_stream) is None,
{
    let size = line.len() as int;
    let feeds = line + seq![0x0au8, 0x0au8] + rest;
    assert(feeds[size] == 0x0a && feeds[size + 1] == 0x0a);
    assert forall|i: int| 0 <= i < size implies #[trigger] feeds[i] != 0x0d && feeds[i] != 0x0a by {
        assert(feeds[i] == line[i]);
    }
    lemma_ending_is_found(feeds, 0, size);
    let returns_too = line + seq![0x0du8, 0x0au8, 0x0du8, 0x0au8] + rest;
    assert(returns_too[size] == 0x0d && returns_too[size + 1] == 0x0a && returns_too[size + 2]
        == 0x0d && returns_too[size + 3] == 0x0a);
    assert forall|i: int| 0 <= i < size implies #[trigger] returns_too[i] != 0x0d && returns_too[i]
        != 0x0a by {
        assert(returns_too[i] == line[i]);
    }
    lemma_ending_is_found(returns_too, 0, size);
    lemma_ending_is_found(line, 0, size);
    let ended = line.push(0x0a);
    assert forall|i: int| 0 <= i < size implies #[trigger] ended[i] != 0x0d && ended[i] != 0x0a by {
        assert(ended[i] == line[i]);
    }
    lemma_ending_is_found(ended, 0, size);
    assert(ending_from(ended, size + 1) == size + 1);
    assert(event_from(ended, size + 1, end_of_stream) is None);
}

} // verus!
