//! What becomes of one message: the event that it is exported as, or why it is discarded.

use crate::exporter::disk::{law_one_line_per_event, lines_text, read_lines};
use crate::exporter::event::LogEvent;
use crate::json::{
    json_string, json_text, json_to_string, law_quoted_tells_texts_apart, lemma_name_quoted,
    lemma_object_of_one, lemma_object_of_two, lemma_object_single_line, lemma_quoted_single_line,
    object_of_one, object_of_two, object_text, parse_json, parsed_json, quoted, single_line,
};
use vstd::prelude::*;
use vstd::slice::slice_subrange;
use vstd::utf8::{
    decode_utf8, is_char_boundary, is_char_boundary_iff_not_is_continuation_byte,
    is_char_boundary_start_end_of_seq, is_continuation_byte, length_of_first_scalar,
    pop_first_scalar, valid_first_scalar, valid_utf8, valid_utf8_split,
};

verus! {

/// Result of message processing.
#[derive(Clone, Copy, Debug, PartialEq, Eq, Structural)]
pub enum ProcessingResult {
    /// Processed; the message is acknowledged.
    Success,
    /// Failed, but may succeed later; the message is to be redelivered.
    TransientFailure,
    /// Failed for good; the message is acknowledged and discarded.
    PermanentFailure,
}

/// How the processing of a message ended.
#[derive(Clone, Copy, Debug, PartialEq, Eq, Structural)]
pub enum MessageEnd {
    /// The exporter's channel took the event.
    Sent,
    /// There is no exporter to send the event to.
    NoExporter,
    /// The exporter's channel was full.
    ChannelFull,
    /// The exporter's channel was closed.
    ChannelClosed,
    /// The payload is no JSON document.
    NotJson,
    /// The event could not be written as JSON text.
    NotSerializable,
}

/// What the exporter's channel made of an event.
#[derive(Clone, Copy, Debug, PartialEq, Eq, Structural)]
pub enum OfferOutcome {
    /// It took the event.
    Taken,
    /// It was full.
    Full,
    /// It was closed.
    Closed,
}

/// A message after parsing and rendering.
#[derive(Debug)]
pub enum RenderedMessage {
    /// The event's line.
    Line(String),
    /// The payload is no JSON document; holds the parser's message.
    NotJson(String),
    /// The event could not be written as JSON text; holds the serializer's message.
    NotSerializable(String),
}

/// What is reported of a payload that is no JSON document.
#[derive(Debug)]
pub struct RejectedPayload {
    /// The start of the payload, as text.
    pub preview: String,
    /// Size of the whole payload in bytes.
    pub payload_size: usize,
    /// Whether the payload is longer than the limit for the preview.
    pub truncated: bool,
    /// The parser's message.
    pub error: String,
}

/// What to do with a message.
#[derive(Debug)]
pub enum ProcessedMessage {
    /// Offer the event to the exporter.
    Export(LogEvent),
    /// Discard the message, whose payload is no JSON document.
    NotJson(RejectedPayload),
    /// Discard the message, whose event could not be written as JSON text.
    NotSerializable(String),
}

/// The line of an event: a JSON object with the subject and the payload under `fields`.
pub open spec fn event_line(subject: Seq<char>, payload_text: Seq<char>) -> Seq<char> {
    let fields = object_text(seq![("payload"@, payload_text), ("subject"@, quoted(subject))]);
    object_text(seq![("fields"@, fields)])
}

/// What `String::from_utf8_lossy` makes of some bytes.
pub uninterp spec fn utf8_lossy(bytes: Seq<u8>) -> Seq<char>;

/// Position of the last byte before `end` that is no UTF-8 continuation byte, or `None` where all
/// bytes before it are.
pub open spec fn last_start(bytes: Seq<u8>, end: nat) -> Option<nat>
    decreases end,
{
    if end == 0 {
        None
    } else if !is_continuation_byte(bytes[end - 1]) {
        Some((end - 1) as nat)
    } else {
        last_start(bytes, (end - 1) as nat)
    }
}

/// Number of bytes of the character at the start of some bytes. A byte that begins no valid
/// character counts alone.
pub open spec fn character_len(bytes: Seq<u8>) -> nat {
    if valid_first_scalar(bytes) {
        length_of_first_scalar(bytes) as nat
    } else {
        1
    }
}

/// Number of bytes of a payload that its preview shows: all of them up to `limit`. A longer payload
/// is cut behind the last character that begins before `limit`, or, where that one does not fit,
/// before it. One that starts with `limit` continuation bytes is cut at `limit`.
pub open spec fn preview_len(payload: Seq<u8>, limit: nat) -> nat {
    if payload.len() <= limit {
        payload.len()
    } else {
        match last_start(payload, limit) {
            Some(start) => {
                let end = start + character_len(payload.skip(start as int));
                if end <= limit {
                    end
                } else {
                    start
                }
            },
            None => limit,
        }
    }
}

/// How the processing of a message ends: an event by what the exporter's channel made of it, where
/// `None` stands for no exporter, and a discarded message by why it is discarded.
pub open spec fn end_of(processed: ProcessedMessage, offer: Option<OfferOutcome>) -> MessageEnd {
    match (processed, offer) {
        (ProcessedMessage::NotJson(_), _) => MessageEnd::NotJson,
        (ProcessedMessage::NotSerializable(_), _) => MessageEnd::NotSerializable,
        (ProcessedMessage::Export(_), None) => MessageEnd::NoExporter,
        (ProcessedMessage::Export(_), Some(OfferOutcome::Taken)) => MessageEnd::Sent,
        (ProcessedMessage::Export(_), Some(OfferOutcome::Full)) => MessageEnd::ChannelFull,
        (ProcessedMessage::Export(_), Some(OfferOutcome::Closed)) => MessageEnd::ChannelClosed,
    }
}

/// The result that the end of a message's processing stands for: what the exporter took, or what
/// needs no exporter, is a success; a full channel may be free again later; everything else stays as
/// it is.
pub open spec fn result_of(end: MessageEnd) -> ProcessingResult {
    match end {
        MessageEnd::Sent => ProcessingResult::Success,
        MessageEnd::NoExporter => ProcessingResult::Success,
        MessageEnd::ChannelFull => ProcessingResult::TransientFailure,
        MessageEnd::ChannelClosed => ProcessingResult::PermanentFailure,
        MessageEnd::NotJson => ProcessingResult::PermanentFailure,
        MessageEnd::NotSerializable => ProcessingResult::PermanentFailure,
    }
}

impl RejectedPayload {
    /// The report on `payload`, previewed up to `limit` bytes, that failed with `error`. The preview
    /// of valid UTF-8 is made of its characters, with none replaced.
    pub open spec fn reports(&self, payload: Seq<u8>, error: Seq<char>, limit: nat) -> bool {
        let shown = payload.take(preview_len(payload, limit) as int);
        &&& self.preview@ == utf8_lossy(shown)
        &&& valid_utf8(payload) ==> self.preview@ == decode_utf8(shown)
        &&& self.payload_size == payload.len()
        &&& self.truncated == (payload.len() > limit)
        &&& self.error@ == error
    }
}

/// Calls `String::from_utf8_lossy`.
///
/// Claimed of it: the text depends on the bytes alone, and valid UTF-8 gives its characters. How
/// invalid bytes are replaced is left unsaid.
#[verifier::external_body]
fn lossy_text(bytes: &[u8]) -> (text: String)
    ensures
        text@ == utf8_lossy(bytes@),
        valid_utf8(bytes@) ==> text@ == decode_utf8(bytes@),
{
    String::from_utf8_lossy(bytes).into_owned()
}

/// Parses a payload and writes the event's line.
pub fn render_message(subject: &str, payload: &[u8]) -> (rendered: RenderedMessage)
    ensures
        match parsed_json(payload@) {
            Ok(payload_text) => {
                &&& rendered is Line
                &&& rendered->Line_0@ == event_line(subject@, payload_text)
                &&& single_line(rendered->Line_0@)
            },
            Err(error) => rendered is NotJson && rendered->NotJson_0@ == error,
        },
{
    match parse_json(payload) {
        Ok(document) => {
            proof {
                reveal_strlit("payload");
                reveal_strlit("subject");
                law_event_line_is_a_single_line(subject@, json_text(document));
            }
            let fields = object_of_two("payload", document, "subject", json_string(subject));
            match json_to_string(&object_of_one("fields", fields)) {
                Ok(line) => RenderedMessage::Line(line),
                Err(error) => RenderedMessage::NotSerializable(error),
            }
        },
        Err(error) => RenderedMessage::NotJson(error),
    }
}

/// Whether a byte is a UTF-8 continuation byte.
fn continues(byte: u8) -> (continues: bool)
    ensures
        continues == is_continuation_byte(byte),
{
    0x80 <= byte && byte <= 0xbf
}

/// Number of bytes of the character at a position of some bytes, where a byte that begins no valid
/// character counts alone.
fn character_length(bytes: &[u8], start: usize) -> (len: usize)
    requires
        start < bytes@.len(),
    ensures
        len == character_len(bytes@.skip(start as int)),
{
    let left: usize = bytes.len() - start;
    let lead: u8 = bytes[start];
    if 0xc0 <= lead && lead <= 0xdf && left >= 2 && continues(bytes[start + 1]) {
        let next: u8 = bytes[start + 1];
        let codepoint: u32 = (((lead & 0x1f) as u32) << 6) | (next & 0x3f) as u32;
        assert(((((lead & 0x1f) as u32) << 6) | (next & 0x3f) as u32) <= 0x7ff) by (bit_vector);
        if 0x80 <= codepoint {
            return 2;
        }
    } else if 0xe0 <= lead && lead <= 0xef && left >= 3 && continues(bytes[start + 1]) && continues(
        bytes[start + 2],
    ) {
        let codepoint: u32 = (((lead & 0x0f) as u32) << 12) | (((bytes[start + 1] & 0x3f) as u32)
            << 6) | (bytes[start + 2] & 0x3f) as u32;
        if 0x800 <= codepoint && !(0xd800 <= codepoint && codepoint <= 0xdfff) {
            return 3;
        }
    } else if 0xf0 <= lead && lead <= 0xf7 && left >= 4 && continues(bytes[start + 1]) && continues(
        bytes[start + 2],
    ) && continues(bytes[start + 3]) {
        let codepoint: u32 = (((lead & 0x07) as u32) << 18) | (((bytes[start + 1] & 0x3f) as u32)
            << 12) | (((bytes[start + 2] & 0x3f) as u32) << 6) | (bytes[start + 3] & 0x3f) as u32;
        if 0x10000 <= codepoint && codepoint <= 0x10ffff {
            return 4;
        }
    }
    1
}

/// Number of bytes of a payload that its preview shows.
pub fn preview_length(payload: &[u8], limit: usize) -> (len: usize)
    ensures
        len == preview_len(payload@, limit as nat),
{
    if payload.len() <= limit {
        return payload.len();
    }
    let mut end: usize = limit;
    while end > 0 && continues(payload[end - 1])
        invariant
            end <= limit < payload@.len(),
            last_start(payload@, end as nat) == last_start(payload@, limit as nat),
        decreases end,
    {
        end = end - 1;
    }
    if end == 0 {
        return limit;
    }
    let start: usize = end - 1;
    let len: usize = character_length(payload, start);
    if len <= limit - start {
        start + len
    } else {
        start
    }
}

/// Decides on a message once it is parsed and rendered.
pub fn finish_message(
    subject: &str,
    payload: &[u8],
    rendered: RenderedMessage,
    preview_limit: usize,
) -> (processed: ProcessedMessage)
    ensures
        match rendered {
            RenderedMessage::Line(line) => {
                &&& processed is Export
                &&& processed->Export_0.subject@ == subject@
                &&& processed->Export_0.line@ == line@
            },
            RenderedMessage::NotJson(error) => {
                &&& processed is NotJson
                &&& processed->NotJson_0.reports(payload@, error@, preview_limit as nat)
            },
            RenderedMessage::NotSerializable(error) => {
                &&& processed is NotSerializable
                &&& processed->NotSerializable_0@ == error@
            },
        },
{
    match rendered {
        RenderedMessage::Line(line) => ProcessedMessage::Export(
            LogEvent { subject: subject.to_owned(), line },
        ),
        RenderedMessage::NotJson(error) => {
            let len: usize = preview_length(payload, preview_limit);
            proof {
                law_preview_within_limit(payload@, preview_limit as nat);
            }
            let shown = slice_subrange(payload, 0, len);
            proof {
                assert(shown@ =~= payload@.take(len as int));
                if valid_utf8(payload@) {
                    lemma_preview_is_valid_utf8(payload@, preview_limit as nat);
                }
            }
            ProcessedMessage::NotJson(
                RejectedPayload {
                    preview: lossy_text(shown),
                    payload_size: payload.len(),
                    truncated: payload.len() > preview_limit,
                    error,
                },
            )
        },
        RenderedMessage::NotSerializable(error) => ProcessedMessage::NotSerializable(error),
    }
}

/// Decides what becomes of a message: a JSON payload is exported under its subject, as one line of
/// compact JSON; any other payload is reported and discarded.
pub fn process_message(subject: &str, payload: &[u8], preview_limit: usize) -> (processed:
    ProcessedMessage)
    ensures
        match parsed_json(payload@) {
            Ok(payload_text) => {
                &&& processed is Export
                &&& processed->Export_0.subject@ == subject@
                &&& processed->Export_0.line@ == event_line(subject@, payload_text)
                &&& single_line(processed->Export_0.line@)
            },
            Err(error) => {
                &&& processed is NotJson
                &&& processed->NotJson_0.reports(payload@, error, preview_limit as nat)
            },
        },
{
    let rendered = render_message(subject, payload);
    finish_message(subject, payload, rendered, preview_limit)
}

/// How the processing of a message ends, by what the exporter's channel made of its event; `None`
/// stands for no exporter, and for a message without event.
pub fn message_end(processed: &ProcessedMessage, offer: Option<OfferOutcome>) -> (end: MessageEnd)
    ensures
        end == end_of(*processed, offer),
{
    match processed {
        ProcessedMessage::NotJson(_) => MessageEnd::NotJson,
        ProcessedMessage::NotSerializable(_) => MessageEnd::NotSerializable,
        ProcessedMessage::Export(_) => match offer {
            None => MessageEnd::NoExporter,
            Some(OfferOutcome::Taken) => MessageEnd::Sent,
            Some(OfferOutcome::Full) => MessageEnd::ChannelFull,
            Some(OfferOutcome::Closed) => MessageEnd::ChannelClosed,
        },
    }
}

/// The result that the end of a message's processing stands for.
pub fn processing_result(end: MessageEnd) -> (result: ProcessingResult)
    ensures
        result == result_of(end),
{
    match end {
        MessageEnd::Sent => ProcessingResult::Success,
        MessageEnd::NoExporter => ProcessingResult::Success,
        MessageEnd::ChannelFull => ProcessingResult::TransientFailure,
        MessageEnd::ChannelClosed => ProcessingResult::PermanentFailure,
        MessageEnd::NotJson => ProcessingResult::PermanentFailure,
        MessageEnd::NotSerializable => ProcessingResult::PermanentFailure,
    }
}

/// An event's line holds no control character, so no line feed either, whatever the subject is.
pub proof fn law_event_line_is_a_single_line(subject: Seq<char>, payload_text: Seq<char>)
    requires
        single_line(payload_text),
    ensures
        single_line(event_line(subject, payload_text)),
        !event_line(subject, payload_text).contains('\n'),
{
    let members = seq![("payload"@, payload_text), ("subject"@, quoted(subject))];
    lemma_quoted_single_line(subject);
    lemma_object_single_line(members);
    lemma_object_single_line(seq![("fields"@, object_text(members))]);
}

/// Messages that were exported to the event file are read back from it line by line: one line for
/// each, in their order, with its subject and its payload.
pub proof fn law_event_file_holds_one_line_per_message(
    batch: Seq<LogEvent>,
    payload_texts: Seq<Seq<char>>,
)
    requires
        batch.len() == payload_texts.len(),
        forall|i: int|
            0 <= i < batch.len() ==> {
                &&& single_line(payload_texts[i])
                &&& (#[trigger] batch[i]).line@ == event_line(batch[i].subject@, payload_texts[i])
            },
    ensures
        read_lines(lines_text(batch)) == (
            Seq::new(batch.len(), |i: int| event_line(batch[i].subject@, payload_texts[i])),
            Seq::<char>::empty(),
        ),
{
    assert forall|i: int| 0 <= i < batch.len() implies !(#[trigger] batch[i]).line@.contains(
        '\n',
    ) by {
        law_event_line_is_a_single_line(batch[i].subject@, payload_texts[i]);
    }
    law_one_line_per_event(batch);
    assert(batch.map_values(|event: LogEvent| event.line@) =~= Seq::new(
        batch.len(),
        |i: int| event_line(batch[i].subject@, payload_texts[i]),
    ));
}

/// A preview shows a payload of up to `limit` bytes whole, and at most `limit` bytes of a longer
/// one.
pub proof fn law_preview_within_limit(payload: Seq<u8>, limit: nat)
    ensures
        preview_len(payload, limit) <= limit,
        preview_len(payload, limit) <= payload.len(),
        payload.len() <= limit ==> preview_len(payload, limit) == payload.len(),
{
    if payload.len() > limit {
        lemma_last_start(payload, limit);
    }
}

/// Whatever the payload, its preview splits no character: where a valid character begins anywhere in
/// the payload, the preview shows all of its bytes, or ends at or before the first.
pub proof fn law_preview_splits_no_character(payload: Seq<u8>, limit: nat)
    ensures
        forall|i: int|
            0 <= i < payload.len() && valid_first_scalar(#[trigger] payload.skip(i)) ==> {
                ||| preview_len(payload, limit) <= i
                ||| i + length_of_first_scalar(payload.skip(i)) <= preview_len(payload, limit)
            },
{
    let cut = preview_len(payload, limit) as int;
    if payload.len() > limit {
        lemma_last_start(payload, limit);
    }
    assert forall|i: int|
        0 <= i < payload.len() && valid_first_scalar(#[trigger] payload.skip(i)) implies cut <= i
        || i + length_of_first_scalar(payload.skip(i)) <= cut by {
        lemma_character_bytes(payload, i);
        if payload.len() > limit {
            match last_start(payload, limit) {
                Some(start) => {
                    if valid_first_scalar(payload.skip(start as int)) {
                        lemma_character_bytes(payload, start as int);
                    }
                },
                None => {},
            }
        }
    }
}

/// The preview of valid UTF-8 that is too long ends between two characters, as close to the limit as
/// it can: no character that fits is left out.
pub proof fn law_preview_ends_at_the_last_boundary(payload: Seq<u8>, limit: nat)
    requires
        valid_utf8(payload),
        limit < payload.len(),
    ensures
        is_char_boundary(payload, preview_len(payload, limit) as int),
        forall|k: int|
            0 <= k <= limit && #[trigger] is_char_boundary(payload, k) ==> k <= preview_len(
                payload,
                limit,
            ),
{
    lemma_last_start(payload, limit);
    is_char_boundary_start_end_of_seq(payload);
    is_char_boundary_iff_not_is_continuation_byte(payload, 0);
    let cut = preview_len(payload, limit) as int;
    if limit > 0 {
        assert(last_start(payload, limit) is Some);
        let start = last_start(payload, limit)->Some_0 as int;
        is_char_boundary_iff_not_is_continuation_byte(payload, start);
        valid_utf8_split(payload, start);
        let rest = payload.skip(start);
        assert(rest =~= payload.subrange(start, payload.len() as int));
        lemma_character_bytes(payload, start);
        let end = start + length_of_first_scalar(rest);
        if end < payload.len() {
            let next = pop_first_scalar(rest);
            assert(valid_utf8(next));
            assert(next[0] == payload[end]);
            is_char_boundary_iff_not_is_continuation_byte(payload, end);
        }
    }
    assert forall|k: int| 0 <= k <= limit && #[trigger] is_char_boundary(payload, k) implies k
        <= cut by {
        is_char_boundary_iff_not_is_continuation_byte(payload, k);
    }
}

/// What the preview of valid UTF-8 shows is valid UTF-8.
proof fn lemma_preview_is_valid_utf8(payload: Seq<u8>, limit: nat)
    requires
        valid_utf8(payload),
    ensures
        valid_utf8(payload.take(preview_len(payload, limit) as int)),
{
    let end = preview_len(payload, limit) as int;
    if payload.len() <= limit {
        assert(payload.take(end) =~= payload);
    } else {
        law_preview_ends_at_the_last_boundary(payload, limit);
        law_preview_within_limit(payload, limit);
        valid_utf8_split(payload, end);
        assert(payload.take(end) =~= payload.subrange(0, end));
    }
}

/// What [`last_start`] finds.
proof fn lemma_last_start(bytes: Seq<u8>, end: nat)
    requires
        end <= bytes.len(),
    ensures
        match last_start(bytes, end) {
            Some(start) => {
                &&& start < end
                &&& !is_continuation_byte(bytes[start as int])
                &&& forall|k: int| start < k < end ==> is_continuation_byte(#[trigger] bytes[k])
            },
            None => forall|k: int| 0 <= k < end ==> is_continuation_byte(#[trigger] bytes[k]),
        },
    decreases end,
{
    if end > 0 && is_continuation_byte(bytes[end - 1]) {
        lemma_last_start(bytes, (end - 1) as nat);
    }
}

/// A valid character lies within the bytes: its first byte is no continuation byte, and the others
/// are.
proof fn lemma_character_bytes(bytes: Seq<u8>, start: int)
    requires
        0 <= start < bytes.len(),
        valid_first_scalar(bytes.skip(start)),
    ensures
        1 <= length_of_first_scalar(bytes.skip(start)) <= bytes.len() - start,
        !is_continuation_byte(bytes[start]),
        forall|k: int|
            start < k < start + length_of_first_scalar(bytes.skip(start)) ==> is_continuation_byte(
                #[trigger] bytes[k],
            ),
{
    let rest = bytes.skip(start);
    assert forall|k: int| start < k < start + length_of_first_scalar(rest) implies
        is_continuation_byte(#[trigger] bytes[k]) by {
        assert(rest[k - start] == bytes[k]);
    }
}

/// The fixed parts of an event's line, put together from their tokens.
proof fn lemma_event_line_tokens()
    ensures
        "{\"fields\":{\"payload\":"@ == seq!['{'] + quoted("fields"@) + seq![':', '{'] + quoted(
            "payload"@,
        ) + seq![':'],
        ",\"subject\":"@ == seq![','] + quoted("subject"@) + seq![':'],
        "}}"@ == seq!['}', '}'],
{
    reveal_strlit("payload");
    reveal_strlit("subject");
    reveal_strlit("fields");
    lemma_name_quoted("payload"@);
    lemma_name_quoted("subject"@);
    lemma_name_quoted("fields"@);
    reveal_strlit("{\"fields\":{\"payload\":");
    reveal_strlit(",\"subject\":");
    reveal_strlit("}}");
}

/// Puts the parts of an event's line together.
proof fn lemma_event_line_assembled(
    fields_name: Seq<char>,
    payload_name: Seq<char>,
    payload_text: Seq<char>,
    subject_name: Seq<char>,
    subject: Seq<char>,
)
    ensures
        ({
            let fields = seq!['{'] + payload_name + seq![':'] + payload_text + seq![',']
                + subject_name + seq![':'] + subject + seq!['}'];
            seq!['{'] + fields_name + seq![':'] + fields + seq!['}']
        }) == (seq!['{'] + fields_name + seq![':', '{'] + payload_name + seq![':']) + payload_text
            + (seq![','] + subject_name + seq![':']) + subject + seq!['}', '}'],
{
}

/// The line of an event, spelled out: the payload's text and the quoted subject stand in it whole,
/// whatever they are.
pub proof fn law_event_line_spelled_out(subject: Seq<char>, payload_text: Seq<char>)
    ensures
        event_line(subject, payload_text) == "{\"fields\":{\"payload\":"@ + payload_text
            + ",\"subject\":"@ + quoted(subject) + "}}"@,
{
    lemma_event_line_tokens();
    let fields = object_text(seq![("payload"@, payload_text), ("subject"@, quoted(subject))]);
    lemma_object_of_two("payload"@, payload_text, "subject"@, quoted(subject));
    lemma_object_of_one("fields"@, fields);
    lemma_event_line_assembled(
        quoted("fields"@),
        quoted("payload"@),
        payload_text,
        quoted("subject"@),
        quoted(subject),
    );
}

/// Two messages with the same subject and different payloads have different lines, and so have two
/// with the same payload and different subjects.
pub proof fn law_different_messages_have_different_lines(
    subject: Seq<char>,
    payload_text: Seq<char>,
    other_subject: Seq<char>,
    other_payload_text: Seq<char>,
)
    ensures
        payload_text != other_payload_text ==> event_line(subject, payload_text) != event_line(
            subject,
            other_payload_text,
        ),
        subject != other_subject ==> event_line(subject, payload_text) != event_line(
            other_subject,
            payload_text,
        ),
{
    let head = "{\"fields\":{\"payload\":"@;
    let middle = ",\"subject\":"@;
    let end = "}}"@;
    law_event_line_spelled_out(subject, payload_text);
    law_event_line_spelled_out(subject, other_payload_text);
    law_event_line_spelled_out(other_subject, payload_text);
    if event_line(subject, payload_text) == event_line(subject, other_payload_text) {
        let rest = middle + quoted(subject) + end;
        assert(head + payload_text + middle + quoted(subject) + end =~= head + payload_text + rest);
        assert(head + other_payload_text + middle + quoted(subject) + end =~= head
            + other_payload_text + rest);
        lemma_inner_part(head, payload_text, other_payload_text, rest);
    }
    if event_line(subject, payload_text) == event_line(other_subject, payload_text) {
        lemma_inner_part(
            head + payload_text + middle,
            quoted(subject),
            quoted(other_subject),
            end,
        );
        law_quoted_tells_texts_apart(subject, other_subject);
    }
}

/// What stands between the same start and the same end is told by the whole.
proof fn lemma_inner_part(start: Seq<char>, part: Seq<char>, other: Seq<char>, end: Seq<char>)
    requires
        start + part + end == start + other + end,
    ensures
        part == other,
{
    let whole = start + part + end;
    assert(whole.len() == (start + other + end).len());
    let from = start.len() as int;
    let to = (start.len() + part.len()) as int;
    assert(part =~= whole.subrange(from, to));
    assert(other =~= (start + other + end).subrange(from, to));
}

/// How a payload is cut that is longer than the limit, whatever its bytes are, in terms of the last
/// byte before the limit that is no continuation byte: behind the valid character that it begins, or
/// before it where that character does not fit, or behind the byte itself where it begins none. Where
/// there is no such byte, the payload is cut at the limit.
pub proof fn law_where_a_preview_ends(payload: Seq<u8>, limit: nat)
    requires
        limit < payload.len(),
    ensures
        forall|i: int|
            #![trigger payload.skip(i)]
            0 <= i < limit && !(0x80 <= payload[i] <= 0xbf) && (forall|k: int|
                i < k < limit ==> 0x80 <= #[trigger] payload[k] <= 0xbf) ==> preview_len(
                payload,
                limit,
            ) == (if !valid_first_scalar(payload.skip(i)) {
                i + 1
            } else if i + length_of_first_scalar(payload.skip(i)) <= limit {
                i + length_of_first_scalar(payload.skip(i))
            } else {
                i
            }),
        (forall|k: int| 0 <= k < limit ==> 0x80 <= #[trigger] payload[k] <= 0xbf) ==> preview_len(
            payload,
            limit,
        ) == limit,
{
    lemma_last_start(payload, limit);
    assert forall|i: int|
        #![trigger payload.skip(i)]
        0 <= i < limit && !(0x80 <= payload[i] <= 0xbf) && (forall|k: int|
            i < k < limit ==> 0x80 <= #[trigger] payload[k] <= 0xbf) implies preview_len(
        payload,
        limit,
    ) == (if !valid_first_scalar(payload.skip(i)) {
        i + 1
    } else if i + length_of_first_scalar(payload.skip(i)) <= limit {
        i + length_of_first_scalar(payload.skip(i))
    } else {
        i
    }) by {
        assert(is_continuation_byte(payload[i]) == (0x80 <= payload[i] <= 0xbf));
        assert(last_start(payload, limit) is Some);
        let start = last_start(payload, limit)->Some_0 as int;
        assert(!is_continuation_byte(payload[start]));
        assert(start == i);
        if valid_first_scalar(payload.skip(i)) {
            lemma_character_bytes(payload, i);
        }
    }
}

/// A report says of a payload how large it is, whether it was cut, what the parser said, and what it
/// starts with.
pub proof fn law_what_a_report_says(
    report: RejectedPayload,
    payload: Seq<u8>,
    error: Seq<char>,
    limit: nat,
)
    requires
        report.reports(payload, error, limit),
    ensures
        report.payload_size == payload.len(),
        report.truncated <==> payload.len() > limit,
        report.error@ == error,
        payload.len() <= limit ==> report.preview@ == utf8_lossy(payload),
        payload.len() <= limit && valid_utf8(payload) ==> report.preview@ == decode_utf8(payload),
        report.preview@ == utf8_lossy(payload.take(preview_len(payload, limit) as int)),
{
    assert(payload.take(payload.len() as int) =~= payload);
}

/// A message ends as sent, full, closed or without exporter exactly where it holds an event and the
/// exporter's channel took it, was full, was closed, or was not there.
pub proof fn law_how_messages_end(processed: ProcessedMessage, offer: Option<OfferOutcome>)
    ensures
        ({
            let end = end_of(processed, offer);
            &&& end == MessageEnd::NotJson <==> processed is NotJson
            &&& end == MessageEnd::NotSerializable <==> processed is NotSerializable
            &&& end == MessageEnd::Sent <==> processed is Export && offer == Some(
                OfferOutcome::Taken,
            )
            &&& end == MessageEnd::ChannelFull <==> processed is Export && offer == Some(
                OfferOutcome::Full,
            )
            &&& end == MessageEnd::ChannelClosed <==> processed is Export && offer == Some(
                OfferOutcome::Closed,
            )
            &&& end == MessageEnd::NoExporter <==> processed is Export && offer is None
        }),
{
}

/// A message is a success exactly where the exporter took its event or there is none, and may be
/// tried again exactly where the channel was full.
pub proof fn law_results_of_message_ends(end: MessageEnd)
    ensures
        result_of(end) == ProcessingResult::Success <==> end == MessageEnd::Sent || end
            == MessageEnd::NoExporter,
        result_of(end) == ProcessingResult::TransientFailure <==> end == MessageEnd::ChannelFull,
{
}

} // verus!
