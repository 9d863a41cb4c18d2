use events_aggregator::exporter::disk::render_lines;
use events_aggregator::exporter::LogEvent;
use events_aggregator::message::{
    finish_message, message_end, preview_length, process_message, processing_result,
    render_message, MessageEnd, OfferOutcome, ProcessedMessage, ProcessingResult, RejectedPayload,
    RenderedMessage,
};
use events_aggregator::reply::{reply_to, reply_with, MessageSource, Reply};
use serde_json::Value;

fn exported(subject: &str, payload: &str) -> LogEvent {
    match process_message(subject, payload.as_bytes(), 64) {
        ProcessedMessage::Export(event) => event,
        other => panic!("unexpected {other:?}"),
    }
}

fn rejected(payload: &[u8], limit: usize) -> RejectedPayload {
    match process_message("events.x", payload, limit) {
        ProcessedMessage::NotJson(report) => report,
        other => panic!("unexpected {other:?}"),
    }
}

/// The event's document, written by `serde_json` as a whole.
fn reference_line(subject: &str, payload: &str) -> String {
    let mut fields = serde_json::Map::new();
    fields.insert("subject".to_string(), Value::from(subject));
    fields.insert("payload".to_string(), serde_json::from_str(payload).unwrap());
    let mut line = serde_json::Map::new();
    line.insert("fields".to_string(), Value::Object(fields));
    serde_json::to_string(&Value::Object(line)).unwrap()
}

#[test]
fn json_payload_is_exported_as_a_compact_line() {
    let event = exported("events.pool", "{ \"b\": [1, 2.5, null],\n  \"a\": \"x\\ny\" }");
    assert_eq!(event.subject, "events.pool");
    assert_eq!(
        event.line,
        "{\"fields\":{\"payload\":{\"a\":\"x\\ny\",\"b\":[1,2.5,null]},\"subject\":\"events.pool\"}}"
    );
}

#[test]
fn line_is_what_serde_json_writes() {
    let subjects = ["events.pool", "", "q\"uote\\", "line\nfeed\r\t\u{8}\u{c}\u{1f}\u{7f}", "é😀/"];
    let payloads = [
        "null",
        " true ",
        "-0.5e-7",
        "12345678901234567890123",
        "\"\\u0000\\u001f\\u2028\\\"\"",
        "[]",
        "{\"z\":{},\"a\":[[],{\"k\":\"v\"}],\"a\":1}",
    ];
    for subject in subjects {
        for payload in payloads {
            let event = exported(subject, payload);
            assert_eq!(event.line, reference_line(subject, payload));
            assert_eq!(event.subject, subject);
        }
    }
}

#[test]
fn every_escape_below_the_space() {
    for code in 0u8..0x80 {
        let subject = (code as char).to_string();
        let event = exported(&subject, "0");
        assert_eq!(event.line, reference_line(&subject, "0"));
        assert!(event.line.chars().all(|c| c >= ' '));
    }
}

#[test]
fn exported_messages_are_one_line_each() {
    let batch = [
        exported("a\nb", "\"c\\nd\""),
        exported("e", "{\n\"f\":\n1}"),
    ];
    let text = render_lines(&batch);
    let lines: Vec<&str> = text.lines().collect();
    assert_eq!(lines, vec![batch[0].line.as_str(), batch[1].line.as_str()]);
    let first: Value = serde_json::from_str(lines[0]).unwrap();
    assert_eq!(first["fields"]["subject"], "a\nb");
    assert_eq!(first["fields"]["payload"], "c\nd");
}

#[test]
fn rendering_tells_json_from_other_payloads() {
    match render_message("s", b"[1]") {
        RenderedMessage::Line(line) => {
            assert_eq!(line, "{\"fields\":{\"payload\":[1],\"subject\":\"s\"}}")
        }
        other => panic!("unexpected {other:?}"),
    }
    match render_message("s", b"") {
        RenderedMessage::NotJson(error) => {
            assert_eq!(error, "EOF while parsing a value at line 1 column 0")
        }
        other => panic!("unexpected {other:?}"),
    }
}

#[test]
fn short_payload_is_previewed_whole() {
    let report = rejected(b"not json", 8);
    assert_eq!(report.preview, "not json");
    assert_eq!(report.payload_size, 8);
    assert!(!report.truncated);
    assert_eq!(report.error, "expected ident at line 1 column 2");
}

#[test]
fn long_payload_is_cut_at_the_limit() {
    let report = rejected(b"not json at all", 8);
    assert_eq!(report.preview, "not json");
    assert_eq!(report.payload_size, 15);
    assert!(report.truncated);
}

#[test]
fn invalid_bytes_are_replaced_in_the_preview() {
    let report = rejected(b"ab\xffcd", 64);
    assert_eq!(report.preview, "ab\u{fffd}cd");
    assert!(!report.truncated);
}

#[test]
fn preview_splits_no_character() {
    // The euro sign takes three bytes; the cut stands before it or behind it.
    let text = "ab€cd".as_bytes();
    for (limit, len) in [(0, 0), (1, 1), (2, 2), (3, 2), (4, 2), (5, 5), (6, 6), (7, 7), (100, 7)] {
        assert_eq!(preview_length(text, limit), len);
    }
    assert_eq!(rejected(text, 4).preview, "ab");
    assert!(rejected(text, 4).truncated);
    assert_eq!(rejected(text, 5).preview, "ab€");
    assert_eq!(rejected(text, 6).preview, "ab€c");
    assert_eq!(preview_length("€".as_bytes(), 2), 0);
    assert_eq!(rejected("€".as_bytes(), 2).preview, "");
}

#[test]
fn preview_is_the_longest_start_that_fits() {
    let text = "aé€😀 not json é€😀";
    for limit in 0..text.len() {
        let report = rejected(text.as_bytes(), limit);
        let longest = (0..=limit).filter(|end| text.is_char_boundary(*end)).max().unwrap();
        assert_eq!(report.preview, &text[..longest]);
        assert!(report.truncated);
    }
}

#[test]
fn preview_of_continuation_bytes_only() {
    assert_eq!(preview_length(&[0x80, 0x81, 0x82, 0xbf], 3), 3);
    assert_eq!(preview_length(&[0x80, 0x81, 0x82, 0xbf], 0), 0);
    assert_eq!(preview_length(&[], 3), 0);
}

#[test]
fn preview_keeps_whole_characters_among_invalid_bytes() {
    assert_eq!(preview_length(&[0x61, 0x80, 0x80], 1), 1);
    assert_eq!(rejected(&[0x61, 0x80, 0x80], 1).preview, "a");
    assert_eq!(preview_length(&[0x80, 0x61, 0x82, 0xbf], 3), 2);
    // A whole euro sign, then a stray continuation byte.
    assert_eq!(preview_length(&[0xe2, 0x82, 0xac, 0x80, 0x80], 4), 3);
    assert_eq!(preview_length(&[0xe2, 0x82, 0xac, 0x80, 0x80], 2), 0);
}

#[test]
fn byte_that_begins_no_character_counts_alone() {
    // Cut short, overlong, surrogate, above the last code point, and no lead byte at all.
    for payload in [
        [0xc3, 0x61, 0x61, 0x61, 0x61],
        [0xe2, 0x82, 0x61, 0x61, 0x61],
        [0xf0, 0x9f, 0x98, 0x61, 0x61],
        [0xc1, 0xbf, 0x61, 0x61, 0x61],
        [0xe0, 0x9f, 0xbf, 0x61, 0x61],
        [0xf0, 0x8f, 0xbf, 0xbf, 0x61],
        [0xed, 0xa0, 0x80, 0x61, 0x61],
        [0xf4, 0x90, 0x80, 0x80, 0x61],
        [0xf8, 0x88, 0x80, 0x80, 0x80],
        [0xff, 0x80, 0x80, 0x80, 0x80],
    ] {
        assert_eq!(preview_length(&payload, 1), 1);
    }
    for (payload, len) in [
        ([0xc2, 0x80, 0x61, 0x61, 0x61], 2),
        ([0xe0, 0xa0, 0x80, 0x61, 0x61], 3),
        ([0xed, 0x9f, 0xbf, 0x61, 0x61], 3),
        ([0xee, 0x80, 0x80, 0x61, 0x61], 3),
        ([0xf0, 0x90, 0x80, 0x80, 0x61], 4),
        ([0xf4, 0x8f, 0xbf, 0xbf, 0x61], 4),
    ] {
        for limit in 0..len {
            assert_eq!(preview_length(&payload, limit), 0);
        }
        assert_eq!(preview_length(&payload, len), len);
    }
}

#[test]
fn rendered_message_decides() {
    match finish_message("s", b"p", RenderedMessage::Line("l".to_string()), 4) {
        ProcessedMessage::Export(event) => {
            assert_eq!(event.subject, "s");
            assert_eq!(event.line, "l");
        }
        other => panic!("unexpected {other:?}"),
    }
    match finish_message("s", b"payload", RenderedMessage::NotJson("why".to_string()), 4) {
        ProcessedMessage::NotJson(report) => {
            assert_eq!(report.preview, "payl");
            assert_eq!(report.payload_size, 7);
            assert!(report.truncated);
            assert_eq!(report.error, "why");
        }
        other => panic!("unexpected {other:?}"),
    }
    match finish_message("s", b"p", RenderedMessage::NotSerializable("why".to_string()), 4) {
        ProcessedMessage::NotSerializable(error) => assert_eq!(error, "why"),
        other => panic!("unexpected {other:?}"),
    }
}

#[test]
fn ends_of_messages() {
    let export = process_message("s", b"1", 4);
    assert_eq!(message_end(&export, None), MessageEnd::NoExporter);
    assert_eq!(message_end(&export, Some(OfferOutcome::Taken)), MessageEnd::Sent);
    assert_eq!(message_end(&export, Some(OfferOutcome::Full)), MessageEnd::ChannelFull);
    assert_eq!(message_end(&export, Some(OfferOutcome::Closed)), MessageEnd::ChannelClosed);
    let not_json = process_message("s", b"?", 4);
    let not_serializable = ProcessedMessage::NotSerializable("why".to_string());
    for offer in [None, Some(OfferOutcome::Taken), Some(OfferOutcome::Full)] {
        assert_eq!(message_end(&not_json, offer), MessageEnd::NotJson);
        assert_eq!(message_end(&not_serializable, offer), MessageEnd::NotSerializable);
    }
}

#[test]
fn acknowledged_only_when_done() {
    let reply = |payload: &[u8], offer| {
        let end = message_end(&process_message("s", payload, 4), offer);
        reply_with(MessageSource::JetStream, processing_result(end), 0)
    };
    assert_eq!(reply(b"1", Some(OfferOutcome::Full)), Some(Reply::Nak { delay_secs: 1 }));
    assert_eq!(reply(b"1", Some(OfferOutcome::Taken)), Some(Reply::Ack));
    assert_eq!(reply(b"1", Some(OfferOutcome::Closed)), Some(Reply::Ack));
    assert_eq!(reply(b"1", None), Some(Reply::Ack));
    assert_eq!(reply(b"?", None), Some(Reply::Ack));
}

#[test]
fn results_of_message_ends() {
    assert_eq!(processing_result(MessageEnd::Sent), ProcessingResult::Success);
    assert_eq!(processing_result(MessageEnd::NoExporter), ProcessingResult::Success);
    assert_eq!(processing_result(MessageEnd::ChannelFull), ProcessingResult::TransientFailure);
    assert_eq!(processing_result(MessageEnd::ChannelClosed), ProcessingResult::PermanentFailure);
    assert_eq!(processing_result(MessageEnd::NotJson), ProcessingResult::PermanentFailure);
    assert_eq!(processing_result(MessageEnd::NotSerializable), ProcessingResult::PermanentFailure);
}

#[test]
fn jetstream_messages_are_answered() {
    let source = MessageSource::JetStream;
    assert_eq!(reply_with(source, ProcessingResult::Success, 9), Some(Reply::Ack));
    assert_eq!(reply_with(source, ProcessingResult::PermanentFailure, 9), Some(Reply::Ack));
    for (random, delay_secs) in [(0, 1), (1, 2), (4, 5), (5, 1), (u64::MAX, 1)] {
        assert_eq!(
            reply_with(source, ProcessingResult::TransientFailure, random),
            Some(Reply::Nak { delay_secs })
        );
    }
}

#[test]
fn only_a_full_channel_brings_a_message_back() {
    for end in [
        MessageEnd::Sent,
        MessageEnd::NoExporter,
        MessageEnd::ChannelFull,
        MessageEnd::ChannelClosed,
        MessageEnd::NotJson,
        MessageEnd::NotSerializable,
    ] {
        let reply = reply_with(MessageSource::JetStream, processing_result(end), 2);
        if end == MessageEnd::ChannelFull {
            assert_eq!(reply, Some(Reply::Nak { delay_secs: 3 }));
        } else {
            assert_eq!(reply, Some(Reply::Ack));
        }
    }
}

#[test]
fn core_messages_are_not_answered() {
    for result in [
        ProcessingResult::Success,
        ProcessingResult::TransientFailure,
        ProcessingResult::PermanentFailure,
    ] {
        assert_eq!(reply_with(MessageSource::Core, result, 3), None);
        assert_eq!(reply_to(MessageSource::Core, result), None);
    }
}

#[test]
fn redelivery_delays_are_spread() {
    let mut seen = [false; 6];
    for _ in 0..1000 {
        match reply_to(MessageSource::JetStream, ProcessingResult::TransientFailure) {
            Some(Reply::Nak { delay_secs }) => seen[delay_secs as usize] = true,
            other => panic!("unexpected {other:?}"),
        }
    }
    assert_eq!(seen, [false, true, true, true, true, true]);
    assert_eq!(
        reply_to(MessageSource::JetStream, ProcessingResult::PermanentFailure),
        Some(Reply::Ack)
    );
}
