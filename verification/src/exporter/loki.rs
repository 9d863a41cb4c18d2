//! Loki's push API: the request for a batch, and what to make of the answer.

use crate::constant::{LOKI_PUSH_PATH, LOKI_TENANT, LOKI_TENANT_HEADER, SERVICE_NAME};
use crate::exporter::event::LogEvent;
use crate::json::{
    array_of_one, array_of_two, array_text, element_texts, joined, json_array, json_string,
    json_text, json_to_string, lemma_name_quoted, lemma_object_of_one, lemma_object_of_two,
    object_of_one, object_of_two, object_text, quoted,
};
use crate::text::{
    decimal, decimal_text, law_decimal_reads_back, law_only_trailing_slashes_go,
    lemma_no_slash_left, trim_trailing_slashes, without_trailing_slashes,
};
use vstd::prelude::*;

verus! {

/// The URL of the push API of a Loki server.
pub open spec fn push_endpoint_text(url: Seq<char>) -> Seq<char> {
    without_trailing_slashes(url) + LOKI_PUSH_PATH@
}

/// The Loki stream of one event: its labels are the service and the event's subject, and its only
/// entry is the event's line at a time in nanoseconds.
pub open spec fn stream_text(event: LogEvent, timestamp: u128) -> Seq<char> {
    let labels = object_text(
        seq![("app"@, quoted(SERVICE_NAME@)), ("subject"@, quoted(event.subject@))],
    );
    let entry = array_text(seq![quoted(decimal(timestamp as nat)), quoted(event.line@)]);
    object_text(seq![("stream"@, labels), ("values"@, array_text(seq![entry]))])
}

/// The body of a push request: one stream for each event, in their order, with the event's time.
pub open spec fn push_body_text(batch: Seq<LogEvent>, timestamps: Seq<u128>) -> Seq<char> {
    let streams = Seq::new(batch.len(), |i: int| stream_text(batch[i], timestamps[i]));
    object_text(seq![("streams"@, array_text(streams))])
}

/// The time in nanoseconds that a reading of the clock stands for: the time since the Unix epoch,
/// or zero before it.
pub open spec fn time_of(reading: Option<u128>) -> u128 {
    match reading {
        Some(nanos) => nanos,
        None => 0,
    }
}

/// The times that readings of the clock stand for.
pub open spec fn times_of(readings: Seq<Option<u128>>) -> Seq<u128> {
    readings.map_values(|reading: Option<u128>| time_of(reading))
}

/// Whether one reading of the clock is not later than another; `None` is before the Unix epoch.
pub open spec fn not_later(reading: Option<u128>, other: Option<u128>) -> bool {
    match (reading, other) {
        (None, _) => true,
        (Some(_), None) => false,
        (Some(nanos), Some(other_nanos)) => nanos <= other_nanos,
    }
}

/// Whether an HTTP status says that the request succeeded.
pub open spec fn is_success(status: u16) -> bool {
    200 <= status < 300
}

/// What is reported of a push that Loki rejected.
pub open spec fn rejection_text(status: Seq<char>, body: Option<Seq<char>>) -> Seq<char> {
    "Loki rejected packet [Status "@ + status + "]: "@ + (match body {
        Some(text) => text,
        None => "Unknown API error payload"@,
    })
}

/// A request to Loki's push API.
#[derive(Debug)]
pub struct PushRequest {
    pub endpoint: String,
    pub tenant_header: &'static str,
    pub tenant: &'static str,
    pub body: String,
}

/// Calls `std::time::SystemTime::now`, and hands the time out as the nanoseconds since the Unix
/// epoch, or as `None` before it. Nothing is claimed of the time.
#[verifier::external_body]
fn unix_nanos() -> (nanos: Option<u128>) {
    std::time::SystemTime::now()
        .duration_since(std::time::UNIX_EPOCH)
        .map(|elapsed| elapsed.as_nanos())
        .ok()
}

/// The clock gave `reading` when it was read.
pub closed spec fn clock_gave(reading: Option<u128>) -> bool {
    call_ensures(unix_nanos, (), reading)
}

/// Reads the clock once more, after `readings`.
fn with_next_reading(readings: Vec<Option<u128>>) -> (extended: Vec<Option<u128>>)
    ensures
        extended@.len() == readings@.len() + 1,
        extended@.drop_last() == readings@,
        clock_gave(extended@.last()),
{
    let ghost before = readings@;
    let mut readings = readings;
    readings.push(unix_nanos());
    assert(readings@.drop_last() =~= before);
    readings
}

/// The readings come from the clock, one after the other: each was taken afresh, when exactly those
/// before it were already there.
pub closed spec fn read_from_the_clock(readings: Seq<Option<u128>>) -> bool
    decreases readings.len(),
{
    readings.len() > 0 ==> {
        &&& read_from_the_clock(readings.drop_last())
        &&& exists|before: Vec<Option<u128>>, after: Vec<Option<u128>>|
            before@ == readings.drop_last() && after@ == readings && #[trigger] call_ensures(
                with_next_reading,
                (before,),
                after,
            )
    }
}

/// The URL that a batch is pushed to: slashes at the end of the server's URL do not count.
pub fn push_endpoint(url: &str) -> (endpoint: String)
    ensures
        endpoint@ == push_endpoint_text(url@),
{
    let mut endpoint = trim_trailing_slashes(url).to_owned();
    endpoint.append(LOKI_PUSH_PATH);
    endpoint
}

/// The Loki stream of one event.
fn stream_entry(event: &LogEvent, timestamp: u128) -> (stream: serde_json::Value)
    ensures
        json_text(stream) == stream_text(*event, timestamp),
{
    proof {
        reveal_strlit("app");
        reveal_strlit("subject");
        reveal_strlit("stream");
        reveal_strlit("values");
    }
    let nanos = decimal_text(timestamp);
    let labels = object_of_two(
        "app",
        json_string(SERVICE_NAME),
        "subject",
        json_string(event.subject.as_str()),
    );
    let entry = array_of_two(
        json_string(nanos.as_str()),
        json_string(event.line.as_str()),
    );
    object_of_two("stream", labels, "values", array_of_one(entry))
}

/// The body of a push request for events with the given times.
pub fn push_body_at(batch: &[LogEvent], timestamps: &[u128]) -> (body: String)
    requires
        batch@.len() == timestamps@.len(),
    ensures
        body@ == push_body_text(batch@, timestamps@),
{
    let mut streams: Vec<serde_json::Value> = Vec::new();
    let mut i: usize = 0;
    while i < batch.len()
        invariant
            i <= batch@.len(),
            batch@.len() == timestamps@.len(),
            streams@.len() == i,
            forall|k: int|
                0 <= k < i ==> json_text(#[trigger] streams@[k]) == stream_text(
                    batch@[k],
                    timestamps@[k],
                ),
        decreases batch@.len() - i,
    {
        streams.push(stream_entry(&batch[i], timestamps[i]));
        i = i + 1;
    }
    assert(element_texts(streams@) =~= Seq::new(
        batch@.len(),
        |k: int| stream_text(batch@[k], timestamps@[k]),
    ));
    let body = object_of_one("streams", json_array(streams));
    json_to_string(&body).unwrap()
}

/// The body of a push request for events with the given readings of the clock.
pub fn push_body_from(batch: &[LogEvent], readings: &[Option<u128>]) -> (body: String)
    requires
        batch@.len() == readings@.len(),
    ensures
        body@ == push_body_text(batch@, times_of(readings@)),
{
    let mut timestamps: Vec<u128> = Vec::new();
    let mut i: usize = 0;
    while i < readings.len()
        invariant
            i <= readings@.len(),
            timestamps@ == times_of(readings@).take(i as int),
        decreases readings@.len() - i,
    {
        let nanos: u128 = match readings[i] {
            Some(nanos) => nanos,
            None => 0,
        };
        timestamps.push(nanos);
        i = i + 1;
    }
    assert(timestamps@ =~= times_of(readings@));
    push_body_at(batch, timestamps.as_slice())
}

/// The body of a push request. The clock is read once for each event, in their order.
pub fn push_body(batch: &[LogEvent]) -> (body: String)
    ensures
        exists|readings: Seq<Option<u128>>|
            readings.len() == batch@.len() && read_from_the_clock(readings) && body@
                == push_body_text(batch@, #[trigger] times_of(readings)),
{
    let mut readings: Vec<Option<u128>> = Vec::new();
    let mut i: usize = 0;
    while i < batch.len()
        invariant
            i <= batch@.len(),
            readings@.len() == i,
            read_from_the_clock(readings@),
        decreases batch@.len() - i,
    {
        readings = with_next_reading(readings);
        i = i + 1;
    }
    push_body_from(batch, readings.as_slice())
}

/// The request that pushes a batch to the Loki server at `url`.
pub fn push_request(url: &str, batch: &[LogEvent]) -> (request: PushRequest)
    ensures
        request.endpoint@ == push_endpoint_text(url@),
        request.tenant_header@ == LOKI_TENANT_HEADER@,
        request.tenant@ == LOKI_TENANT@,
        exists|readings: Seq<Option<u128>>|
            readings.len() == batch@.len() && read_from_the_clock(readings) && request.body@
                == push_body_text(batch@, #[trigger] times_of(readings)),
{
    PushRequest {
        endpoint: push_endpoint(url),
        tenant_header: LOKI_TENANT_HEADER,
        tenant: LOKI_TENANT,
        body: push_body(batch),
    }
}

/// Whether Loki took a push, by the status of its answer.
pub fn push_accepted(status: u16) -> (accepted: bool)
    ensures
        accepted == is_success(status),
        accepted <==> status / 100 == 2,
{
    200 <= status && status < 300
}

/// The error for a push that Loki rejected, by the answer's status line and body; `None` stands for
/// a body that could not be read.
pub fn rejection_message(status: &str, body: Option<String>) -> (message: String)
    ensures
        message@ == rejection_text(
            status@,
            match body {
                Some(text) => Some(text@),
                None => None,
            },
        ),
{
    let mut message = "Loki rejected packet [Status ".to_owned();
    message.append(status);
    message.append("]: ");
    match body {
        Some(text) => message.append(text.as_str()),
        None => message.append("Unknown API error payload"),
    }
    message
}

/// Slashes at the end of the server's URL make no difference, and none is left before the path.
pub proof fn law_endpoint_ignores_trailing_slashes(url: Seq<char>)
    ensures
        push_endpoint_text(url.push('/')) == push_endpoint_text(url),
        without_trailing_slashes(url).len() > 0 ==> without_trailing_slashes(url).last() != '/',
{
    assert(url.push('/').drop_last() =~= url);
    lemma_no_slash_left(url);
}

/// The times along a batch do not decrease where the clock does not run backwards.
pub proof fn law_times_follow_the_clock(readings: Seq<Option<u128>>)
    requires
        forall|i: int, j: int|
            0 <= i <= j < readings.len() ==> not_later(#[trigger] readings[i], #[trigger] readings[j]),
    ensures
        forall|i: int, j: int|
            0 <= i <= j < readings.len() ==> #[trigger] times_of(readings)[i]
                <= #[trigger] times_of(readings)[j],
{
    assert forall|i: int, j: int| 0 <= i <= j < readings.len() implies #[trigger] times_of(
        readings,
    )[i] <= #[trigger] times_of(readings)[j] by {
        assert(not_later(readings[i], readings[j]));
    }
}

/// A push counts as accepted exactly for the statuses whose hundreds are two: none below 200 and
/// none from 300 on does.
pub proof fn law_only_the_two_hundreds_are_accepted(status: u16)
    ensures
        is_success(status) <==> status / 100 == 2,
        status < 200 || status >= 300 ==> !is_success(status),
{
}

/// The path is put behind a server's URL that does not end in a slash, and nothing of the URL is
/// lost.
pub proof fn law_endpoint_spelled_out(url: Seq<char>)
    requires
        url.len() == 0 || url.last() != '/',
    ensures
        push_endpoint_text(url) == url + "/loki/api/v1/push"@,
{
    law_only_trailing_slashes_go(url);
}

/// The message for a rejected push quotes the status and the answer whole.
pub proof fn law_rejection_spelled_out(status: Seq<char>, body: Seq<char>)
    ensures
        rejection_text(status, Some(body)) == "Loki rejected packet [Status "@ + status + "]: "@
            + body,
        rejection_text(status, None) == "Loki rejected packet [Status "@ + status + "]: "@
            + "Unknown API error payload"@,
{
}

/// What the clock gave is what an event is stamped with, to the nanosecond; a time before the Unix
/// epoch counts as zero. There is one time for each reading, in their order.
pub proof fn law_times_are_the_readings(readings: Seq<Option<u128>>)
    ensures
        times_of(readings).len() == readings.len(),
        forall|i: int|
            0 <= i < readings.len() ==> #[trigger] times_of(readings)[i] == (match readings[i] {
                Some(nanos) => nanos,
                None => 0,
            }),
{
}

/// Each of the readings in a row is one that the clock gave, and was taken afresh: a row of them
/// starts with rows of them.
pub proof fn law_every_reading_is_the_clocks(readings: Seq<Option<u128>>)
    requires
        read_from_the_clock(readings),
    ensures
        forall|i: int| 0 <= i < readings.len() ==> clock_gave(#[trigger] readings[i]),
        forall|n: int| 0 <= n <= readings.len() ==> read_from_the_clock(#[trigger] readings.take(n)),
    decreases readings.len(),
{
    assert(readings.take(readings.len() as int) =~= readings);
    if readings.len() > 0 {
        let prior = readings.drop_last();
        law_every_reading_is_the_clocks(prior);
        assert forall|n: int| 0 <= n <= readings.len() implies read_from_the_clock(
            #[trigger] readings.take(n),
        ) by {
            if n < readings.len() {
                assert(readings.take(n) =~= prior.take(n));
            }
        }
        assert forall|i: int| 0 <= i < readings.len() implies clock_gave(#[trigger] readings[i]) by {
            if i < prior.len() {
                assert(prior[i] == readings[i]);
            }
        }
    }
}

/// The fixed parts of a stream, put together from their tokens.
proof fn lemma_stream_tokens()
    ensures
        "{\"stream\":{\"app\":\"events-aggregator\",\"subject\":"@ == seq!['{'] + quoted("stream"@)
            + seq![':', '{'] + quoted("app"@) + seq![':'] + quoted(SERVICE_NAME@) + seq![',']
            + quoted("subject"@) + seq![':'],
        "},\"values\":[[\""@ == seq!['}', ','] + quoted("values"@) + seq![':', '[', '[', '"'],
        "\","@ == seq!['"', ','],
        "]]}"@ == seq![']', ']', '}'],
{
    reveal_strlit("app");
    reveal_strlit("subject");
    reveal_strlit("stream");
    reveal_strlit("values");
    reveal_strlit("events-aggregator");
    lemma_name_quoted("app"@);
    lemma_name_quoted("subject"@);
    lemma_name_quoted("stream"@);
    lemma_name_quoted("values"@);
    lemma_name_quoted(SERVICE_NAME@);
    reveal_strlit("{\"stream\":{\"app\":\"events-aggregator\",\"subject\":");
    reveal_strlit("},\"values\":[[\"");
    reveal_strlit("\",");
    reveal_strlit("]]}");
}

/// An array with two elements, spelled out.
proof fn lemma_array_of_two(first: Seq<char>, second: Seq<char>)
    ensures
        array_text(seq![first, second]) == seq!['['] + first + seq![','] + second + seq![']'],
{
    assert(seq![first, second].drop_last() =~= seq![first]);
    assert(joined(seq![first]) == first);
    assert(array_text(seq![first, second]) =~= seq!['['] + first + seq![','] + second + seq![']']);
}

/// Puts the parts of a stream together, where `subject`, `time` and `line` are its quoted texts and
/// `digits` are those of the time.
proof fn lemma_stream_assembled(
    subject: Seq<char>,
    time: Seq<char>,
    digits: Seq<char>,
    line: Seq<char>,
    stream_name: Seq<char>,
    app_name: Seq<char>,
    service: Seq<char>,
    subject_name: Seq<char>,
    values_name: Seq<char>,
)
    requires
        time == seq!['"'] + digits + seq!['"'],
    ensures
        ({
            let labels = seq!['{'] + app_name + seq![':'] + service + seq![','] + subject_name
                + seq![':'] + subject + seq!['}'];
            let entries = seq!['['] + (seq!['['] + time + seq![','] + line + seq![']']) + seq![']'];
            seq!['{'] + stream_name + seq![':'] + labels + seq![','] + values_name + seq![':']
                + entries + seq!['}']
        }) == (seq!['{'] + stream_name + seq![':', '{'] + app_name + seq![':'] + service
            + seq![','] + subject_name + seq![':']) + subject + (seq!['}', ','] + values_name
            + seq![':', '[', '[', '"']) + digits + seq!['"', ','] + line + seq![']', ']', '}'],
{
}

/// The stream of an event, spelled out: its subject, its time and its line stand in it whole.
pub proof fn law_stream_spelled_out(event: LogEvent, timestamp: u128)
    ensures
        stream_text(event, timestamp)
            == "{\"stream\":{\"app\":\"events-aggregator\",\"subject\":"@ + quoted(event.subject@)
            + "},\"values\":[[\""@ + decimal(timestamp as nat) + "\","@ + quoted(event.line@)
            + "]]}"@,
{
    law_decimal_reads_back(timestamp as nat);
    lemma_name_quoted(decimal(timestamp as nat));
    lemma_stream_tokens();
    let subject = quoted(event.subject@);
    let digits = decimal(timestamp as nat);
    let line = quoted(event.line@);
    let labels = object_text(seq![("app"@, quoted(SERVICE_NAME@)), ("subject"@, subject)]);
    let entry = array_text(seq![quoted(digits), line]);
    lemma_object_of_two("app"@, quoted(SERVICE_NAME@), "subject"@, subject);
    lemma_array_of_two(quoted(digits), line);
    assert(array_text(seq![entry]) == seq!['['] + entry + seq![']']);
    lemma_object_of_two("stream"@, labels, "values"@, array_text(seq![entry]));
    lemma_stream_assembled(
        subject,
        quoted(digits),
        digits,
        line,
        quoted("stream"@),
        quoted("app"@),
        quoted(SERVICE_NAME@),
        quoted("subject"@),
        quoted("values"@),
    );
}

/// The body around its streams.
proof fn lemma_body_around_streams(streams: Seq<Seq<char>>)
    ensures
        object_text(seq![("streams"@, array_text(streams))]) == "{\"streams\":["@ + joined(streams)
            + "]}"@,
        streams.len() == 0 ==> object_text(seq![("streams"@, array_text(streams))])
            == "{\"streams\":[]}"@,
{
    reveal_strlit("streams");
    reveal_strlit("{\"streams\":[");
    reveal_strlit("{\"streams\":[]}");
    reveal_strlit("]}");
    lemma_name_quoted("streams"@);
    lemma_object_of_one("streams"@, array_text(streams));
    assert(object_text(seq![("streams"@, array_text(streams))]) =~= "{\"streams\":["@ + joined(
        streams,
    ) + "]}"@);
    if streams.len() == 0 {
        assert("{\"streams\":["@ + joined(streams) + "]}"@ =~= "{\"streams\":[]}"@);
    }
}

/// The body for a batch, event by event: the one for no events has no streams, and each further
/// event puts its stream, which [`law_stream_spelled_out`] spells out, behind those before it,
/// however many there are.
pub proof fn law_each_event_adds_its_stream(
    batch: Seq<LogEvent>,
    timestamps: Seq<u128>,
    event: LogEvent,
    timestamp: u128,
)
    requires
        batch.len() == timestamps.len(),
    ensures
        push_body_text(Seq::empty(), Seq::empty()) == "{\"streams\":[]}"@,
        ({
            let body = push_body_text(batch, timestamps);
            let longer = push_body_text(batch.push(event), timestamps.push(timestamp));
            let streams = body.take(body.len() - 2);
            &&& body == streams + "]}"@
            &&& longer == streams + (if batch.len() == 0 {
                Seq::empty()
            } else {
                ","@
            }) + stream_text(event, timestamp) + "]}"@
        }),
{
    let no_streams = Seq::new(
        Seq::<LogEvent>::empty().len(),
        |i: int| stream_text(Seq::<LogEvent>::empty()[i], Seq::<u128>::empty()[i]),
    );
    lemma_body_around_streams(no_streams);
    let streams = Seq::new(batch.len(), |i: int| stream_text(batch[i], timestamps[i]));
    let longer_batch = batch.push(event);
    let longer_timestamps = timestamps.push(timestamp);
    let longer_streams = Seq::new(
        longer_batch.len(),
        |i: int| stream_text(longer_batch[i], longer_timestamps[i]),
    );
    lemma_body_around_streams(streams);
    lemma_body_around_streams(longer_streams);
    let stream = stream_text(event, timestamp);
    assert(longer_streams.drop_last() =~= streams);
    assert(longer_streams.last() == stream);
    let body = push_body_text(batch, timestamps);
    let head = "{\"streams\":["@ + joined(streams);
    assert("]}"@.len() == 2) by {
        reveal_strlit("]}");
    }
    assert(body.take(body.len() - 2) =~= head);
    let comma: Seq<char> = if batch.len() == 0 {
        Seq::empty()
    } else {
        ","@
    };
    assert(joined(longer_streams) =~= joined(streams) + comma + stream) by {
        reveal_strlit(",");
    }
    assert("{\"streams\":["@ + joined(longer_streams) + "]}"@ =~= head + comma + stream + "]}"@);
}

} // verus!
