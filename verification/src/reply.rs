//! How a message is answered once it is processed.

use crate::constant::MAX_REDELIVERY_DELAY_SECS;
use crate::message::{
    end_of, result_of, MessageEnd, OfferOutcome, ProcessedMessage, ProcessingResult,
};
use vstd::prelude::*;

verus! {

/// How a message was received.
#[derive(Clone, Copy, Debug, PartialEq, Eq, Structural)]
pub enum MessageSource {
    /// Through JetStream, which wants an answer.
    JetStream,
    /// Through core NATS, which takes none.
    Core,
}

/// The answer to a message.
#[derive(Clone, Copy, Debug, PartialEq, Eq, Structural)]
pub enum Reply {
    /// The message is done with.
    Ack,
    /// The message is to be redelivered after a delay in seconds.
    Nak { delay_secs: u64 },
}

/// The redelivery delay in seconds for a random number.
pub open spec fn redelivery_delay(random: u64) -> u64 {
    (1 + random % MAX_REDELIVERY_DELAY_SECS) as u64
}

/// The answer to a message. Core NATS takes none. A JetStream message is acknowledged after a
/// success and after a permanent failure, and is to be redelivered after a transient one.
pub open spec fn reply_for(source: MessageSource, result: ProcessingResult, random: u64) -> Option<
    Reply,
> {
    match (source, result) {
        (MessageSource::Core, _) => None,
        (MessageSource::JetStream, ProcessingResult::TransientFailure) => Some(
            Reply::Nak { delay_secs: redelivery_delay(random) },
        ),
        (MessageSource::JetStream, _) => Some(Reply::Ack),
    }
}

/// Calls `rand::random`. Nothing is claimed of the number.
#[verifier::external_body]
fn random_u64() -> (random: u64) {
    rand::random::<u64>()
}

/// The random number generator gave `random` when it was asked.
pub closed spec fn drawn(random: u64) -> bool {
    call_ensures(random_u64, (), random)
}

/// The answer to a message, where `random` spreads the redelivery delays.
pub fn reply_with(source: MessageSource, result: ProcessingResult, random: u64) -> (reply: Option<
    Reply,
>)
    ensures
        reply == reply_for(source, result, random),
{
    match source {
        MessageSource::Core => None,
        MessageSource::JetStream => match result {
            ProcessingResult::Success => Some(Reply::Ack),
            ProcessingResult::TransientFailure => Some(
                Reply::Nak { delay_secs: 1 + random % MAX_REDELIVERY_DELAY_SECS },
            ),
            ProcessingResult::PermanentFailure => Some(Reply::Ack),
        },
    }
}

/// The answer to a message, with a redelivery delay chosen at random from one second to
/// [`MAX_REDELIVERY_DELAY_SECS`].
pub fn reply_to(source: MessageSource, result: ProcessingResult) -> (reply: Option<Reply>)
    ensures
        exists|random: u64| reply == #[trigger] reply_for(source, result, random),
        source == MessageSource::JetStream && result == ProcessingResult::TransientFailure
            ==> exists|random: u64| #[trigger]
            drawn(random) && reply == reply_for(source, result, random),
        source == MessageSource::Core ==> reply is None,
        source == MessageSource::JetStream && result != ProcessingResult::TransientFailure ==> reply
            == Some(Reply::Ack),
        source == MessageSource::JetStream && result == ProcessingResult::TransientFailure
            ==> (reply matches Some(Reply::Nak { delay_secs }) && 1 <= delay_secs
            <= MAX_REDELIVERY_DELAY_SECS),
{
    let random: u64 = match (source, result) {
        (MessageSource::JetStream, ProcessingResult::TransientFailure) => {
            let random: u64 = random_u64();
            assert(drawn(random));
            random
        },
        _ => 0,
    };
    reply_with(source, result, random)
}

/// A JetStream message always gets an answer. It is redelivered, after one second to
/// [`MAX_REDELIVERY_DELAY_SECS`], exactly where the exporter's channel was full, and is acknowledged
/// otherwise, so that a message which can never be exported does not come back. A core message
/// never gets an answer.
pub proof fn law_only_a_full_channel_brings_a_message_back(end: MessageEnd, random: u64)
    ensures
        reply_for(MessageSource::Core, result_of(end), random) is None,
        match reply_for(MessageSource::JetStream, result_of(end), random) {
            Some(Reply::Nak { delay_secs }) => {
                &&& end == MessageEnd::ChannelFull
                &&& 1 <= delay_secs <= MAX_REDELIVERY_DELAY_SECS
            },
            Some(Reply::Ack) => end != MessageEnd::ChannelFull,
            None => false,
        },
{
}

/// A JetStream message whose event waits for export is acknowledged exactly where the exporter took
/// the event, or where it never can: its channel is closed, or there is none. One that is discarded
/// is always acknowledged.
pub proof fn law_acknowledged_only_when_done(
    processed: ProcessedMessage,
    offer: Option<OfferOutcome>,
    random: u64,
)
    ensures
        ({
            let reply = reply_for(
                MessageSource::JetStream,
                result_of(end_of(processed, offer)),
                random,
            );
            &&& processed is Export ==> (reply == Some(Reply::Ack) <==> offer == Some(
                OfferOutcome::Taken,
            ) || offer == Some(OfferOutcome::Closed) || offer is None)
            &&& !(processed is Export) ==> reply == Some(Reply::Ack)
        }),
{
}

/// The delays are spread evenly: each from one second to five is that of every fifth random number,
/// and two numbers give the same delay exactly where they are the same modulo five.
pub proof fn law_delays_are_spread_evenly(random: u64, other: u64)
    ensures
        1 <= redelivery_delay(random) <= 5,
        redelivery_delay(random) == redelivery_delay(other) <==> random % 5 == other % 5,
        random < 5 ==> redelivery_delay(random) == random + 1,
{
}

/// A core message gets no answer. A JetStream message is sent back, with the delay for the random
/// number, exactly after a transient failure, and is acknowledged after every other result.
pub proof fn law_answers(result: ProcessingResult, random: u64)
    ensures
        reply_for(MessageSource::Core, result, random) is None,
        result == ProcessingResult::TransientFailure ==> reply_for(
            MessageSource::JetStream,
            result,
            random,
        ) == Some(Reply::Nak { delay_secs: (1 + random % 5) as u64 }),
        result != ProcessingResult::TransientFailure ==> reply_for(
            MessageSource::JetStream,
            result,
            random,
        ) == Some(Reply::Ack),
{
}

} // verus!
