//! The retry rule for delivering a batch.
//!
//! A [`Delivery`] stands before an attempt, a [`Pause`] after a failed one. The caller makes the
//! attempts and sleeps through the pauses.

use crate::constant::{INITIAL_BACKOFF_MS, MAX_RETRIES};
use vstd::arithmetic::power2::{lemma2_to64, lemma_pow2_unfold, pow2};
use vstd::prelude::*;

verus! {

/// The pause in milliseconds after the failed attempt that `failures` others preceded.
pub open spec fn backoff_ms(failures: nat) -> nat {
    INITIAL_BACKOFF_MS as nat * pow2(failures)
}

/// An [`AfterAttempt`] by its numbers.
pub enum AttemptView {
    Delivered { failures: nat },
    BackOff { failures: nat, sleep_ms: nat },
}

/// An [`AfterPause`] by its numbers.
pub enum PauseView {
    Retry { failures: nat },
    GiveUp { failures: nat },
}

/// What an attempt leads to that `failures` failed ones preceded: a success ends the delivery, and
/// every failure, the last one too, asks for a pause.
pub open spec fn after_attempt(failures: nat, success: bool) -> AttemptView {
    if success {
        AttemptView::Delivered { failures }
    } else {
        AttemptView::BackOff { failures: failures + 1, sleep_ms: backoff_ms(failures) }
    }
}

/// What the end of a pause leads to after `failures` failed attempts: another attempt, or, after
/// [`MAX_RETRIES`] of them, giving up.
pub open spec fn after_pause(failures: nat) -> PauseView {
    if failures < MAX_RETRIES {
        PauseView::Retry { failures }
    } else {
        PauseView::GiveUp { failures }
    }
}

/// A batch that is about to be delivered. Its view is the number of failed attempts so far.
#[derive(Debug)]
pub struct Delivery {
    failures: usize,
    backoff_ms: u64,
}

/// A batch that waits after a failed attempt. Its view is the number of failed attempts so far.
#[derive(Debug)]
pub struct Pause {
    failures: usize,
    next_backoff_ms: u64,
    sleep_ms: u64,
}

/// What an attempt leads to.
#[derive(Debug)]
pub enum AfterAttempt {
    /// The batch is delivered; so many attempts failed before.
    Delivered { failures: usize },
    /// Sleep, then go on with [`Pause::end`].
    BackOff(Pause),
}

/// What the end of a pause leads to.
#[derive(Debug)]
pub enum AfterPause {
    /// Attempt the delivery again.
    Retry(Delivery),
    /// Drop the batch, after so many failed attempts.
    GiveUp { failures: usize },
}

impl View for Delivery {
    type V = nat;

    closed spec fn view(&self) -> nat {
        self.failures as nat
    }
}

impl View for Pause {
    type V = nat;

    closed spec fn view(&self) -> nat {
        self.failures as nat
    }
}

impl View for AfterAttempt {
    type V = AttemptView;

    open spec fn view(&self) -> AttemptView {
        match self {
            AfterAttempt::Delivered { failures } => AttemptView::Delivered {
                failures: *failures as nat,
            },
            AfterAttempt::BackOff(pause) => AttemptView::BackOff {
                failures: pause@,
                sleep_ms: pause.spec_sleep_ms(),
            },
        }
    }
}

impl View for AfterPause {
    type V = PauseView;

    open spec fn view(&self) -> PauseView {
        match self {
            AfterPause::Retry(delivery) => PauseView::Retry { failures: delivery@ },
            AfterPause::GiveUp { failures } => PauseView::GiveUp { failures: *failures as nat },
        }
    }
}

impl Delivery {
    /// An attempt is left, and the backoff is that of the failures so far.
    pub closed spec fn valid(&self) -> bool {
        &&& self.failures < MAX_RETRIES
        &&& self.backoff_ms == backoff_ms(self.failures as nat)
    }

    /// A batch before its first attempt.
    pub fn new() -> (delivery: Delivery)
        ensures
            delivery.valid(),
            delivery@ == 0,
    {
        proof {
            lemma2_to64();
        }
        Delivery { failures: 0, backoff_ms: INITIAL_BACKOFF_MS }
    }

    /// Number of failed attempts so far.
    pub fn failures(&self) -> (failures: usize)
        ensures
            failures == self@,
    {
        self.failures
    }

    /// Takes account of an attempt.
    pub fn attempted(self, success: bool) -> (after: AfterAttempt)
        requires
            self.valid(),
        ensures
            self@ < MAX_RETRIES,
            after@ == after_attempt(self@, success),
            match after {
                AfterAttempt::Delivered { .. } => true,
                AfterAttempt::BackOff(pause) => pause.valid(),
            },
    {
        if success {
            AfterAttempt::Delivered { failures: self.failures }
        } else {
            proof {
                lemma2_to64();
                lemma_pow2_unfold(self.failures as nat + 1);
                assert(self.failures == 0 || self.failures == 1 || self.failures == 2);
            }
            AfterAttempt::BackOff(
                Pause {
                    failures: self.failures + 1,
                    next_backoff_ms: self.backoff_ms * 2,
                    sleep_ms: self.backoff_ms,
                },
            )
        }
    }
}

impl Pause {
    /// How long to sleep, in milliseconds.
    pub closed spec fn spec_sleep_ms(&self) -> nat {
        self.sleep_ms as nat
    }

    /// At least one attempt failed, and the backoffs are those of the failures so far.
    pub closed spec fn valid(&self) -> bool {
        &&& 0 < self.failures <= MAX_RETRIES
        &&& self.sleep_ms == backoff_ms((self.failures - 1) as nat)
        &&& self.next_backoff_ms == backoff_ms(self.failures as nat)
    }

    /// Number of failed attempts so far.
    pub fn failures(&self) -> (failures: usize)
        ensures
            failures == self@,
    {
        self.failures
    }

    /// How long to sleep, in milliseconds.
    pub fn sleep_ms(&self) -> (sleep_ms: u64)
        ensures
            sleep_ms == self.spec_sleep_ms(),
    {
        self.sleep_ms
    }

    /// Goes on after the pause.
    pub fn end(self) -> (after: AfterPause)
        requires
            self.valid(),
        ensures
            0 < self@ <= MAX_RETRIES,
            after@ == after_pause(self@),
            match after {
                AfterPause::Retry(delivery) => delivery.valid(),
                AfterPause::GiveUp { .. } => true,
            },
    {
        if self.failures < MAX_RETRIES {
            AfterPause::Retry(
                Delivery { failures: self.failures, backoff_ms: self.next_backoff_ms },
            )
        } else {
            AfterPause::GiveUp { failures: self.failures }
        }
    }
}

/// How the delivery of a batch ended.
pub struct FlushOutcome {
    pub delivered: bool,
    pub attempts: nat,
    pub slept_ms: nat,
}

/// How the delivery of a batch ends that `failures` failed attempts preceded, where `outcomes[k]`
/// says whether the attempt number `k`, counted from zero, succeeds.
pub open spec fn flush_outcome(failures: nat, outcomes: Seq<bool>) -> FlushOutcome
    decreases MAX_RETRIES - failures,
{
    match after_attempt(failures, outcomes[failures as int]) {
        AttemptView::Delivered { failures: failed } => FlushOutcome {
            delivered: true,
            attempts: failed + 1,
            slept_ms: 0,
        },
        AttemptView::BackOff { failures: failed, sleep_ms } => match after_pause(failed) {
            PauseView::Retry { failures: next } => {
                let rest = flush_outcome(next, outcomes);
                FlushOutcome { slept_ms: sleep_ms + rest.slept_ms, ..rest }
            },
            PauseView::GiveUp { failures: failed } => FlushOutcome {
                delivered: false,
                attempts: failed,
                slept_ms: sleep_ms,
            },
        },
    }
}

/// A batch is delivered exactly where one of its first [`MAX_RETRIES`] attempts succeeds. The first
/// success is the last attempt, and without one there are [`MAX_RETRIES`]. After the failures
/// number 0, 1, 2 the exporter pauses 500, 1000 and 2000 milliseconds.
pub proof fn law_bounded_retries(outcomes: Seq<bool>)
    ensures
        ({
            let end = flush_outcome(0, outcomes);
            if outcomes[0] {
                end == (FlushOutcome { delivered: true, attempts: 1, slept_ms: 0 })
            } else if outcomes[1] {
                end == (FlushOutcome { delivered: true, attempts: 2, slept_ms: 500 })
            } else if outcomes[2] {
                end == (FlushOutcome { delivered: true, attempts: 3, slept_ms: 1500 })
            } else {
                end == (FlushOutcome { delivered: false, attempts: 3, slept_ms: 3500 })
            }
        }),
        flush_outcome(0, outcomes).attempts <= MAX_RETRIES,
        flush_outcome(0, outcomes).delivered <==> exists|k: int|
            0 <= k < MAX_RETRIES && #[trigger] outcomes[k],
{
    lemma2_to64();
    reveal_with_fuel(flush_outcome, 3);
}

} // verus!
