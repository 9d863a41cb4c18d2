use events_aggregator::constant::MAX_RETRIES;
use events_aggregator::exporter::flush::{AfterAttempt, AfterPause, Delivery};

/// Runs a delivery: whether it succeeded, how many attempts it took, and the pauses.
fn deliver(outcomes: &[bool]) -> (bool, usize, Vec<u64>) {
    let mut delivery = Delivery::new();
    let mut attempts = 0;
    let mut pauses = Vec::new();
    loop {
        assert_eq!(delivery.failures(), attempts);
        let outcome = outcomes[attempts];
        attempts += 1;
        match delivery.attempted(outcome) {
            AfterAttempt::Delivered { failures } => {
                assert_eq!(failures, attempts - 1);
                return (true, attempts, pauses);
            }
            AfterAttempt::BackOff(pause) => {
                assert_eq!(pause.failures(), attempts);
                pauses.push(pause.sleep_ms());
                match pause.end() {
                    AfterPause::Retry(next) => delivery = next,
                    AfterPause::GiveUp { failures } => {
                        assert_eq!(failures, MAX_RETRIES);
                        return (false, attempts, pauses);
                    }
                }
            }
        }
    }
}

#[test]
fn first_success_ends_the_delivery() {
    assert_eq!(deliver(&[true, true, true]), (true, 1, vec![]));
    assert_eq!(deliver(&[false, true, true]), (true, 2, vec![500]));
    assert_eq!(deliver(&[false, false, true]), (true, 3, vec![500, 1000]));
}

#[test]
fn three_failures_drop_the_batch() {
    assert_eq!(MAX_RETRIES, 3);
    assert_eq!(deliver(&[false, false, false, true]), (false, 3, vec![500, 1000, 2000]));
}
