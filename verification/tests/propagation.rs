use auto_dns::propagation::{MAX_POLLS, POLL_INTERVAL_SECS};
use auto_dns::{wait_for_propagation, PollOutcome, Propagation};

fn status(text: &str) -> PollOutcome {
    PollOutcome::Status(text.to_string())
}

/// Runs a wait whose poll at `i` gives `outcomes(i)`; gives where it ends,
/// the number of polls and the seconds waited before them.
fn wait(outcomes: impl Fn(u32) -> PollOutcome) -> (Propagation, u32, u64) {
    let mut polls = 0;
    let mut waited = 0;
    let mut step = wait_for_propagation();
    loop {
        match step {
            Propagation::Poll(polling) => {
                assert_eq!(polling.polls_made(), polls);
                waited += polling.delay_secs();
                step = polling.observe(&outcomes(polls));
                polls += 1;
                assert!(polls <= 1000, "the wait does not end");
            }
            end => return (end, polls, waited),
        }
    }
}

#[test]
fn propagated_after_exactly_three_polls() {
    let sequence = [status("PENDING"), status("PENDING"), status("INSYNC")];
    let (end, polls, waited) = wait(|i| sequence[i as usize].clone());
    assert!(matches!(end, Propagation::Propagated));
    assert_eq!(polls, 3);
    assert_eq!(waited, 10);
}

#[test]
fn times_out_at_the_ceiling() {
    let (end, polls, waited) = wait(|_| status("PENDING"));
    assert!(matches!(end, Propagation::TimedOut));
    assert_eq!(polls, 60);
    assert_eq!(polls, MAX_POLLS);
    assert_eq!(waited, 59 * POLL_INTERVAL_SECS);
    assert_eq!(POLL_INTERVAL_SECS, 5);
}

#[test]
fn in_sync_at_the_last_poll_is_propagated() {
    let (end, polls, _) = wait(|i| if i == 59 { status("INSYNC") } else { status("PENDING") });
    assert!(matches!(end, Propagation::Propagated));
    assert_eq!(polls, 60);
}

#[test]
fn an_unknown_status_counts_as_pending() {
    let sequence = [status("SOMETHING"), status(""), status("insync"), status("INSYNC")];
    let (end, polls, _) = wait(|i| sequence[i as usize].clone());
    assert!(matches!(end, Propagation::Propagated));
    assert_eq!(polls, 4);
}

#[test]
fn a_failed_poll_ends_the_wait() {
    let sequence = [status("PENDING"), PollOutcome::Error("access denied".to_string())];
    let (end, polls, _) = wait(|i| sequence[i as usize].clone());
    assert!(matches!(end, Propagation::Failed(reason) if reason == "access denied"));
    assert_eq!(polls, 2);
}
