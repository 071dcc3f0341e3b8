use tinkervoice::poll::{
    next_delay, poll_begin, poll_on_status, poll_script, JobStatus, JobStatusPayload, PollError,
    PollPolicy, PollStep,
};

fn policy(initial: u64, max: u64, mult: u64, attempts: u32) -> PollPolicy {
    PollPolicy {
        initial_delay_ms: initial,
        max_delay_ms: max,
        backoff_numer: mult,
        backoff_denom: 1,
        max_attempts: attempts,
    }
}

fn report(status: JobStatus, payload: &str) -> JobStatusPayload {
    JobStatusPayload { status, payload: payload.to_string() }
}

#[test]
fn scripted_run_completes_with_exact_fetches_and_delays() {
    let p = policy(100, 1000, 2, 60);
    let script = vec![
        report(JobStatus::Pending, ""),
        report(JobStatus::Pending, ""),
        report(JobStatus::InProgress, ""),
        report(JobStatus::Completed, "the result"),
    ];
    let run = poll_script(&p, &script);
    assert_eq!(run.fetches, 4);
    assert_eq!(run.delays, vec![100, 200, 400]);
    assert_eq!(run.outcome, Ok("the result".to_string()));
}

#[test]
fn scripted_run_times_out_after_exactly_max_attempts() {
    let p = policy(100, 1000, 2, 5);
    let script = vec![
        report(JobStatus::Pending, ""),
        report(JobStatus::Pending, ""),
        report(JobStatus::Pending, ""),
        report(JobStatus::InProgress, ""),
        report(JobStatus::Pending, ""),
        report(JobStatus::Pending, ""),
    ];
    let run = poll_script(&p, &script);
    assert_eq!(run.fetches, 5);
    assert_eq!(run.outcome, Err(PollError::TimedOut));
}

#[test]
fn immediate_failure_stops_after_one_fetch() {
    let p = policy(100, 1000, 2, 60);
    let script = vec![report(JobStatus::Failed, "quota exceeded")];
    let run = poll_script(&p, &script);
    assert_eq!(run.fetches, 1);
    assert!(run.delays.is_empty());
    assert_eq!(run.outcome, Err(PollError::RemoteFailed("quota exceeded".to_string())));
}

#[test]
fn delays_are_capped_at_the_maximum() {
    let p = policy(1000, 10000, 2, 60);
    let script = vec![
        report(JobStatus::Pending, ""),
        report(JobStatus::Pending, ""),
        report(JobStatus::Pending, ""),
        report(JobStatus::Pending, ""),
        report(JobStatus::Pending, ""),
        report(JobStatus::Completed, "done"),
    ];
    let run = poll_script(&p, &script);
    assert_eq!(run.delays, vec![1000, 2000, 4000, 8000, 10000]);
}

#[test]
fn next_delay_grows_and_caps() {
    let p = policy(1000, 10000, 2, 60);
    assert_eq!(next_delay(&p, 1000), 2000);
    assert_eq!(next_delay(&p, 8000), 10000);
    assert_eq!(next_delay(&p, 10000), 10000);
}

#[test]
fn fractional_backoff_multiplier_is_supported() {
    let p = PollPolicy {
        initial_delay_ms: 1000,
        max_delay_ms: 10000,
        backoff_numer: 3,
        backoff_denom: 2,
        max_attempts: 10,
    };
    assert_eq!(next_delay(&p, 1000), 1500);
}

#[test]
fn step_decisions_follow_the_state_machine() {
    let p = policy(100, 1000, 2, 2);
    let st = poll_begin(&p);
    assert_eq!(st.attempts_made, 0);
    assert_eq!(st.delay_ms, 100);
    match poll_on_status(&p, st, report(JobStatus::Pending, "")) {
        PollStep::Continue { sleep_ms, next } => {
            assert_eq!(sleep_ms, 100);
            assert_eq!(next.attempts_made, 1);
            assert_eq!(next.delay_ms, 200);
            // One attempt left: a further non-terminal status times out.
            match poll_on_status(&p, next, report(JobStatus::InProgress, "")) {
                PollStep::Done(outcome) => assert_eq!(outcome, Err(PollError::TimedOut)),
                _ => panic!("expected the poll to time out"),
            }
        },
        _ => panic!("expected the poll to continue"),
    }
    let st2 = poll_begin(&p);
    match poll_on_status(&p, st2, report(JobStatus::Completed, "payload")) {
        PollStep::Done(outcome) => assert_eq!(outcome, Ok("payload".to_string())),
        _ => panic!("expected the poll to finish"),
    }
}

#[test]
fn research_default_policy_is_well_formed() {
    let p = PollPolicy::research_default();
    assert!(p.check_wf());
    assert_eq!(p.initial_delay_ms, 1000);
    assert_eq!(p.max_delay_ms, 10000);
    assert_eq!(p.max_attempts, 60);
}

#[test]
fn terminal_statuses_are_exactly_completed_and_failed() {
    assert!(JobStatus::Completed.is_terminal());
    assert!(JobStatus::Failed.is_terminal());
    assert!(!JobStatus::Pending.is_terminal());
    assert!(!JobStatus::InProgress.is_terminal());
}
