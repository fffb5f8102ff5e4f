use screenshot_renamer::prober::{ProbeStep, Prober, DEFAULT_PROBE_ATTEMPTS};

#[test]
fn test_ready_on_first_attempt() {
    let mut p = Prober::new(DEFAULT_PROBE_ATTEMPTS);
    assert_eq!(p.step(true), ProbeStep::Ready);
}

#[test]
fn test_ready_after_retries() {
    let mut p = Prober::new(3);
    assert_eq!(p.step(false), ProbeStep::RetryAfterDelay);
    assert_eq!(p.step(false), ProbeStep::RetryAfterDelay);
    assert_eq!(p.step(true), ProbeStep::Ready);
}

#[test]
fn test_gives_up_when_budget_exhausted() {
    let mut p = Prober::new(DEFAULT_PROBE_ATTEMPTS);
    for _ in 0..(DEFAULT_PROBE_ATTEMPTS - 1) {
        assert_eq!(p.step(false), ProbeStep::RetryAfterDelay);
    }
    assert_eq!(p.step(false), ProbeStep::GiveUp);
    // Once exhausted it stays exhausted, even for a late ready sighting.
    assert_eq!(p.step(true), ProbeStep::GiveUp);
}

#[test]
fn test_zero_budget_gives_up_at_once() {
    let mut p = Prober::new(0);
    assert_eq!(p.step(true), ProbeStep::GiveUp);
}
