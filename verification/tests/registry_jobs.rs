use parachute::registry::JobRegistry;
use parachute::ProcessingState;

#[test]
fn second_request_for_an_id_starts_nothing() {
    let mut reg = JobRegistry::new();
    let mut first_ran = false;
    let mut second_ran = false;
    let s1 = reg.get_or_start("movie", || {
        first_ran = true;
        ProcessingState::InProgress
    });
    let s2 = reg.get_or_start("movie", || {
        second_ran = true;
        ProcessingState::InProgress
    });
    assert!(first_ran);
    assert!(!second_ran);
    assert_eq!(s1, ProcessingState::InProgress);
    assert_eq!(s2, ProcessingState::InProgress);
}

#[test]
fn done_id_short_circuits() {
    let mut reg = JobRegistry::new();
    let mut ran = false;
    let s1 = reg.get_or_start("movie", || {
        ran = true;
        ProcessingState::InProgress
    });
    assert_eq!(s1, ProcessingState::InProgress);
    assert!(ran);
    reg.mark_done("movie");
    let mut ran_again = false;
    let s2 = reg.get_or_start("movie", || {
        ran_again = true;
        ProcessingState::InProgress
    });
    assert_eq!(s2, ProcessingState::Done);
    assert!(!ran_again);
}

#[test]
fn distinct_ids_are_independent() {
    let mut reg = JobRegistry::new();
    let s1 = reg.get_or_start("a", || ProcessingState::InProgress);
    reg.mark_done("a");
    let s2 = reg.get_or_start("b", || ProcessingState::InProgress);
    let s3 = reg.get_or_start("a", || ProcessingState::InProgress);
    assert_eq!(s1, ProcessingState::InProgress);
    assert_eq!(s2, ProcessingState::InProgress);
    assert_eq!(s3, ProcessingState::Done);
}
