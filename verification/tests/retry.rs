use akri::retry::{try_delete_step, DeleteOutcome, DeleteStep, MAX_INSTANCE_UPDATE_TRIES};

/// Runs the retry decisions over a sequence of answers; gives whether the
/// deletion succeeded and how many calls were made.
fn run(outcomes: &[DeleteOutcome]) -> (bool, usize) {
    for attempt in 0..MAX_INSTANCE_UPDATE_TRIES {
        match try_delete_step(attempt, outcomes[attempt as usize]) {
            DeleteStep::Done => return (true, attempt as usize + 1),
            DeleteStep::GiveUp => return (false, attempt as usize + 1),
            DeleteStep::RetryAfterDelay => {}
        }
    }
    unreachable!()
}

#[test]
fn test_try_delete_instance() {
    let outcomes = [DeleteOutcome::Failed { code: Some(404) }; 5];
    assert_eq!(run(&outcomes), (true, 1));
}

#[test]
fn test_try_delete_instance_sequence() {
    let mut outcomes = [DeleteOutcome::Deleted; 5];
    outcomes[0] = DeleteOutcome::Failed { code: Some(401) };
    assert_eq!(run(&outcomes), (true, 2));
}

#[test]
fn try_delete_gives_up_after_five_failures() {
    let outcomes = [DeleteOutcome::Failed { code: None }; 5];
    assert_eq!(run(&outcomes), (false, 5));
    let outcomes = [DeleteOutcome::Failed { code: Some(409) }; 5];
    assert_eq!(run(&outcomes), (false, 5));
}

#[test]
fn try_delete_last_chance() {
    let mut outcomes = [DeleteOutcome::Failed { code: Some(500) }; 5];
    outcomes[4] = DeleteOutcome::Failed { code: Some(404) };
    assert_eq!(run(&outcomes), (true, 5));
}
