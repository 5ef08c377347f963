use kirafan_newsbot_rust::retry::{RetryAction, RetryBudget, RetryEvent};

fn attempts_when_all_fail(n: i32, pause: u64) -> (u32, Vec<RetryAction>) {
    let mut budget = RetryBudget::new(n, pause);
    let mut actions = Vec::new();
    let mut attempts = 0;
    let mut event = RetryEvent::Begin;
    loop {
        let action = budget.next_action(event);
        actions.push(action);
        match action {
            RetryAction::Fetch => {
                attempts += 1;
                event = RetryEvent::Failed;
            }
            RetryAction::Pause(_) => event = RetryEvent::Resumed,
            RetryAction::GiveUp => return (attempts, actions),
        }
    }
}

#[test]
fn three_failures_then_give_up_with_pauses() {
    let (attempts, actions) = attempts_when_all_fail(3, 5000);
    assert_eq!(attempts, 3);
    assert_eq!(
        actions,
        vec![
            RetryAction::Fetch,
            RetryAction::Pause(5000),
            RetryAction::Fetch,
            RetryAction::Pause(5000),
            RetryAction::Fetch,
            RetryAction::Pause(5000),
            RetryAction::GiveUp,
        ]
    );
}

#[test]
fn failures_without_pause() {
    let (attempts, actions) = attempts_when_all_fail(2, 0);
    assert_eq!(attempts, 2);
    assert_eq!(actions, vec![RetryAction::Fetch, RetryAction::Fetch, RetryAction::GiveUp]);
}

#[test]
fn empty_or_negative_budget_gives_up_at_once() {
    assert_eq!(attempts_when_all_fail(0, 5000).0, 0);
    assert_eq!(attempts_when_all_fail(-4, 0).0, 0);
}

#[test]
fn failure_spends_one_unit() {
    let mut budget = RetryBudget::new(5, 10);
    assert_eq!(budget.next_action(RetryEvent::Begin), RetryAction::Fetch);
    assert_eq!(budget.next_action(RetryEvent::Failed), RetryAction::Pause(10));
    assert_eq!(budget.remaining, 4);
    assert_eq!(budget.next_action(RetryEvent::Resumed), RetryAction::Fetch);
}
