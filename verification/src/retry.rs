//! The retry rule shared by page fetches and file downloads: attempt while
//! the budget lasts, spend one unit per failed attempt, pause between
//! attempts where the caller asks for a pause, and give up when it is spent.

use vstd::prelude::*;

verus! {

/// What is left of a retry budget, and how long to pause after a failure.
#[derive(Debug, Clone, Copy, PartialEq, Eq, Structural)]
pub struct RetryBudget {
    pub remaining: i32,
    pub pause_ms: u64,
}

/// What happened since the last decision.
#[derive(Debug, Clone, Copy, PartialEq, Eq, Structural)]
pub enum RetryEvent {
    /// Nothing yet: the first decision.
    Begin,
    /// The last attempt failed.
    Failed,
    /// The pause asked for has passed.
    Resumed,
}

/// What to do next.
#[derive(Debug, Clone, Copy, PartialEq, Eq, Structural)]
pub enum RetryAction {
    /// Make an attempt.
    Fetch,
    /// Wait this many milliseconds, then report `Resumed`.
    Pause(u64),
    /// Stop: the budget is spent.
    GiveUp,
}

/// Attempt while the budget is positive, else give up.
pub open spec fn attempt_or_give_up(remaining: i32) -> RetryAction {
    if remaining > 0 {
        RetryAction::Fetch
    } else {
        RetryAction::GiveUp
    }
}

/// The decision rule: from a budget and an event, the budget afterwards and
/// the action.
pub open spec fn retry_step(budget: RetryBudget, event: RetryEvent) -> (RetryBudget, RetryAction) {
    match event {
        RetryEvent::Failed => {
            let spent = RetryBudget {
                remaining: if budget.remaining > 0 { (budget.remaining - 1) as i32 } else { budget.remaining },
                pause_ms: budget.pause_ms,
            };
            if budget.pause_ms > 0 {
                (spent, RetryAction::Pause(budget.pause_ms))
            } else {
                (spent, attempt_or_give_up(spent.remaining))
            }
        },
        _ => (budget, attempt_or_give_up(budget.remaining)),
    }
}

impl RetryBudget {
    /// A budget of `attempts` attempts with `pause_ms` milliseconds of pause
    /// after each failure.
    pub fn new(attempts: i32, pause_ms: u64) -> (res: RetryBudget)
        ensures
            res.remaining == attempts,
            res.pause_ms == pause_ms,
    {
        RetryBudget { remaining: attempts, pause_ms }
    }

    /// Takes the next decision after `event`.
    pub fn next_action(&mut self, event: RetryEvent) -> (res: RetryAction)
        ensures
            (*final(self), res) == retry_step(*old(self), event),
    {
        match event {
            RetryEvent::Failed => {
                if self.remaining > 0 {
                    self.remaining = self.remaining - 1;
                }
                if self.pause_ms > 0 {
                    RetryAction::Pause(self.pause_ms)
                } else if self.remaining > 0 {
                    RetryAction::Fetch
                } else {
                    RetryAction::GiveUp
                }
            },
            _ => {
                if self.remaining > 0 {
                    RetryAction::Fetch
                } else {
                    RetryAction::GiveUp
                }
            },
        }
    }
}

/// Drives the rule with every attempt failing and every pause passing, for
/// at most `fuel` decisions: the number of attempts made before giving up,
/// or `None` if the fuel runs out first.
pub open spec fn attempts_when_all_fail(budget: RetryBudget, event: RetryEvent, fuel: nat) -> Option<nat>
    decreases fuel,
{
    if fuel == 0 {
        None
    } else {
        let (next, action) = retry_step(budget, event);
        match action {
            RetryAction::GiveUp => Some(0),
            RetryAction::Fetch => match attempts_when_all_fail(next, RetryEvent::Failed, (fuel - 1) as nat) {
                Some(n) => Some(n + 1),
                None => None,
            },
            RetryAction::Pause(_) => attempts_when_all_fail(next, RetryEvent::Resumed, (fuel - 1) as nat),
        }
    }
}

proof fn lemma_attempts_from_decision(budget: RetryBudget, event: RetryEvent, fuel: nat)
    requires
        budget.remaining >= 0,
        event != RetryEvent::Failed,
        fuel >= 2 * budget.remaining + 1,
    ensures
        attempts_when_all_fail(budget, event, fuel) == Some(budget.remaining as nat),
    decreases budget.remaining,
{
    if budget.remaining > 0 {
        let (after_fail, action) = retry_step(budget, RetryEvent::Failed);
        assert(after_fail.remaining == budget.remaining - 1);
        let f1 = (fuel - 1) as nat;
        if budget.pause_ms > 0 {
            lemma_attempts_from_decision(after_fail, RetryEvent::Resumed, (f1 - 1) as nat);
        } else {
            lemma_attempts_from_decision(after_fail, RetryEvent::Resumed, f1);
            assert(retry_step(budget, RetryEvent::Failed) == retry_step(after_fail, RetryEvent::Resumed));
            assert(attempts_when_all_fail(budget, RetryEvent::Failed, f1)
                == attempts_when_all_fail(after_fail, RetryEvent::Resumed, f1));
        }
    }
}

/// A budget of `n` attempts, when every attempt fails, makes exactly `n`
/// attempts and then gives up (none at all when `n` is not positive).
pub proof fn lemma_retry_attempt_count(n: i32, pause_ms: u64)
    ensures
        attempts_when_all_fail(
            RetryBudget { remaining: n, pause_ms },
            RetryEvent::Begin,
            (2 * (if n > 0 { n as int } else { 0 }) + 1) as nat,
        ) == Some((if n > 0 { n as int } else { 0 }) as nat),
{
    if n > 0 {
        lemma_attempts_from_decision(RetryBudget { remaining: n, pause_ms }, RetryEvent::Begin, (2 * n + 1) as nat);
    }
}

/// Only a failure spends the budget, by exactly one unit while any is left;
/// an attempt is only asked for while the budget is positive, and giving up
/// only happens once it is spent.
pub proof fn lemma_retry_step_spends_on_failure(budget: RetryBudget, event: RetryEvent)
    ensures
        event != RetryEvent::Failed ==> retry_step(budget, event).0 == budget,
        event == RetryEvent::Failed && budget.remaining > 0 ==> retry_step(budget, event).0.remaining == budget.remaining - 1,
        event == RetryEvent::Failed && budget.remaining <= 0 ==> retry_step(budget, event).0.remaining == budget.remaining,
        retry_step(budget, event).0.pause_ms == budget.pause_ms,
        retry_step(budget, event).1 == RetryAction::Fetch ==> retry_step(budget, event).0.remaining > 0,
        retry_step(budget, event).1 == RetryAction::GiveUp ==> retry_step(budget, event).0.remaining <= 0,
        event != RetryEvent::Failed && budget.remaining > 0 ==> retry_step(budget, event).1 == RetryAction::Fetch,
        event == RetryEvent::Failed && budget.pause_ms > 0 ==> retry_step(budget, event).1 == RetryAction::Pause(budget.pause_ms),
{
}

} // verus!
