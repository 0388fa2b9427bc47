//! Changes to the layout of the store, applied once each and in order.

use vstd::prelude::*;

pub mod m1_account_filter;

verus! {

/// One change to the layout of the store.
pub trait Migration {
    /// What the change does, in words.
    fn name(&self) -> &'static str;

    /// The version of the program that brings the change.
    fn version(&self) -> &'static str;

    /// The statements that apply the change.
    fn up(&self) -> &'static str;

    /// The statements that take the change back.
    fn down(&self) -> &'static str;
}

/// What the runner asks the store to do next, or how the run ended.
#[derive(Clone, Copy, Debug, PartialEq, Eq, Structural)]
pub enum Action {
    /// Look up whether the migration at this place was applied before.
    Check(usize),
    /// Run the statements that apply the migration at this place.
    Apply(usize),
    /// Write down that the migration at this place was applied.
    Record(usize),
    /// Run the statements that take the migration at this place back, and
    /// then give up.
    Revert(usize),
    /// Every migration is applied.
    Finished,
    /// The run failed.
    Failed,
}

/// What the store answered to the last action.
#[derive(Clone, Copy, Debug, PartialEq, Eq, Structural)]
pub enum Answer {
    /// The statements ran, the record was written, or the look-up found the
    /// migration not applied yet.
    Done,
    /// The look-up found the migration applied already.
    AlreadyApplied,
    /// The store failed.
    Error,
}

/// The first thing to do for `count` migrations.
pub open spec fn first_action(count: usize) -> Action {
    if count == 0 {
        Action::Finished
    } else {
        Action::Check(0)
    }
}

/// What to do for the migration after the one at `at`, of `count`.
pub open spec fn action_after(at: usize, count: usize) -> Action {
    if at + 1 < count {
        Action::Check((at + 1) as usize)
    } else {
        Action::Finished
    }
}

/// What follows `last` once the store has given `answer`: a migration found
/// applied is skipped, one not applied is applied and then written down;
/// where applying fails the migration is taken back and the run fails, and
/// where the look-up or the record fails the run fails at once. Whatever
/// taking back answers, the run has failed. Nothing follows the end of a run.
pub open spec fn action_following(last: Action, answer: Answer, count: usize) -> Action {
    match last {
        Action::Check(at) => match answer {
            Answer::AlreadyApplied => action_after(at, count),
            Answer::Done => Action::Apply(at),
            Answer::Error => Action::Failed,
        },
        Action::Apply(at) => match answer {
            Answer::Error => Action::Revert(at),
            _ => Action::Record(at),
        },
        Action::Record(at) => match answer {
            Answer::Error => Action::Failed,
            _ => action_after(at, count),
        },
        Action::Revert(_) => Action::Failed,
        Action::Finished => Action::Finished,
        Action::Failed => Action::Failed,
    }
}

/// The first thing to do for `count` migrations, which are applied in order.
pub fn start_migrations(count: usize) -> (r: Action)
    ensures
        r == first_action(count),
{
    if count == 0 {
        Action::Finished
    } else {
        Action::Check(0)
    }
}

/// What to do after `last`, now that the store has given `answer`.
pub fn run_migrations(last: Action, answer: Answer, count: usize) -> (r: Action)
    ensures
        r == action_following(last, answer, count),
{
    match last {
        Action::Check(at) => match answer {
            Answer::AlreadyApplied => next_check(at, count),
            Answer::Done => Action::Apply(at),
            Answer::Error => Action::Failed,
        },
        Action::Apply(at) => match answer {
            Answer::Error => Action::Revert(at),
            _ => Action::Record(at),
        },
        Action::Record(at) => match answer {
            Answer::Error => Action::Failed,
            _ => next_check(at, count),
        },
        Action::Revert(_) => Action::Failed,
        Action::Finished => Action::Finished,
        Action::Failed => Action::Failed,
    }
}

/// What to do for the migration after the one at `at`, of `count`.
fn next_check(at: usize, count: usize) -> (r: Action)
    ensures
        r == action_after(at, count),
{
    if at < count && at + 1 < count {
        Action::Check(at + 1)
    } else {
        Action::Finished
    }
}

/// The place of the migration that an action is about, if it is about one.
pub open spec fn place_of(action: Action) -> Option<usize> {
    match action {
        Action::Check(at) | Action::Apply(at) | Action::Record(at) | Action::Revert(at) => Some(at),
        _ => None,
    }
}

/// A run never goes back: the action that follows one about a migration is
/// about the same migration or a later one, or ends the run; and it stays
/// within the migrations there are.
pub proof fn lemma_run_moves_forward(last: Action, answer: Answer, count: usize)
    requires
        place_of(last) matches Some(at) ==> at < count,
    ensures
        place_of(action_following(last, answer, count)) matches Some(next) ==> next < count && (
        place_of(last) matches Some(at) && at <= next),
        place_of(last) is None ==> action_following(last, answer, count) == last,
{
}

} // verus!
