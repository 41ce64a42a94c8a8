//! The decisions of the convergence loop, apart from the work it does.
use vstd::prelude::*;

verus! {

/// Why a goal directory was refused.
#[derive(Debug, PartialEq, Eq, Structural)]
pub enum PathError {
    /// The path does not name a directory.
    NotADirectory,
    /// The path is absolute.
    NotRelative,
    /// The last component of the path is missing or not valid text.
    InvalidName,
}

/// The timeframe named by a goal directory: its last component, for a relative
/// path to a directory. `last_component` is that component when it is valid text.
pub fn validate_path(is_dir: bool, is_absolute: bool, last_component: Option<String>) -> (r: Result<String, PathError>)
    ensures
        !is_dir ==> r == Err::<String, PathError>(PathError::NotADirectory),
        is_dir && is_absolute ==> r == Err::<String, PathError>(PathError::NotRelative),
        is_dir && !is_absolute ==> match last_component {
            Some(c) => r matches Ok(t) && t@ == c@,
            None => r == Err::<String, PathError>(PathError::InvalidName),
        },
{
    if !is_dir {
        return Err(PathError::NotADirectory);
    }
    if is_absolute {
        return Err(PathError::NotRelative);
    }
    match last_component {
        Some(c) => Ok(c),
        None => Err(PathError::InvalidName),
    }
}

/// What a pass does once its actions are known.
#[derive(Debug, PartialEq, Eq, Structural)]
pub enum PassStep {
    /// Nothing is left to do: the loop stops with success.
    Converged,
    /// Dry run: the actions are reported and the loop stops with success.
    Report,
    /// The actions are carried out and another pass follows.
    Execute,
}

/// The step that follows a pass that found `pending` actions.
pub fn next_step(pending: usize, commit: bool) -> (r: PassStep)
    ensures
        pending == 0 ==> r == PassStep::Converged,
        pending > 0 && !commit ==> r == PassStep::Report,
        pending > 0 && commit ==> r == PassStep::Execute,
{
    if pending == 0 {
        PassStep::Converged
    } else if !commit {
        PassStep::Report
    } else {
        PassStep::Execute
    }
}

/// The outcome of a batch of actions carried out one by one.
pub struct BatchTally {
    pub attempted: u64,
    pub succeeded: u64,
}

impl BatchTally {
    /// Well formed: no more successes than attempts.
    pub open spec fn wf(&self) -> bool {
        self.succeeded <= self.attempted
    }

    /// A tally of no actions.
    pub fn new() -> (r: BatchTally)
        ensures
            r.wf(),
            r.attempted == 0,
            r.succeeded == 0,
    {
        BatchTally { attempted: 0, succeeded: 0 }
    }

    /// Counts one more action, which succeeded or failed; a failure does not
    /// stop the batch.
    pub fn record(&mut self, ok: bool)
        requires
            old(self).wf(),
            old(self).attempted < u64::MAX,
        ensures
            final(self).wf(),
            final(self).attempted == old(self).attempted + 1,
            final(self).succeeded == old(self).succeeded + if ok { 1u64 } else { 0u64 },
    {
        self.attempted = self.attempted + 1;
        if ok {
            self.succeeded = self.succeeded + 1;
        }
    }

    /// The batch failed as a whole: it had actions and none succeeded. The loop
    /// then stops with an error instead of starting another pass.
    pub fn all_failed(&self) -> (r: bool)
        ensures
            r == (self.attempted > 0 && self.succeeded == 0),
    {
        self.attempted > 0 && self.succeeded == 0
    }
}

} // verus!
