//! Estimating the progress of a task.

use vstd::prelude::*;
use crate::percent::Percent;

verus! {

/// A type implementing this trait can estimate the progress of a task.
pub trait Progress {
    /// Returns the estimated progress.
    ///
    /// Should generally round down rather than up.  100 means the task is
    /// complete, but 0 doesn't necessarily mean no work has been completed.
    fn progress(&self) -> Percent;
}

impl Progress for bool {
    /// Done or not started: 100% when `true`, 0% when `false`.
    fn progress(&self) -> Percent {
        if *self {
            Percent::max()
        } else {
            Percent::default()
        }
    }
}

impl Progress for (usize, usize) {
    /// A step count out of a total: the fraction `self.0 / self.1`.
    fn progress(&self) -> Percent {
        Percent::fraction(self.0, self.1)
    }
}

/// Convenience function for working with the result of stepping a resumable
/// task: regroups a step outcome carrying an error so that the error joins
/// the final value, while an unfinished task stays on its own side.
pub fn transpose<Task, T, E>(step: Result<Result<T, Task>, E>) -> (r: Result<
    Result<T, E>,
    Task,
>)
    ensures
        (match step {
            Ok(Ok(value)) => r == Result::<Result<T, E>, Task>::Ok(Ok(value)),
            Ok(Err(task)) => r == Result::<Result<T, E>, Task>::Err(task),
            Err(error) => r == Result::<Result<T, E>, Task>::Ok(Err(error)),
        }),
{
    match step {
        Ok(Ok(value)) => Ok(Ok(value)),
        Ok(Err(task)) => Err(task),
        Err(error) => Ok(Err(error)),
    }
}

} // verus!
