use vstd::prelude::*;
use crate::error::MangoError;

verus! {

/// The outcome of the first `n` checks made in order: the first failure
/// among them, if there is one.
pub open spec fn first_error(checks: Seq<Result<(), MangoError>>, n: nat) -> Result<
    (),
    MangoError,
>
    decreases n,
{
    if n == 0 {
        Ok(())
    } else {
        match first_error(checks, (n - 1) as nat) {
            Ok(_) => checks[n - 1],
            Err(e) => Err(e),
        }
    }
}

/// Later checks do not change an earlier failure.
pub proof fn lemma_first_error_stays(checks: Seq<Result<(), MangoError>>, n: nat, m: nat)
    requires
        n <= m,
        first_error(checks, n) is Err,
    ensures
        first_error(checks, m) == first_error(checks, n),
    decreases m,
{
    if n < m {
        lemma_first_error_stays(checks, n, (m - 1) as nat);
    }
}

/// Where no check failed, each of them passed.
pub proof fn lemma_first_error_none(checks: Seq<Result<(), MangoError>>, n: nat)
    requires
        first_error(checks, n) is Ok,
    ensures
        forall|i: int| 0 <= i < n ==> (#[trigger] checks[i]) is Ok,
    decreases n,
{
    if n > 0 {
        lemma_first_error_none(checks, (n - 1) as nat);
    }
}

/// The state after the first `n` steps taken in order, each on the state
/// that the one before it left; the first failure ends it.
pub open spec fn run_steps<S>(
    start: S,
    step: spec_fn(S, int) -> Result<S, MangoError>,
    n: nat,
) -> Result<S, MangoError>
    decreases n,
{
    if n == 0 {
        Ok(start)
    } else {
        match run_steps(start, step, (n - 1) as nat) {
            Ok(s) => step(s, n - 1),
            Err(e) => Err(e),
        }
    }
}

/// Later steps do not change an earlier failure.
pub proof fn lemma_run_steps_error_stays<S>(
    start: S,
    step: spec_fn(S, int) -> Result<S, MangoError>,
    n: nat,
    m: nat,
)
    requires
        n <= m,
        run_steps(start, step, n) is Err,
    ensures
        run_steps(start, step, m) == run_steps(start, step, n),
    decreases m,
{
    if n < m {
        lemma_run_steps_error_stays(start, step, n, (m - 1) as nat);
    }
}

} // verus!
