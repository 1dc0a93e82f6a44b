//! Steps with one outcome.
//!
//! A function that takes a step of its caller's says what the step is handed and
//! where its result goes. That two runs agree follows only where the step itself
//! gives the same result for the same arguments, which is what is said here, by
//! the number of arguments.
use vstd::prelude::*;

verus! {

/// `step` has one outcome for each argument.
pub open spec fn decided<A, R, F: Fn(A) -> R>(step: F) -> bool {
    forall|a: A, left: R, right: R| #[trigger]
        step.ensures((a,), left) && #[trigger] step.ensures((a,), right) ==> left == right
}

/// `step` has one outcome for each two arguments.
pub open spec fn decided_by_two<A, B, R, F: Fn(A, B) -> R>(step: F) -> bool {
    forall|a: A, b: B, left: R, right: R| #[trigger]
        step.ensures((a, b), left) && #[trigger] step.ensures((a, b), right) ==> left == right
}

/// `step` has one outcome for each three arguments.
pub open spec fn decided_by_three<A, B, C, R, F: Fn(A, B, C) -> R>(step: F) -> bool {
    forall|a: A, b: B, c: C, left: R, right: R| #[trigger]
        step.ensures((a, b, c), left) && #[trigger] step.ensures((a, b, c), right) ==> left
            == right
}

/// `step` has one outcome for each four arguments.
pub open spec fn decided_by_four<A, B, C, D, R, F: Fn(A, B, C, D) -> R>(step: F) -> bool {
    forall|a: A, b: B, c: C, d: D, left: R, right: R| #[trigger]
        step.ensures((a, b, c, d), left) && #[trigger] step.ensures((a, b, c, d), right) ==> left
            == right
}

/// `step` has one outcome for each five arguments.
pub open spec fn decided_by_five<A, B, C, D, E, R, F: Fn(A, B, C, D, E) -> R>(step: F) -> bool {
    forall|a: A, b: B, c: C, d: D, e: E, left: R, right: R| #[trigger]
        step.ensures((a, b, c, d, e), left) && #[trigger] step.ensures((a, b, c, d, e), right)
            ==> left == right
}

} // verus!
