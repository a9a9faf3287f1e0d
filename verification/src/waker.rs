use vstd::prelude::*;
use std::task::Waker;

verus! {

#[verifier::external_type_specification]
#[verifier::external_body]
pub struct ExWaker(Waker);

/// Wakes the task behind `waker` (`Waker::wake`). Nothing is claimed of the
/// effect, which happens outside this library.
#[verifier::external_body]
pub(crate) fn wake(waker: Waker) {
    waker.wake();
}

} // verus!
