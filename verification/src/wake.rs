//! The task handles of `std::task` that parked consumers leave behind.

use std::task::Waker;
use vstd::prelude::*;

verus! {

/// `std::task::Waker`: the handle through which a task that is waiting is told
/// to poll again. The verifier carries such a value around and sees nothing
/// inside it.
#[verifier::external_type_specification]
#[verifier::external_body]
pub struct ExWaker(std::task::Waker);

/// `Waker::wake` tells the task behind the waker to poll again and uses the
/// waker up. It returns nothing, and nothing is claimed of it.
pub assume_specification[ Waker::wake ](waker: Waker);

/// `Waker::clone` gives a second waker for the same task. How the copy relates
/// to the waker it was made from is not visible to the verifier, so nothing is
/// claimed of it.
pub assume_specification[ <Waker as Clone>::clone ](waker: &Waker) -> (copy: Waker);

} // verus!
