//! What actors send each other.

use std::fmt::Debug;
use vstd::prelude::*;

verus! {

/// What a message has to offer.
pub trait Message: Debug + Send + Sync {

}

impl<T: Debug + Send + Sync> Message for T {

}

} // verus!
