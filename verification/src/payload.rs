use vstd::prelude::*;

verus! {

/// A value carried as the payload of a message.
#[derive(Debug)]
pub struct Payload<T> {
    pub payload: T,
}

} // verus!
