use vstd::prelude::*;

verus! {

/// A connection that a stream can be made of. The byte interfaces that the two halves need are
/// asked for where the connection is split.
pub trait Streamable {

}

impl<T> Streamable for T {

}

} // verus!
