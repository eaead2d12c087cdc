//! A decision that may need to know more first.
use vstd::prelude::*;

verus! {

/// Either what has to be found out before a decision can be made, or the
/// decision.
#[derive(Debug)]
pub enum Step<Q, T> {
    Ask(Q),
    Done(T),
}

} // verus!
