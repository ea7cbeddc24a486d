use vstd::prelude::*;

verus! {

/// What the puzzle server refuses.
#[derive(Clone, Copy, Debug, PartialEq, Eq, Structural)]
pub enum NetworkError {
    KeyAlreadyExist,
    NoEntry,
    NameAlreadyExist,
}

} // verus!
