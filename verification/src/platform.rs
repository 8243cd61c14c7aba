//! The operating system a piece of logic is deciding for. The library never
//! asks the machine; callers say which platform they run on.
use vstd::prelude::*;

verus! {

#[derive(Clone, Copy, Debug, PartialEq, Eq, Structural)]
pub enum Platform {
    Linux,
    Windows,
    MacOs,
    Other,
}

} // verus!
