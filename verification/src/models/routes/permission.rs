use vstd::prelude::*;

verus! {

/// The role a matcher plays inside a permission bucket: entries tagged
/// `Acceptable` admit an input, entries tagged `Unacceptable` veto it.
#[derive(Debug, Clone, Copy, PartialEq, Eq, Structural)]
pub enum Kind {
    Acceptable,
    Unacceptable,
}

} // verus!
