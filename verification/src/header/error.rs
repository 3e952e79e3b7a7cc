use vstd::prelude::*;

verus! {

/// Why a header could not be read.
#[derive(Clone, Copy, Debug, PartialEq, Eq, Structural)]
pub enum ParseError {
    /// The header's value does not follow the header's grammar.
    Header,
}

} // verus!
