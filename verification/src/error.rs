//! The single failure taxonomy of the flattening engine.
//!
//! Every fatal condition of elaboration is one closed kind of structural
//! violation: the input was malformed or unverified, and the whole run is
//! abandoned with no partial result.

use vstd::prelude::*;

verus! {

/// A fatal defect found in the source design while flattening.
///
/// Each variant carries the identifier that witnessed the violation, so a
/// driver can report where the input went wrong.
#[derive(Clone, Copy, Debug, PartialEq, Eq, Structural)]
pub enum StructuralViolation {
    /// A structural identifier was target-bound although it had already been
    /// reduced or bound; aliasing must precede any independent use.
    RepeatedBinding(usize),
    /// `update` was called with an identifier that is not among the declared
    /// uses of the operation.
    UnknownUse(usize),
    /// `update` was called twice for the same declared use.
    RepeatedUpdate(usize),
    /// An operation kind that the flattening traversal does not interpret.
    UnsupportedOperation(usize),
    /// A select or cases operation that is not marked one-hot; priority
    /// selection is deliberately unsupported.
    NonOneHotSelection(usize),
    /// A register carrying a reset or reset value; reset semantics are
    /// deliberately unsupported.
    RegisterReset(usize),
    /// A second input-port operation in one region.
    RepeatedInputPort(usize),
    /// A second output-port operation in one region.
    RepeatedOutputPort(usize),
    /// The designated top module is missing, is not a module, or is not
    /// marked as top.
    MissingTopModule(usize),
    /// An operation whose required fields are absent or whose identifiers do
    /// not resolve in the design's tables.
    MalformedOperation(usize),
    /// Instantiation nested deeper than the traversal's recursion budget;
    /// a well-formed design hierarchy never reaches it.
    RecursionLimit(usize),
    /// An index space of the machine is exhausted: no further flat value
    /// or dependency slot can be allocated.
    ValueSpaceExhausted,
}

} // verus!
