//! The three ways an instruction can fail to complete.
use vstd::prelude::*;

verus! {

/// A fault raised while fetching, decoding or executing an instruction.
#[derive(Debug, Clone, Copy, PartialEq, Eq, Structural)]
pub enum Fault {
    /// The word holds no instruction of the supported set.
    Decode(u32),
    /// The address lies outside the bus.
    Memory(u32),
    /// The word is a valid instruction whose handler is not implemented.
    Unimplemented(u32),
}

} // verus!
