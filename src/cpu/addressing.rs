use vstd::prelude::*;

verus! {

/// An addressing mode: how an instruction finds its operand.
#[derive(Debug, PartialEq, Eq, Clone, Copy, Structural)]
pub enum Mode {
    Accumulator,
    Absolute(Offset),
    Immediate,
    Implied,
    Indirect,
    IndexedIndirect,
    IndirectIndexed,
    Relative,
    ZeroPage(Offset),
}

/// The index register added by an indexed mode, if any.
#[derive(Debug, PartialEq, Eq, Clone, Copy, Structural)]
pub enum Offset {
    NoIndex,
    X,
    Y,
}

} // verus!
