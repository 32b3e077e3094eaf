use vstd::prelude::*;

verus! {

/// A failure of the bus while it is being set up.
#[derive(Debug, Clone, Copy, PartialEq, Eq, Structural)]
pub enum BusError {
    /// The program image does not fit in the ROM area.
    ProgramTooLarge { rom_size: usize, prog_size: usize },
}

/// A failure while constructing a core.
#[derive(Debug, Clone, Copy, PartialEq, Eq, Structural)]
pub enum CoreError {
    /// The bus refused the program image.
    BusInitFailed(BusError),
}

impl From<BusError> for CoreError {
    fn from(e: BusError) -> (r: CoreError)
        ensures
            r == CoreError::BusInitFailed(e),
    {
        CoreError::BusInitFailed(e)
    }
}

impl vstd::std_specs::convert::FromSpecImpl<BusError> for CoreError {
    open spec fn obeys_from_spec() -> bool {
        true
    }

    open spec fn from_spec(e: BusError) -> CoreError {
        CoreError::BusInitFailed(e)
    }
}

} // verus!
