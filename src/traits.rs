use vstd::prelude::*;

use crate::error::BusError;

verus! {

/// The system bus that a core drives: byte reads and writes over a 16-bit
/// address space, one clock callback per CPU cycle, and program loading.
///
/// `read` and `write` do not advance time; the core calls `on_clock` once
/// after each of its own accesses and at each dead cycle. A bus must accept
/// any 16-bit address. `on_clock` may step peripherals, so what a later read
/// returns is the bus's own affair.
pub trait Bus {
    fn read(&mut self, addr: u16) -> u8;

    fn write(&mut self, addr: u16, byte: u8);

    fn on_clock(&mut self);

    fn load_rom(&mut self, prog: Vec<u8>) -> Result<(), BusError>;

    fn dump_rom(&self) -> Vec<u8>;
}

} // verus!
