use vstd::prelude::*;

use crate::error::BusError;
use crate::traits::Bus;

verus! {

/// Size of each of the two memory areas.
pub const AREA_SIZE: usize = 0x8000;

/// A plain bus: RAM at 0x0000-0x7FFF, ROM at 0x8000-0xFFFF, no peripherals.
/// The program image is loaded at the start of ROM.
#[derive(Debug)]
pub struct DefaultBus {
    ram: Vec<u8>,
    rom: Vec<u8>,
}

impl DefaultBus {
    /// Both areas have their full size.
    pub closed spec fn sized(&self) -> bool {
        self.ram@.len() == AREA_SIZE && self.rom@.len() == AREA_SIZE
    }

    /// The whole address space: RAM followed by ROM.
    pub closed spec fn memory(&self) -> Seq<u8> {
        self.ram@ + self.rom@
    }
}

impl Bus for DefaultBus {
    fn read(&mut self, addr: u16) -> (r: u8)
        ensures
            old(self).sized() ==> r == old(self).memory()[addr as int],
            *final(self) == *old(self),
    {
        let a = addr as usize;
        if a < AREA_SIZE {
            if a < self.ram.len() {
                self.ram[a]
            } else {
                0
            }
        } else if a - AREA_SIZE < self.rom.len() {
            self.rom[a - AREA_SIZE]
        } else {
            0
        }
    }

    fn write(&mut self, addr: u16, byte: u8)
        ensures
            old(self).sized() ==> final(self).sized() && final(self).memory() == old(
                self,
            ).memory().update(addr as int, byte),
    {
        let a = addr as usize;
        if a < AREA_SIZE {
            if a < self.ram.len() {
                self.ram.set(a, byte);
            }
        } else if a - AREA_SIZE < self.rom.len() {
            self.rom.set(a - AREA_SIZE, byte);
        }
        proof {
            if old(self).sized() {
                assert(self.memory() =~= old(self).memory().update(addr as int, byte));
            }
        }
    }

    fn on_clock(&mut self)
        ensures
            *final(self) == *old(self),
    {
    }

    fn load_rom(&mut self, prog: Vec<u8>) -> (r: Result<(), BusError>)
        ensures
            prog@.len() > AREA_SIZE ==> r == Err::<(), BusError>(
                BusError::ProgramTooLarge { rom_size: AREA_SIZE, prog_size: prog@.len() as usize },
            ) && final(self).memory() == old(self).memory(),
            prog@.len() <= AREA_SIZE ==> r is Ok,
            prog@.len() <= AREA_SIZE && old(self).sized() ==> final(self).sized() && final(self).memory() == old(self).memory().subrange(
                0,
                AREA_SIZE as int,
            ) + prog@ + old(self).memory().subrange(AREA_SIZE + prog@.len(), 2 * AREA_SIZE as int),
    {
        if prog.len() > AREA_SIZE {
            return Err(BusError::ProgramTooLarge { rom_size: AREA_SIZE, prog_size: prog.len() });
        }
        let mut i: usize = 0;
        while i < prog.len() && i < self.rom.len()
            invariant
                i <= prog@.len() <= AREA_SIZE,
                self.ram@ == old(self).ram@,
                self.rom@.len() == old(self).rom@.len(),
                i <= self.rom@.len() || !old(self).sized(),
                forall|j: int| 0 <= j < i ==> self.rom@[j] == prog@[j],
                forall|j: int| i <= j < self.rom@.len() ==> self.rom@[j] == old(self).rom@[j],
            decreases prog@.len() - i,
        {
            self.rom.set(i, prog[i]);
            i = i + 1;
        }
        proof {
            if old(self).sized() {
                assert(self.memory() =~= old(self).memory().subrange(0, AREA_SIZE as int) + prog@
                + old(self).memory().subrange(AREA_SIZE + prog@.len(), 2 * AREA_SIZE as int));
            }
        }
        Ok(())
    }

    fn dump_rom(&self) -> (r: Vec<u8>)
        ensures
            self.sized() ==> r@ == self.memory().subrange(AREA_SIZE as int, 2 * AREA_SIZE as int),
    {
        let r = self.rom.clone();
        proof {
            if self.sized() {
                assert(r@ =~= self.memory().subrange(AREA_SIZE as int, 2 * AREA_SIZE as int));
            }
        }
        r
    }
}

impl Default for DefaultBus {
    fn default() -> (r: DefaultBus)
        ensures
            r.sized(),
            r.memory() == Seq::new(2 * AREA_SIZE as nat, |i: int| 0u8),
    {
        let r = DefaultBus { ram: vec![0u8; AREA_SIZE], rom: vec![0u8; AREA_SIZE] };
        proof {
            assert(r.memory() =~= Seq::new(2 * AREA_SIZE as nat, |i: int| 0u8));
        }
        r
    }
}

} // verus!
