use vstd::prelude::*;

pub mod flags;
pub mod laws;
pub mod ops;
pub mod semantics;

pub use self::flags::Flags;

use crate::cpu::addressing::{Mode, Offset};
use crate::error::CoreError;
use crate::machine::semantics::{
    extends, lemma_read_value, Event, Regs, State, stack_addr, wrap16, wrap8, word,
};
use crate::traits::Bus;

verus! {

/// A 6502 core driving a bus.
///
/// Besides the registers it keeps, as ghost state, the trace of every bus
/// call it has made; the contracts speak of that trace.
pub struct Core<B: Bus> {
    acc: u8,
    idx: u8,
    idy: u8,
    sp: u8,
    pc: u16,
    status: Flags,
    bus: B,
    halted: bool,
    trace: Ghost<Seq<Event>>,
}

impl<B: Bus> Core<B> {
    /// The registers.
    pub closed spec fn regs(&self) -> Regs {
        Regs {
            a: self.acc,
            x: self.idx,
            y: self.idy,
            sp: self.sp,
            pc: self.pc,
            p: self.status,
            halted: self.halted,
        }
    }

    /// Every bus call made so far, in order.
    pub closed spec fn trace(&self) -> Seq<Event> {
        self.trace@
    }

    /// The bus, as the core holds it.
    pub closed spec fn bus_view(&self) -> B {
        self.bus
    }

    pub open spec fn state(&self) -> State {
        (self.regs(), self.trace())
    }

    /// Builds a core on `bus`, has the bus load `program`, and resets.
    pub fn new(bus: B, program: Vec<u8>) -> (r: Result<Core<B>, CoreError>)
        ensures
            r matches Ok(c) ==> c.state() == semantics::power_on(c.trace()),
    {
        let mut core = Core {
            acc: 0,
            idx: 0,
            idy: 0,
            sp: 0,
            pc: 0,
            status: Flags::new(),
            bus,
            halted: true,
            trace: Ghost(Seq::empty()),
        };
        match core.bus.load_rom(program) {
            Ok(()) => {},
            Err(e) => {
                return Err(CoreError::from(e));
            },
        }
        core.reset();
        Ok(core)
    }

    /// Clears A, X and Y, sets `SP = 0xFF`, loads PC from the reset vector and
    /// clears the halt.
    pub fn reset(&mut self)
        ensures
            semantics::reset(old(self).state(), final(self).trace()) == final(self).state(),
            final(self).regs().p == old(self).regs().p,
    {
        self.acc = 0;
        self.idx = 0;
        self.idy = 0;
        self.sp = 0xff;
        let low = self.bus.read(0xfffc);
        self.trace = Ghost(self.trace@.push(Event::Read(0xfffc, low)));
        let high = self.bus.read(0xfffd);
        self.trace = Ghost(self.trace@.push(Event::Read(0xfffd, high)));
        self.pc = addr_from_bytes(low, high);
        self.halted = false;
    }

    /// The packed status byte.
    pub fn dump_status_byte(&self) -> (r: u8)
        ensures
            r == self.regs().p.byte(),
    {
        self.status.as_byte()
    }

    /// The status flags.
    pub fn dump_status_flags(&self) -> (r: Flags)
        ensures
            r == self.regs().p,
    {
        self.status
    }

    /// The bus, for inspection or for loading memory between steps.
    pub fn get_bus(&mut self) -> (r: &mut B)
        ensures
            *r == old(self).bus_view(),
            final(self).regs() == old(self).regs(),
            final(self).trace() == old(self).trace(),
            final(self).bus_view() == *final(r),
    {
        &mut self.bus
    }

    /// The A register.
    pub fn acc(&self) -> (r: u8)
        ensures
            r == self.regs().a,
    {
        self.acc
    }

    /// Overwrites the A register.
    pub fn set_acc(&mut self, value: u8)
        ensures
            final(self).regs() == (Regs { a: value, ..old(self).regs() }),
            final(self).trace() == old(self).trace(),
            final(self).bus_view() == old(self).bus_view(),
    {
        self.acc = value;
    }

    /// The X register.
    pub fn idx(&self) -> (r: u8)
        ensures
            r == self.regs().x,
    {
        self.idx
    }

    /// Overwrites the X register.
    pub fn set_idx(&mut self, value: u8)
        ensures
            final(self).regs() == (Regs { x: value, ..old(self).regs() }),
            final(self).trace() == old(self).trace(),
            final(self).bus_view() == old(self).bus_view(),
    {
        self.idx = value;
    }

    /// The Y register.
    pub fn idy(&self) -> (r: u8)
        ensures
            r == self.regs().y,
    {
        self.idy
    }

    /// Overwrites the Y register.
    pub fn set_idy(&mut self, value: u8)
        ensures
            final(self).regs() == (Regs { y: value, ..old(self).regs() }),
            final(self).trace() == old(self).trace(),
            final(self).bus_view() == old(self).bus_view(),
    {
        self.idy = value;
    }

    /// The SP register.
    pub fn sp(&self) -> (r: u8)
        ensures
            r == self.regs().sp,
    {
        self.sp
    }

    /// Overwrites the SP register.
    pub fn set_sp(&mut self, value: u8)
        ensures
            final(self).regs() == (Regs { sp: value, ..old(self).regs() }),
            final(self).trace() == old(self).trace(),
            final(self).bus_view() == old(self).bus_view(),
    {
        self.sp = value;
    }

    /// The PC register.
    pub fn pc(&self) -> (r: u16)
        ensures
            r == self.regs().pc,
    {
        self.pc
    }

    /// Overwrites the PC register.
    pub fn set_pc(&mut self, value: u16)
        ensures
            final(self).regs() == (Regs { pc: value, ..old(self).regs() }),
            final(self).trace() == old(self).trace(),
            final(self).bus_view() == old(self).bus_view(),
    {
        self.pc = value;
    }

    /// Overwrites the status flags.
    pub fn set_status_flags(&mut self, flags: Flags)
        ensures
            final(self).regs() == (Regs { p: flags, ..old(self).regs() }),
            final(self).trace() == old(self).trace(),
            final(self).bus_view() == old(self).bus_view(),
    {
        self.status = flags;
    }

    /// Whether an unknown opcode has halted the core.
    pub fn is_halted(&self) -> (r: bool)
        ensures
            r == self.regs().halted,
    {
        self.halted
    }

    /// Halts the core.
    pub(crate) fn halt(&mut self)
        ensures
            final(self).regs() == (Regs { halted: true, ..old(self).regs() }),
            final(self).trace() == old(self).trace(),
    {
        self.halted = true;
    }

    /// One dead cycle.
    fn clock_bus(&mut self)
        ensures
            final(self).regs() == old(self).regs(),
            final(self).trace() == old(self).trace().push(Event::Tick),
            forall|o: Seq<Event>|
                extends(o, final(self).trace()) ==> #[trigger] semantics::tick(old(self).state())
                    == final(self).state() && extends(o, old(self).trace()),
    {
        self.bus.on_clock();
        self.trace = Ghost(self.trace@.push(Event::Tick));
    }

    /// Reads a byte and spends its cycle.
    fn read_bus(&mut self, addr: u16) -> (r: u8)
        ensures
            final(self).regs() == old(self).regs(),
            final(self).trace() == old(self).trace().push(Event::Read(addr, r)).push(Event::Tick),
            forall|o: Seq<Event>|
                extends(o, final(self).trace()) ==> #[trigger] semantics::read(
                    old(self).state(),
                    o,
                    addr,
                ) == (final(self).state(), r) && extends(o, old(self).trace()),
    {
        let byte = self.bus.read(addr);
        self.trace = Ghost(self.trace@.push(Event::Read(addr, byte)));
        self.clock_bus();
        proof {
            assert forall|o: Seq<Event>| extends(o, self.trace()) implies semantics::read(
                old(self).state(),
                o,
                addr,
            ) == (self.state(), byte) && extends(o, old(self).trace()) by {
                lemma_read_value(o, old(self).trace(), addr, byte);
                semantics::lemma_extends_trans(o, self.trace(), old(self).trace());
            }
        }
        byte
    }

    /// Writes a byte and spends its cycle.
    fn write_bus(&mut self, addr: u16, byte: u8)
        ensures
            final(self).regs() == old(self).regs(),
            final(self).trace() == old(self).trace().push(Event::Write(addr, byte)).push(
                Event::Tick,
            ),
            forall|o: Seq<Event>|
                extends(o, final(self).trace()) ==> #[trigger] semantics::write(
                    old(self).state(),
                    addr,
                    byte,
                ) == final(self).state() && extends(o, old(self).trace()),
    {
        self.bus.write(addr, byte);
        self.trace = Ghost(self.trace@.push(Event::Write(addr, byte)));
        self.clock_bus();
        proof {
            assert forall|o: Seq<Event>| extends(o, self.trace()) implies extends(
                o,
                old(self).trace(),
            ) by {
                semantics::lemma_extends_trans(o, self.trace(), old(self).trace());
            }
        }
    }

    /// Reads the byte at PC and advances PC.
    pub(crate) fn fetch(&mut self) -> (r: u8)
        ensures
            final(self).regs() == (Regs { pc: wrap16(old(self).regs().pc + 1), ..old(self).regs() }),
            final(self).trace() == old(self).trace().push(Event::Read(old(self).regs().pc, r)).push(
                Event::Tick,
            ),
            forall|o: Seq<Event>|
                extends(o, final(self).trace()) ==> #[trigger] semantics::fetch(
                    old(self).state(),
                    o,
                ) == (final(self).state(), r) && extends(o, old(self).trace()),
    {
        let byte = self.read_bus(self.pc);
        self.pc = self.pc.wrapping_add(1);
        byte
    }

    /// Writes `byte` to the stack slot and moves SP down.
    fn push_stack(&mut self, byte: u8)
        ensures
            final(self).regs() == (Regs { sp: wrap8(old(self).regs().sp - 1), ..old(self).regs() }),
            final(self).trace() == old(self).trace().push(
                Event::Write(stack_addr(old(self).regs().sp), byte),
            ).push(Event::Tick),
            forall|o: Seq<Event>|
                extends(o, final(self).trace()) ==> #[trigger] semantics::push(
                    old(self).state(),
                    byte,
                ) == final(self).state() && extends(o, old(self).trace()),
    {
        let addr = addr_from_bytes(self.sp, 0x01);
        self.write_bus(addr, byte);
        self.sp = self.sp.wrapping_sub(1);
    }

    /// Moves SP up, spends the dead cycle, and reads the stack slot.
    fn pull_stack(&mut self) -> (r: u8)
        ensures
            final(self).regs() == (Regs { sp: wrap8(old(self).regs().sp + 1), ..old(self).regs() }),
            final(self).trace() == old(self).trace().push(Event::Tick).push(
                Event::Read(stack_addr(wrap8(old(self).regs().sp + 1)), r),
            ).push(Event::Tick),
            forall|o: Seq<Event>|
                extends(o, final(self).trace()) ==> #[trigger] semantics::pull(
                    old(self).state(),
                    o,
                ) == (final(self).state(), r) && extends(o, old(self).trace()),
    {
        self.sp = self.sp.wrapping_add(1);
        self.clock_bus();
        let addr = addr_from_bytes(self.sp, 0x01);
        self.read_bus(addr)
    }

    /// Sets N and Z from `byte`.
    fn set_nz(&mut self, byte: u8)
        ensures
            final(self).regs() == (Regs { p: semantics::nz(old(self).regs().p, byte), ..old(self).regs() }),
            final(self).trace() == old(self).trace(),
    {
        self.status.set_zero(byte == 0);
        self.status.set_negative(byte & 0x80 != 0);
    }

    /// The zero-page address of the operand.
    fn get_zeropage(&mut self, offset: Offset) -> (r: u16)
        ensures
            forall|o: Seq<Event>|
                extends(o, final(self).trace()) ==> #[trigger] semantics::zero_page(
                    old(self).state(),
                    o,
                    offset,
                ) == (final(self).state(), r) && extends(o, old(self).trace()),
    {
        match offset {
            Offset::NoIndex => {
                let low = self.fetch();
                addr_from_bytes(low, 0x00)
            },
            Offset::X => {
                let low = self.fetch().wrapping_add(self.idx);
                self.clock_bus();
                addr_from_bytes(low, 0x00)
            },
            Offset::Y => {
                let low = self.fetch().wrapping_add(self.idy);
                self.clock_bus();
                addr_from_bytes(low, 0x00)
            },
        }
    }

    /// An absolute address plus index; a cycle more when the index crosses a
    /// page, which is reported.
    fn get_absolute(&mut self, offset: Offset) -> (r: (u16, bool))
        ensures
            forall|o: Seq<Event>|
                extends(o, final(self).trace()) ==> #[trigger] semantics::absolute(
                    old(self).state(),
                    o,
                    offset,
                ) == (final(self).state(), r.0, r.1) && extends(o, old(self).trace()),
    {
        let low = self.fetch();
        let high = self.fetch();
        let addr = addr_from_bytes(low, high);
        let index: u8 = match offset {
            Offset::NoIndex => 0,
            Offset::X => self.idx,
            Offset::Y => self.idy,
        };
        let crossed = page_crossed(low, index);
        if crossed {
            self.clock_bus();
        }
        (addr.wrapping_add(index as u16), crossed)
    }

    /// `(zp,X)`.
    fn get_indexed_indirect(&mut self) -> (r: u16)
        ensures
            forall|o: Seq<Event>|
                extends(o, final(self).trace()) ==> #[trigger] semantics::indexed_indirect(
                    old(self).state(),
                    o,
                ) == (final(self).state(), r) && extends(o, old(self).trace()),
    {
        let ptr = self.fetch().wrapping_add(self.idx);
        let low = self.read_bus(addr_from_bytes(ptr, 0x00));
        let high = self.read_bus(addr_from_bytes(ptr.wrapping_add(1), 0x00));
        self.clock_bus();
        addr_from_bytes(low, high)
    }

    /// `(zp),Y`; a cycle more when Y crosses a page, which is reported.
    fn get_indirect_indexed(&mut self) -> (r: (u16, bool))
        ensures
            forall|o: Seq<Event>|
                extends(o, final(self).trace()) ==> #[trigger] semantics::indirect_indexed(
                    old(self).state(),
                    o,
                ) == (final(self).state(), r.0, r.1) && extends(o, old(self).trace()),
    {
        let ptr = self.fetch();
        let low = self.read_bus(addr_from_bytes(ptr, 0x00));
        let high = self.read_bus(addr_from_bytes(ptr.wrapping_add(1), 0x00));
        let crossed = page_crossed(low, self.idy);
        if crossed {
            self.clock_bus();
        }
        (addr_from_bytes(low, high).wrapping_add(self.idy as u16), crossed)
    }

    /// The effective address of a memory mode.
    fn get_address(&mut self, mode: Mode) -> (r: (u16, bool))
        requires
            semantics::is_memory(mode),
        ensures
            forall|o: Seq<Event>|
                extends(o, final(self).trace()) ==> #[trigger] semantics::effective(
                    old(self).state(),
                    o,
                    mode,
                ) == (final(self).state(), r.0, r.1) && extends(o, old(self).trace()),
    {
        match mode {
            Mode::ZeroPage(offset) => (self.get_zeropage(offset), false),
            Mode::Absolute(offset) => self.get_absolute(offset),
            Mode::IndexedIndirect => (self.get_indexed_indirect(), false),
            _ => self.get_indirect_indexed(),
        }
    }

    /// The operand byte: immediate, or read from the effective address.
    fn read_operand(&mut self, mode: Mode) -> (r: u8)
        requires
            mode == Mode::Immediate || semantics::is_memory(mode),
        ensures
            forall|o: Seq<Event>|
                extends(o, final(self).trace()) ==> #[trigger] semantics::operand(
                    old(self).state(),
                    o,
                    mode,
                ) == (final(self).state(), r) && extends(o, old(self).trace()),
    {
        if mode == Mode::Immediate {
            self.fetch()
        } else {
            let (addr, _) = self.get_address(mode);
            self.read_bus(addr)
        }
    }
}

/// Whether `byte + index` carries into the next page.
fn page_crossed(byte: u8, index: u8) -> (r: bool)
    ensures
        r == (byte + index > 255),
{
    (byte as u16) + (index as u16) > 255
}

/// Forms the address `high:low`.
fn addr_from_bytes(low: u8, high: u8) -> (r: u16)
    ensures
        r == word(low, high),
{
    let r = ((high as u16) << 8u16) | (low as u16);
    assert(r == high as int * 256 + low as int) by (bit_vector)
        requires
            r == ((high as u16) << 8u16) | (low as u16),
    ;
    r
}

} // verus!
