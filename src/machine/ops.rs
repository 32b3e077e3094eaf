//! The instruction routines, one per mnemonic, and the opcode dispatch.
use vstd::prelude::*;

use crate::cpu::addressing::{Mode, Offset};
use crate::machine::semantics::{self, extends, is_memory, Event, Instruction, Regs, State};
use crate::machine::{addr_from_bytes, Core};
use crate::traits::Bus;

verus! {

/// A routine that took the core from `before` to `after` did what the
/// semantics `spec_after` prescribe, for any oracle `o` that extends its
/// trace; it only appended to the trace.
pub open spec fn ran(before: State, after: State, o: Seq<Event>, spec_after: State) -> bool {
    extends(o, after.1) ==> spec_after == after && extends(o, before.1)
}

/// A reading instruction's legal modes.
pub open spec fn reads(mode: Mode) -> bool {
    mode == Mode::Immediate || is_memory(mode)
}

/// ASL, LSR, ROL, ROR.
pub open spec fn is_shift(i: Instruction) -> bool {
    i == Instruction::Asl || i == Instruction::Lsr || i == Instruction::Rol || i == Instruction::Ror
}

/// The shift's result and carry out.
fn shift_value(i: Instruction, v: u8, c: bool) -> (r: (u8, bool))
    requires
        is_shift(i),
    ensures
        r == semantics::shifted(i, v, c),
{
    match i {
        Instruction::Asl => ((((v as u16) * 2) % 256) as u8, v >= 128),
        Instruction::Lsr => (v / 2, v % 2 == 1),
        Instruction::Rol => ((((v as u16) * 2 + if c { 1 } else { 0 }) % 256) as u8, v >= 128),
        _ => (v / 2 + if c { 128 } else { 0 }, v % 2 == 1),
    }
}

impl<B: Bus> Core<B> {
    /// Applies a reading instruction's effect on the registers.
    fn apply_operand(&mut self, i: Instruction, v: u8)
        requires
            i == Instruction::Lda || i == Instruction::Ldx || i == Instruction::Ldy || i
                == Instruction::And || i == Instruction::Ora || i == Instruction::Eor || i
                == Instruction::Adc || i == Instruction::Sbc || i == Instruction::Cmp || i
                == Instruction::Cpx || i == Instruction::Cpy || i == Instruction::Bit,
        ensures
            final(self).regs() == semantics::with_operand(old(self).regs(), i, v),
            final(self).trace() == old(self).trace(),
    {
        match i {
            Instruction::Lda => {
                self.acc = v;
                self.set_nz(v);
            },
            Instruction::Ldx => {
                self.idx = v;
                self.set_nz(v);
            },
            Instruction::Ldy => {
                self.idy = v;
                self.set_nz(v);
            },
            Instruction::And => {
                self.acc = self.acc & v;
                self.set_nz(self.acc);
            },
            Instruction::Ora => {
                self.acc = self.acc | v;
                self.set_nz(self.acc);
            },
            Instruction::Eor => {
                self.acc = self.acc ^ v;
                self.set_nz(self.acc);
            },
            Instruction::Adc => self.add_with_carry(v),
            Instruction::Sbc => self.add_with_carry(255 - v),
            Instruction::Cmp => self.compare(self.acc, v),
            Instruction::Cpx => self.compare(self.idx, v),
            Instruction::Cpy => self.compare(self.idy, v),
            _ => {
                let res = v & self.acc;
                self.status.set_negative(v & 0x80 != 0);
                self.status.set_overflow(v & 0x40 != 0);
                self.status.set_zero(res == 0);
            },
        }
    }

    /// `A = A + v + C`, with C, V, N and Z.
    fn add_with_carry(&mut self, v: u8)
        ensures
            final(self).regs() == semantics::add_with_carry(old(self).regs(), v),
            final(self).trace() == old(self).trace(),
    {
        let carry_bit: u16 = if self.status.carry() { 1 } else { 0 };
        let sum: u16 = self.acc as u16 + v as u16 + carry_bit;
        let res = (sum % 256) as u8;
        let overflow = check_overflow(self.acc, v, res);
        self.acc = res;
        self.status.set_carry(sum > 255);
        self.status.set_overflow(overflow);
        self.set_nz(res);
    }

    /// Compares `reg` with `v`: N and Z on `reg - v`, C when `reg >= v`.
    fn compare(&mut self, reg: u8, v: u8)
        ensures
            final(self).regs() == (Regs {
                p: semantics::compare(old(self).regs().p, reg, v),
                ..old(self).regs()
            }),
            final(self).trace() == old(self).trace(),
    {
        let res = reg.wrapping_sub(v);
        self.set_nz(res);
        self.status.set_carry(reg >= v);
    }

    /// A reading instruction: operand, then effect.
    fn load_op(&mut self, i: Instruction, mode: Mode)
        requires
            reads(mode),
            i == Instruction::Lda || i == Instruction::Ldx || i == Instruction::Ldy || i
                == Instruction::And || i == Instruction::Ora || i == Instruction::Eor || i
                == Instruction::Adc || i == Instruction::Sbc || i == Instruction::Cmp || i
                == Instruction::Cpx || i == Instruction::Cpy || i == Instruction::Bit,
        ensures
            forall|o: Seq<Event>|
                ran(
                    old(self).state(),
                    final(self).state(),
                    o,
                    #[trigger] semantics::load_op(old(self).state(), o, i, mode),
                ),
    {
        let v = self.read_operand(mode);
        self.apply_operand(i, v);
    }

    fn adc(&mut self, mode: Mode)
        requires
            reads(mode),
        ensures
            forall|o: Seq<Event>|
                ran(
                    old(self).state(),
                    final(self).state(),
                    o,
                    #[trigger] semantics::load_op(old(self).state(), o, Instruction::Adc, mode),
                ),
    {
        self.load_op(Instruction::Adc, mode);
    }

    fn and(&mut self, mode: Mode)
        requires
            reads(mode),
        ensures
            forall|o: Seq<Event>|
                ran(
                    old(self).state(),
                    final(self).state(),
                    o,
                    #[trigger] semantics::load_op(old(self).state(), o, Instruction::And, mode),
                ),
    {
        self.load_op(Instruction::And, mode);
    }

    fn cmp(&mut self, mode: Mode)
        requires
            reads(mode),
        ensures
            forall|o: Seq<Event>|
                ran(
                    old(self).state(),
                    final(self).state(),
                    o,
                    #[trigger] semantics::load_op(old(self).state(), o, Instruction::Cmp, mode),
                ),
    {
        self.load_op(Instruction::Cmp, mode);
    }

    fn cpx(&mut self, mode: Mode)
        requires
            reads(mode),
        ensures
            forall|o: Seq<Event>|
                ran(
                    old(self).state(),
                    final(self).state(),
                    o,
                    #[trigger] semantics::load_op(old(self).state(), o, Instruction::Cpx, mode),
                ),
    {
        self.load_op(Instruction::Cpx, mode);
    }

    fn cpy(&mut self, mode: Mode)
        requires
            reads(mode),
        ensures
            forall|o: Seq<Event>|
                ran(
                    old(self).state(),
                    final(self).state(),
                    o,
                    #[trigger] semantics::load_op(old(self).state(), o, Instruction::Cpy, mode),
                ),
    {
        self.load_op(Instruction::Cpy, mode);
    }

    fn eor(&mut self, mode: Mode)
        requires
            reads(mode),
        ensures
            forall|o: Seq<Event>|
                ran(
                    old(self).state(),
                    final(self).state(),
                    o,
                    #[trigger] semantics::load_op(old(self).state(), o, Instruction::Eor, mode),
                ),
    {
        self.load_op(Instruction::Eor, mode);
    }

    fn lda(&mut self, mode: Mode)
        requires
            reads(mode),
        ensures
            forall|o: Seq<Event>|
                ran(
                    old(self).state(),
                    final(self).state(),
                    o,
                    #[trigger] semantics::load_op(old(self).state(), o, Instruction::Lda, mode),
                ),
    {
        self.load_op(Instruction::Lda, mode);
    }

    fn ldx(&mut self, mode: Mode)
        requires
            reads(mode),
        ensures
            forall|o: Seq<Event>|
                ran(
                    old(self).state(),
                    final(self).state(),
                    o,
                    #[trigger] semantics::load_op(old(self).state(), o, Instruction::Ldx, mode),
                ),
    {
        self.load_op(Instruction::Ldx, mode);
    }

    fn ldy(&mut self, mode: Mode)
        requires
            reads(mode),
        ensures
            forall|o: Seq<Event>|
                ran(
                    old(self).state(),
                    final(self).state(),
                    o,
                    #[trigger] semantics::load_op(old(self).state(), o, Instruction::Ldy, mode),
                ),
    {
        self.load_op(Instruction::Ldy, mode);
    }

    fn ora(&mut self, mode: Mode)
        requires
            reads(mode),
        ensures
            forall|o: Seq<Event>|
                ran(
                    old(self).state(),
                    final(self).state(),
                    o,
                    #[trigger] semantics::load_op(old(self).state(), o, Instruction::Ora, mode),
                ),
    {
        self.load_op(Instruction::Ora, mode);
    }

    fn sbc(&mut self, mode: Mode)
        requires
            reads(mode),
        ensures
            forall|o: Seq<Event>|
                ran(
                    old(self).state(),
                    final(self).state(),
                    o,
                    #[trigger] semantics::load_op(old(self).state(), o, Instruction::Sbc, mode),
                ),
    {
        self.load_op(Instruction::Sbc, mode);
    }

    fn bit(&mut self, mode: Mode)
        requires
            is_memory(mode),
        ensures
            forall|o: Seq<Event>|
                ran(
                    old(self).state(),
                    final(self).state(),
                    o,
                    #[trigger] semantics::load_op(old(self).state(), o, Instruction::Bit, mode),
                ),
    {
        self.load_op(Instruction::Bit, mode);
    }

    fn asl(&mut self, mode: Mode)
        requires
            mode == Mode::Accumulator || mode is ZeroPage || mode is Absolute,
        ensures
            forall|o: Seq<Event>|
                ran(
                    old(self).state(),
                    final(self).state(),
                    o,
                    #[trigger] semantics::shift(old(self).state(), o, Instruction::Asl, mode),
                ),
    {
        self.read_modify_write(Instruction::Asl, mode);
    }

    fn lsr(&mut self, mode: Mode)
        requires
            mode == Mode::Accumulator || mode is ZeroPage || mode is Absolute,
        ensures
            forall|o: Seq<Event>|
                ran(
                    old(self).state(),
                    final(self).state(),
                    o,
                    #[trigger] semantics::shift(old(self).state(), o, Instruction::Lsr, mode),
                ),
    {
        self.read_modify_write(Instruction::Lsr, mode);
    }

    fn rol(&mut self, mode: Mode)
        requires
            mode == Mode::Accumulator || mode is ZeroPage || mode is Absolute,
        ensures
            forall|o: Seq<Event>|
                ran(
                    old(self).state(),
                    final(self).state(),
                    o,
                    #[trigger] semantics::shift(old(self).state(), o, Instruction::Rol, mode),
                ),
    {
        self.read_modify_write(Instruction::Rol, mode);
    }

    fn ror(&mut self, mode: Mode)
        requires
            mode == Mode::Accumulator || mode is ZeroPage || mode is Absolute,
        ensures
            forall|o: Seq<Event>|
                ran(
                    old(self).state(),
                    final(self).state(),
                    o,
                    #[trigger] semantics::shift(old(self).state(), o, Instruction::Ror, mode),
                ),
    {
        self.read_modify_write(Instruction::Ror, mode);
    }

    fn inc(&mut self, mode: Mode)
        requires
            mode is ZeroPage || mode is Absolute,
        ensures
            forall|o: Seq<Event>|
                ran(
                    old(self).state(),
                    final(self).state(),
                    o,
                    #[trigger] semantics::step_memory(old(self).state(), o, mode, true),
                ),
    {
        self.step_memory(mode, true);
    }

    fn dec(&mut self, mode: Mode)
        requires
            mode is ZeroPage || mode is Absolute,
        ensures
            forall|o: Seq<Event>|
                ran(
                    old(self).state(),
                    final(self).state(),
                    o,
                    #[trigger] semantics::step_memory(old(self).state(), o, mode, false),
                ),
    {
        self.step_memory(mode, false);
    }

    /// The address of a read-modify-write operand; `abs,X` always spends the
    /// page-crossing cycle.
    fn rmw_address(&mut self, mode: Mode) -> (r: u16)
        requires
            is_memory(mode),
        ensures
            forall|o: Seq<Event>|
                extends(o, final(self).trace()) ==> #[trigger] semantics::rmw_address(
                    old(self).state(),
                    o,
                    mode,
                ) == (final(self).state(), r) && extends(o, old(self).trace()),
    {
        let (addr, crossed) = self.get_address(mode);
        if mode == Mode::Absolute(Offset::X) && !crossed {
            self.clock_bus();
        }
        addr
    }

    /// The address of a store; indexed absolute and `(zp),Y` always spend the
    /// page-crossing cycle.
    fn store_address(&mut self, mode: Mode) -> (r: u16)
        requires
            is_memory(mode),
        ensures
            forall|o: Seq<Event>|
                extends(o, final(self).trace()) ==> #[trigger] semantics::store_address(
                    old(self).state(),
                    o,
                    mode,
                ) == (final(self).state(), r) && extends(o, old(self).trace()),
    {
        let (addr, crossed) = self.get_address(mode);
        let ghost mid = self.state();
        let indexed = match mode {
            Mode::Absolute(Offset::X) | Mode::Absolute(Offset::Y) | Mode::IndirectIndexed => true,
            _ => false,
        };
        if indexed && !crossed {
            self.clock_bus();
        }
        proof {
            assert forall|o: Seq<Event>| extends(o, self.trace()) implies semantics::store_address(
                old(self).state(),
                o,
                mode,
            ) == (self.state(), addr) && extends(o, old(self).trace()) by {
                if indexed && !crossed {
                    semantics::lemma_extends_trans(o, self.trace(), mid.1);
                } else {
                    assert(mid == self.state());
                }
                assert(semantics::effective(old(self).state(), o, mode) == (mid, addr, crossed));
            }
        }
        addr
    }

    /// Shifts or rotates the accumulator or a byte in memory.
    fn read_modify_write(&mut self, i: Instruction, mode: Mode)
        requires
            is_shift(i),
            mode == Mode::Accumulator || mode is ZeroPage || mode is Absolute,
        ensures
            forall|o: Seq<Event>|
                ran(
                    old(self).state(),
                    final(self).state(),
                    o,
                    #[trigger] semantics::shift(old(self).state(), o, i, mode),
                ),
    {
        let carry = self.status.carry();
        if mode == Mode::Accumulator {
            let (res, c) = shift_value(i, self.acc, carry);
            self.clock_bus();
            self.acc = res;
            self.status.set_carry(c);
            self.set_nz(res);
        } else {
            let addr = self.rmw_address(mode);
            let byte = self.read_bus(addr);
            let (res, c) = shift_value(i, byte, carry);
            self.clock_bus();
            self.write_bus(addr, res);
            self.status.set_carry(c);
            self.set_nz(res);
        }
    }

    /// INC or DEC: read, a cycle for the ALU, write back.
    fn step_memory(&mut self, mode: Mode, up: bool)
        requires
            mode is ZeroPage || mode is Absolute,
        ensures
            forall|o: Seq<Event>|
                ran(
                    old(self).state(),
                    final(self).state(),
                    o,
                    #[trigger] semantics::step_memory(old(self).state(), o, mode, up),
                ),
    {
        let addr = self.rmw_address(mode);
        let byte = self.read_bus(addr);
        let res = if up {
            byte.wrapping_add(1)
        } else {
            byte.wrapping_sub(1)
        };
        self.clock_bus();
        self.write_bus(addr, res);
        self.set_nz(res);
    }

    fn sta(&mut self, mode: Mode)
        requires
            is_memory(mode),
        ensures
            forall|o: Seq<Event>|
                ran(
                    old(self).state(),
                    final(self).state(),
                    o,
                    #[trigger] semantics::store(old(self).state(), o, Instruction::Sta, mode),
                ),
    {
        let addr = self.store_address(mode);
        self.write_bus(addr, self.acc);
    }

    fn stx(&mut self, mode: Mode)
        requires
            is_memory(mode),
        ensures
            forall|o: Seq<Event>|
                ran(
                    old(self).state(),
                    final(self).state(),
                    o,
                    #[trigger] semantics::store(old(self).state(), o, Instruction::Stx, mode),
                ),
    {
        let addr = self.store_address(mode);
        self.write_bus(addr, self.idx);
    }

    fn sty(&mut self, mode: Mode)
        requires
            is_memory(mode),
        ensures
            forall|o: Seq<Event>|
                ran(
                    old(self).state(),
                    final(self).state(),
                    o,
                    #[trigger] semantics::store(old(self).state(), o, Instruction::Sty, mode),
                ),
    {
        let addr = self.store_address(mode);
        self.write_bus(addr, self.idy);
    }

    fn clc(&mut self)
        ensures
            forall|o: Seq<Event>|
                ran(
                    old(self).state(),
                    final(self).state(),
                    o,
                    #[trigger] semantics::implied(old(self).state(), semantics::implied_regs(old(self).regs(), Instruction::Clc)),
                ),
    {
        self.clock_bus();
        self.status.set_carry(false);
    }

    fn cld(&mut self)
        ensures
            forall|o: Seq<Event>|
                ran(
                    old(self).state(),
                    final(self).state(),
                    o,
                    #[trigger] semantics::implied(old(self).state(), semantics::implied_regs(old(self).regs(), Instruction::Cld)),
                ),
    {
        self.clock_bus();
        self.status.set_decimal(false);
    }

    fn cli(&mut self)
        ensures
            forall|o: Seq<Event>|
                ran(
                    old(self).state(),
                    final(self).state(),
                    o,
                    #[trigger] semantics::implied(old(self).state(), semantics::implied_regs(old(self).regs(), Instruction::Cli)),
                ),
    {
        self.clock_bus();
        self.status.set_interrupt(false);
    }

    fn clv(&mut self)
        ensures
            forall|o: Seq<Event>|
                ran(
                    old(self).state(),
                    final(self).state(),
                    o,
                    #[trigger] semantics::implied(old(self).state(), semantics::implied_regs(old(self).regs(), Instruction::Clv)),
                ),
    {
        self.clock_bus();
        self.status.set_overflow(false);
    }

    fn sec(&mut self)
        ensures
            forall|o: Seq<Event>|
                ran(
                    old(self).state(),
                    final(self).state(),
                    o,
                    #[trigger] semantics::implied(old(self).state(), semantics::implied_regs(old(self).regs(), Instruction::Sec)),
                ),
    {
        self.clock_bus();
        self.status.set_carry(true);
    }

    fn sed(&mut self)
        ensures
            forall|o: Seq<Event>|
                ran(
                    old(self).state(),
                    final(self).state(),
                    o,
                    #[trigger] semantics::implied(old(self).state(), semantics::implied_regs(old(self).regs(), Instruction::Sed)),
                ),
    {
        self.clock_bus();
        self.status.set_decimal(true);
    }

    fn sei(&mut self)
        ensures
            forall|o: Seq<Event>|
                ran(
                    old(self).state(),
                    final(self).state(),
                    o,
                    #[trigger] semantics::implied(old(self).state(), semantics::implied_regs(old(self).regs(), Instruction::Sei)),
                ),
    {
        self.clock_bus();
        self.status.set_interrupt(true);
    }

    fn nop(&mut self)
        ensures
            forall|o: Seq<Event>|
                ran(
                    old(self).state(),
                    final(self).state(),
                    o,
                    #[trigger] semantics::implied(old(self).state(), semantics::implied_regs(old(self).regs(), Instruction::Nop)),
                ),
    {
        self.clock_bus();
    }

    fn dex(&mut self)
        ensures
            forall|o: Seq<Event>|
                ran(
                    old(self).state(),
                    final(self).state(),
                    o,
                    #[trigger] semantics::implied(old(self).state(), semantics::implied_regs(old(self).regs(), Instruction::Dex)),
                ),
    {
        self.clock_bus();
        self.idx = self.idx.wrapping_sub(1);
        self.set_nz(self.idx);
    }

    fn dey(&mut self)
        ensures
            forall|o: Seq<Event>|
                ran(
                    old(self).state(),
                    final(self).state(),
                    o,
                    #[trigger] semantics::implied(old(self).state(), semantics::implied_regs(old(self).regs(), Instruction::Dey)),
                ),
    {
        self.clock_bus();
        self.idy = self.idy.wrapping_sub(1);
        self.set_nz(self.idy);
    }

    fn inx(&mut self)
        ensures
            forall|o: Seq<Event>|
                ran(
                    old(self).state(),
                    final(self).state(),
                    o,
                    #[trigger] semantics::implied(old(self).state(), semantics::implied_regs(old(self).regs(), Instruction::Inx)),
                ),
    {
        self.clock_bus();
        self.idx = self.idx.wrapping_add(1);
        self.set_nz(self.idx);
    }

    fn iny(&mut self)
        ensures
            forall|o: Seq<Event>|
                ran(
                    old(self).state(),
                    final(self).state(),
                    o,
                    #[trigger] semantics::implied(old(self).state(), semantics::implied_regs(old(self).regs(), Instruction::Iny)),
                ),
    {
        self.clock_bus();
        self.idy = self.idy.wrapping_add(1);
        self.set_nz(self.idy);
    }

    fn tax(&mut self)
        ensures
            forall|o: Seq<Event>|
                ran(
                    old(self).state(),
                    final(self).state(),
                    o,
                    #[trigger] semantics::implied(old(self).state(), semantics::implied_regs(old(self).regs(), Instruction::Tax)),
                ),
    {
        self.clock_bus();
        self.idx = self.acc;
        self.set_nz(self.idx);
    }

    fn tay(&mut self)
        ensures
            forall|o: Seq<Event>|
                ran(
                    old(self).state(),
                    final(self).state(),
                    o,
                    #[trigger] semantics::implied(old(self).state(), semantics::implied_regs(old(self).regs(), Instruction::Tay)),
                ),
    {
        self.clock_bus();
        self.idy = self.acc;
        self.set_nz(self.idy);
    }

    fn tsx(&mut self)
        ensures
            forall|o: Seq<Event>|
                ran(
                    old(self).state(),
                    final(self).state(),
                    o,
                    #[trigger] semantics::implied(old(self).state(), semantics::implied_regs(old(self).regs(), Instruction::Tsx)),
                ),
    {
        self.clock_bus();
        self.idx = self.sp;
        self.set_nz(self.idx);
    }

    fn txa(&mut self)
        ensures
            forall|o: Seq<Event>|
                ran(
                    old(self).state(),
                    final(self).state(),
                    o,
                    #[trigger] semantics::implied(old(self).state(), semantics::implied_regs(old(self).regs(), Instruction::Txa)),
                ),
    {
        self.clock_bus();
        self.acc = self.idx;
        self.set_nz(self.acc);
    }

    fn txs(&mut self)
        ensures
            forall|o: Seq<Event>|
                ran(
                    old(self).state(),
                    final(self).state(),
                    o,
                    #[trigger] semantics::implied(old(self).state(), semantics::implied_regs(old(self).regs(), Instruction::Txs)),
                ),
    {
        self.clock_bus();
        self.sp = self.idx;
    }

    fn tya(&mut self)
        ensures
            forall|o: Seq<Event>|
                ran(
                    old(self).state(),
                    final(self).state(),
                    o,
                    #[trigger] semantics::implied(old(self).state(), semantics::implied_regs(old(self).regs(), Instruction::Tya)),
                ),
    {
        self.clock_bus();
        self.acc = self.idy;
        self.set_nz(self.acc);
    }

    fn bcc(&mut self)
        ensures
            forall|o: Seq<Event>|
                ran(
                    old(self).state(),
                    final(self).state(),
                    o,
                    #[trigger] semantics::branch(old(self).state(), o, semantics::branch_taken(Instruction::Bcc, old(self).regs().p)),
                ),
    {
        self.branch(!self.status.carry());
    }

    fn bcs(&mut self)
        ensures
            forall|o: Seq<Event>|
                ran(
                    old(self).state(),
                    final(self).state(),
                    o,
                    #[trigger] semantics::branch(old(self).state(), o, semantics::branch_taken(Instruction::Bcs, old(self).regs().p)),
                ),
    {
        self.branch(self.status.carry());
    }

    fn beq(&mut self)
        ensures
            forall|o: Seq<Event>|
                ran(
                    old(self).state(),
                    final(self).state(),
                    o,
                    #[trigger] semantics::branch(old(self).state(), o, semantics::branch_taken(Instruction::Beq, old(self).regs().p)),
                ),
    {
        self.branch(self.status.zero());
    }

    fn bne(&mut self)
        ensures
            forall|o: Seq<Event>|
                ran(
                    old(self).state(),
                    final(self).state(),
                    o,
                    #[trigger] semantics::branch(old(self).state(), o, semantics::branch_taken(Instruction::Bne, old(self).regs().p)),
                ),
    {
        self.branch(!self.status.zero());
    }

    fn bmi(&mut self)
        ensures
            forall|o: Seq<Event>|
                ran(
                    old(self).state(),
                    final(self).state(),
                    o,
                    #[trigger] semantics::branch(old(self).state(), o, semantics::branch_taken(Instruction::Bmi, old(self).regs().p)),
                ),
    {
        self.branch(self.status.negative());
    }

    fn bpl(&mut self)
        ensures
            forall|o: Seq<Event>|
                ran(
                    old(self).state(),
                    final(self).state(),
                    o,
                    #[trigger] semantics::branch(old(self).state(), o, semantics::branch_taken(Instruction::Bpl, old(self).regs().p)),
                ),
    {
        self.branch(!self.status.negative());
    }

    fn bvs(&mut self)
        ensures
            forall|o: Seq<Event>|
                ran(
                    old(self).state(),
                    final(self).state(),
                    o,
                    #[trigger] semantics::branch(old(self).state(), o, semantics::branch_taken(Instruction::Bvs, old(self).regs().p)),
                ),
    {
        self.branch(self.status.overflow());
    }

    fn bvc(&mut self)
        ensures
            forall|o: Seq<Event>|
                ran(
                    old(self).state(),
                    final(self).state(),
                    o,
                    #[trigger] semantics::branch(old(self).state(), o, semantics::branch_taken(Instruction::Bvc, old(self).regs().p)),
                ),
    {
        self.branch(!self.status.overflow());
    }

    /// Fetches the offset; when `taken`, a cycle, another when the target is
    /// on a different page, and the jump.
    fn branch(&mut self, taken: bool)
        ensures
            forall|o: Seq<Event>|
                ran(
                    old(self).state(),
                    final(self).state(),
                    o,
                    #[trigger] semantics::branch(old(self).state(), o, taken),
                ),
    {
        let offset = self.fetch();
        if taken {
            let target = if offset < 128 {
                self.pc.wrapping_add(offset as u16)
            } else {
                self.pc.wrapping_sub(256 - offset as u16)
            };
            self.clock_bus();
            if target / 256 != self.pc / 256 {
                self.clock_bus();
            }
            self.pc = target;
        }
    }

    fn jmp(&mut self, mode: Mode)
        ensures
            forall|o: Seq<Event>|
                ran(
                    old(self).state(),
                    final(self).state(),
                    o,
                    #[trigger] semantics::jmp(old(self).state(), o, mode),
                ),
    {
        let low = self.fetch();
        let high = self.fetch();
        let addr = addr_from_bytes(low, high);
        if mode == Mode::Indirect {
            let t_low = self.read_bus(addr);
            let t_high = self.read_bus(addr.wrapping_add(1));
            self.pc = addr_from_bytes(t_low, t_high);
        } else {
            self.pc = addr;
        }
    }

    /// Pushes the address of the operand's last byte, high first, and jumps.
    fn jsr(&mut self)
        ensures
            forall|o: Seq<Event>|
                ran(
                    old(self).state(),
                    final(self).state(),
                    o,
                    #[trigger] semantics::jsr(old(self).state(), o),
                ),
    {
        let adl = self.fetch();
        let adh = self.fetch();
        let (pcl, pch) = bytes_from_addr(self.pc.wrapping_sub(1));
        self.push_stack(pch);
        self.push_stack(pcl);
        self.clock_bus();
        self.pc = addr_from_bytes(adl, adh);
    }

    /// Pulls the return address and continues after it.
    fn rts(&mut self)
        ensures
            forall|o: Seq<Event>|
                ran(
                    old(self).state(),
                    final(self).state(),
                    o,
                    #[trigger] semantics::rts(old(self).state(), o),
                ),
    {
        let adl = self.pull_stack();
        let adh = self.pull_stack();
        self.clock_bus();
        self.pc = addr_from_bytes(adl, adh).wrapping_add(1);
    }

    /// Pulls P (keeping B), then PC low and high.
    fn rti(&mut self)
        ensures
            forall|o: Seq<Event>|
                ran(
                    old(self).state(),
                    final(self).state(),
                    o,
                    #[trigger] semantics::rti(old(self).state(), o),
                ),
    {
        self.clock_bus();
        let p = self.pull_stack();
        let brk = self.status.break_cmd();
        self.status.from_byte(p);
        self.status.set_break(brk);
        self.sp = self.sp.wrapping_add(1);
        let adl = self.read_bus(addr_from_bytes(self.sp, 0x01));
        self.sp = self.sp.wrapping_add(1);
        let adh = self.read_bus(addr_from_bytes(self.sp, 0x01));
        self.pc = addr_from_bytes(adl, adh);
    }

    /// Pushes `PC + 1` and P with B set, sets I, and jumps through 0xFFFE.
    fn brk(&mut self)
        ensures
            forall|o: Seq<Event>|
                ran(
                    old(self).state(),
                    final(self).state(),
                    o,
                    #[trigger] semantics::brk(old(self).state(), o),
                ),
    {
        self.clock_bus();
        let (pcl, pch) = bytes_from_addr(self.pc.wrapping_add(1));
        self.push_stack(pch);
        self.push_stack(pcl);
        let p = self.status.as_byte() | 0x10;
        self.push_stack(p);
        self.status.set_interrupt(true);
        let low = self.read_bus(0xfffe);
        let high = self.read_bus(0xffff);
        self.pc = addr_from_bytes(low, high);
    }

    fn pha(&mut self)
        ensures
            forall|o: Seq<Event>|
                ran(
                    old(self).state(),
                    final(self).state(),
                    o,
                    #[trigger] semantics::stack_op(old(self).state(), o, Instruction::Pha),
                ),
    {
        self.clock_bus();
        self.push_stack(self.acc);
    }

    fn php(&mut self)
        ensures
            forall|o: Seq<Event>|
                ran(
                    old(self).state(),
                    final(self).state(),
                    o,
                    #[trigger] semantics::stack_op(old(self).state(), o, Instruction::Php),
                ),
    {
        self.clock_bus();
        let p = self.status.as_byte();
        self.push_stack(p);
    }

    fn pla(&mut self)
        ensures
            forall|o: Seq<Event>|
                ran(
                    old(self).state(),
                    final(self).state(),
                    o,
                    #[trigger] semantics::stack_op(old(self).state(), o, Instruction::Pla),
                ),
    {
        self.clock_bus();
        self.acc = self.pull_stack();
        self.set_nz(self.acc);
    }

    fn plp(&mut self)
        ensures
            forall|o: Seq<Event>|
                ran(
                    old(self).state(),
                    final(self).state(),
                    o,
                    #[trigger] semantics::stack_op(old(self).state(), o, Instruction::Plp),
                ),
    {
        self.clock_bus();
        let byte = self.pull_stack();
        self.status.from_byte(byte);
    }

    /// Executes the instruction that `byte` encodes; an unknown opcode halts.
    pub(crate) fn decode(&mut self, byte: u8)
        ensures
            forall|o: Seq<Event>|
                ran(
                    old(self).state(),
                    final(self).state(),
                    o,
                    #[trigger] semantics::execute(old(self).state(), o, byte),
                ),
    {
        match byte {
            0x00 => self.brk(),
            0x01 => self.ora(Mode::IndexedIndirect),
            0x05 => self.ora(Mode::ZeroPage(Offset::NoIndex)),
            0x06 => self.asl(Mode::ZeroPage(Offset::NoIndex)),
            0x08 => self.php(),
            0x09 => self.ora(Mode::Immediate),
            0x0A => self.asl(Mode::Accumulator),
            0x0D => self.ora(Mode::Absolute(Offset::NoIndex)),
            0x0E => self.asl(Mode::Absolute(Offset::NoIndex)),
            0x10 => self.bpl(),
            0x11 => self.ora(Mode::IndirectIndexed),
            0x15 => self.ora(Mode::ZeroPage(Offset::X)),
            0x16 => self.asl(Mode::ZeroPage(Offset::X)),
            0x18 => self.clc(),
            0x19 => self.ora(Mode::Absolute(Offset::Y)),
            0x1D => self.ora(Mode::Absolute(Offset::X)),
            0x1E => self.asl(Mode::Absolute(Offset::X)),
            0x20 => self.jsr(),
            0x21 => self.and(Mode::IndexedIndirect),
            0x24 => self.bit(Mode::ZeroPage(Offset::NoIndex)),
            0x25 => self.and(Mode::ZeroPage(Offset::NoIndex)),
            0x26 => self.rol(Mode::ZeroPage(Offset::NoIndex)),
            0x28 => self.plp(),
            0x29 => self.and(Mode::Immediate),
            0x2A => self.rol(Mode::Accumulator),
            0x2C => self.bit(Mode::Absolute(Offset::NoIndex)),
            0x2D => self.and(Mode::Absolute(Offset::NoIndex)),
            0x2E => self.rol(Mode::Absolute(Offset::NoIndex)),
            0x30 => self.bmi(),
            0x31 => self.and(Mode::IndirectIndexed),
            0x35 => self.and(Mode::ZeroPage(Offset::X)),
            0x36 => self.rol(Mode::ZeroPage(Offset::X)),
            0x38 => self.sec(),
            0x39 => self.and(Mode::Absolute(Offset::Y)),
            0x3D => self.and(Mode::Absolute(Offset::X)),
            0x3E => self.rol(Mode::Absolute(Offset::X)),
            0x40 => self.rti(),
            0x41 => self.eor(Mode::IndexedIndirect),
            0x45 => self.eor(Mode::ZeroPage(Offset::NoIndex)),
            0x46 => self.lsr(Mode::ZeroPage(Offset::NoIndex)),
            0x48 => self.pha(),
            0x49 => self.eor(Mode::Immediate),
            0x4A => self.lsr(Mode::Accumulator),
            0x4C => self.jmp(Mode::Absolute(Offset::NoIndex)),
            0x4D => self.eor(Mode::Absolute(Offset::NoIndex)),
            0x4E => self.lsr(Mode::Absolute(Offset::NoIndex)),
            0x50 => self.bvc(),
            0x51 => self.eor(Mode::IndirectIndexed),
            0x55 => self.eor(Mode::ZeroPage(Offset::X)),
            0x56 => self.lsr(Mode::ZeroPage(Offset::X)),
            0x58 => self.cli(),
            0x59 => self.eor(Mode::Absolute(Offset::Y)),
            0x5D => self.eor(Mode::Absolute(Offset::X)),
            0x5E => self.lsr(Mode::Absolute(Offset::X)),
            0x60 => self.rts(),
            0x61 => self.adc(Mode::IndexedIndirect),
            0x65 => self.adc(Mode::ZeroPage(Offset::NoIndex)),
            0x66 => self.ror(Mode::ZeroPage(Offset::NoIndex)),
            0x68 => self.pla(),
            0x69 => self.adc(Mode::Immediate),
            0x6A => self.ror(Mode::Accumulator),
            0x6C => self.jmp(Mode::Indirect),
            0x6D => self.adc(Mode::Absolute(Offset::NoIndex)),
            0x6E => self.ror(Mode::Absolute(Offset::NoIndex)),
            0x70 => self.bvs(),
            0x71 => self.adc(Mode::IndirectIndexed),
            0x75 => self.adc(Mode::ZeroPage(Offset::X)),
            0x76 => self.ror(Mode::ZeroPage(Offset::X)),
            0x78 => self.sei(),
            0x79 => self.adc(Mode::Absolute(Offset::Y)),
            0x7D => self.adc(Mode::Absolute(Offset::X)),
            0x7E => self.ror(Mode::Absolute(Offset::X)),
            0x81 => self.sta(Mode::IndexedIndirect),
            0x84 => self.sty(Mode::ZeroPage(Offset::NoIndex)),
            0x85 => self.sta(Mode::ZeroPage(Offset::NoIndex)),
            0x86 => self.stx(Mode::ZeroPage(Offset::NoIndex)),
            0x88 => self.dey(),
            0x8A => self.txa(),
            0x8C => self.sty(Mode::Absolute(Offset::NoIndex)),
            0x8D => self.sta(Mode::Absolute(Offset::NoIndex)),
            0x8E => self.stx(Mode::Absolute(Offset::NoIndex)),
            0x90 => self.bcc(),
            0x91 => self.sta(Mode::IndirectIndexed),
            0x94 => self.sty(Mode::ZeroPage(Offset::X)),
            0x95 => self.sta(Mode::ZeroPage(Offset::X)),
            0x96 => self.stx(Mode::ZeroPage(Offset::Y)),
            0x98 => self.tya(),
            0x99 => self.sta(Mode::Absolute(Offset::Y)),
            0x9A => self.txs(),
            0x9D => self.sta(Mode::Absolute(Offset::X)),
            0xA0 => self.ldy(Mode::Immediate),
            0xA1 => self.lda(Mode::IndexedIndirect),
            0xA2 => self.ldx(Mode::Immediate),
            0xA4 => self.ldy(Mode::ZeroPage(Offset::NoIndex)),
            0xA5 => self.lda(Mode::ZeroPage(Offset::NoIndex)),
            0xA6 => self.ldx(Mode::ZeroPage(Offset::NoIndex)),
            0xA8 => self.tay(),
            0xA9 => self.lda(Mode::Immediate),
            0xAA => self.tax(),
            0xAC => self.ldy(Mode::Absolute(Offset::NoIndex)),
            0xAD => self.lda(Mode::Absolute(Offset::NoIndex)),
            0xAE => self.ldx(Mode::Absolute(Offset::NoIndex)),
            0xB0 => self.bcs(),
            0xB1 => self.lda(Mode::IndirectIndexed),
            0xB4 => self.ldy(Mode::ZeroPage(Offset::X)),
            0xB5 => self.lda(Mode::ZeroPage(Offset::X)),
            0xB6 => self.ldx(Mode::ZeroPage(Offset::Y)),
            0xB8 => self.clv(),
            0xB9 => self.lda(Mode::Absolute(Offset::Y)),
            0xBA => self.tsx(),
            0xBC => self.ldy(Mode::Absolute(Offset::X)),
            0xBD => self.lda(Mode::Absolute(Offset::X)),
            0xBE => self.ldx(Mode::Absolute(Offset::Y)),
            0xC0 => self.cpy(Mode::Immediate),
            0xC1 => self.cmp(Mode::IndexedIndirect),
            0xC4 => self.cpy(Mode::ZeroPage(Offset::NoIndex)),
            0xC5 => self.cmp(Mode::ZeroPage(Offset::NoIndex)),
            0xC6 => self.dec(Mode::ZeroPage(Offset::NoIndex)),
            0xC8 => self.iny(),
            0xC9 => self.cmp(Mode::Immediate),
            0xCA => self.dex(),
            0xCC => self.cpy(Mode::Absolute(Offset::NoIndex)),
            0xCD => self.cmp(Mode::Absolute(Offset::NoIndex)),
            0xCE => self.dec(Mode::Absolute(Offset::NoIndex)),
            0xD0 => self.bne(),
            0xD1 => self.cmp(Mode::IndirectIndexed),
            0xD5 => self.cmp(Mode::ZeroPage(Offset::X)),
            0xD6 => self.dec(Mode::ZeroPage(Offset::X)),
            0xD8 => self.cld(),
            0xD9 => self.cmp(Mode::Absolute(Offset::Y)),
            0xDD => self.cmp(Mode::Absolute(Offset::X)),
            0xDE => self.dec(Mode::Absolute(Offset::X)),
            0xE0 => self.cpx(Mode::Immediate),
            0xE1 => self.sbc(Mode::IndexedIndirect),
            0xE4 => self.cpx(Mode::ZeroPage(Offset::NoIndex)),
            0xE5 => self.sbc(Mode::ZeroPage(Offset::NoIndex)),
            0xE6 => self.inc(Mode::ZeroPage(Offset::NoIndex)),
            0xE8 => self.inx(),
            0xE9 => self.sbc(Mode::Immediate),
            0xEA => self.nop(),
            0xEC => self.cpx(Mode::Absolute(Offset::NoIndex)),
            0xED => self.sbc(Mode::Absolute(Offset::NoIndex)),
            0xEE => self.inc(Mode::Absolute(Offset::NoIndex)),
            0xF0 => self.beq(),
            0xF1 => self.sbc(Mode::IndirectIndexed),
            0xF5 => self.sbc(Mode::ZeroPage(Offset::X)),
            0xF6 => self.inc(Mode::ZeroPage(Offset::X)),
            0xF8 => self.sed(),
            0xF9 => self.sbc(Mode::Absolute(Offset::Y)),
            0xFD => self.sbc(Mode::Absolute(Offset::X)),
            0xFE => self.inc(Mode::Absolute(Offset::X)),
            _ => self.halted = true,
        }
    }

    /// Fetches one opcode and executes it, with all of its bus cycles.
    ///
    /// The registers after the step and the bus events it appends to the
    /// trace are exactly what the instruction semantics give, fed the values
    /// that the bus returned to the step's reads.
    pub fn step(&mut self)
        ensures
            extends(final(self).trace(), old(self).trace()),
            semantics::step(old(self).state(), final(self).trace()) == final(self).state(),
            forall|o: Seq<Event>|
                ran(
                    old(self).state(),
                    final(self).state(),
                    o,
                    #[trigger] semantics::step(old(self).state(), o),
                ),
    {
        let byte = self.fetch();
        let ghost mid = self.state();
        self.decode(byte);
        proof {
            assert forall|o: Seq<Event>| extends(o, self.trace()) implies semantics::step(
                old(self).state(),
                o,
            ) == self.state() && extends(o, old(self).trace()) by {
                assert(ran(mid, self.state(), o, semantics::execute(mid, o, byte)));
            }
            semantics::lemma_extends_refl(self.trace());
        }
    }

    /// Steps until the core halts (giving up only after `u64::MAX` steps).
    pub fn run(&mut self)
        ensures
            extends(final(self).trace(), old(self).trace()),
            exists|n: nat|
                #[trigger] semantics::steps(old(self).state(), final(self).trace(), n)
                    == final(self).state() && (final(self).regs().halted || n == u64::MAX),
    {
        let mut budget: u64 = u64::MAX;
        let ghost start = self.state();
        while !self.halted && budget > 0
            invariant
                extends(self.trace(), start.1),
                forall|o: Seq<Event>|
                    extends(o, self.trace()) ==> #[trigger] semantics::steps(
                        start,
                        o,
                        (u64::MAX - budget) as nat,
                    ) == self.state(),
            decreases budget,
        {
            let ghost before = self.state();
            self.step();
            proof {
                let n = (u64::MAX - budget) as nat;
                assert forall|o: Seq<Event>| extends(o, self.trace()) implies #[trigger] semantics::steps(
                    start,
                    o,
                    n + 1,
                ) == self.state() by {
                    semantics::lemma_extends_trans(o, self.trace(), before.1);
                    semantics::lemma_steps_last(start, o, n);
                }
            }
            budget = budget - 1;
        }
        proof {
            assert(semantics::steps(start, self.trace(), (u64::MAX - budget) as nat) == self.state());
        }
    }
}

/// The low and high bytes of an address.
fn bytes_from_addr(addr: u16) -> (r: (u8, u8))
    ensures
        r == ((addr % 256) as u8, (addr / 256) as u8),
{
    ((addr % 256) as u8, (addr / 256) as u8)
}

/// Signed overflow of `acc + value` giving `result`.
fn check_overflow(acc: u8, value: u8, result: u8) -> (r: bool)
    ensures
        r == semantics::overflow(acc, value, result),
{
    ((acc ^ value) & 0x80 == 0) && ((acc ^ result) & 0x80 != 0)
}

} // verus!
