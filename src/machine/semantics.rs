//! The instruction semantics, as spec functions over a machine state and the
//! trace of bus events that the core produces.
//!
//! A state pairs the registers with every bus event so far. The bus is opaque:
//! what a read returns is taken from the oracle `o`, the trace the core is
//! actually seen to produce, at the position the read occupies. So a core
//! meets these semantics when, fed the values its bus returned, they predict
//! its whole trace and its final registers.
use vstd::prelude::*;

use crate::cpu::addressing::{Mode, Offset};
use crate::machine::flags::Flags;

verus! {

/// One interaction of the core with its bus.
#[derive(Debug, Clone, Copy, PartialEq, Eq, Structural)]
pub enum Event {
    /// `read(addr)` returned the byte.
    Read(u16, u8),
    /// `write(addr, byte)`.
    Write(u16, u8),
    /// `on_clock()`.
    Tick,
}

/// The architectural registers of the core.
#[derive(Debug, Clone, Copy)]
pub struct Regs {
    pub a: u8,
    pub x: u8,
    pub y: u8,
    pub sp: u8,
    pub pc: u16,
    pub p: Flags,
    pub halted: bool,
}

/// The instruction families of the legal opcode set.
#[derive(Debug, Clone, Copy, PartialEq, Eq, Structural)]
pub enum Instruction {
    Adc, And, Asl, Bcc, Bcs, Beq, Bit, Bmi, Bne, Bpl, Brk, Bvc, Bvs, Clc, Cld, Cli, Clv, Cmp,
    Cpx, Cpy, Dec, Dex, Dey, Eor, Inc, Inx, Iny, Jmp, Jsr, Lda, Ldx, Ldy, Lsr, Nop, Ora, Pha,
    Php, Pla, Plp, Rol, Ror, Rti, Rts, Sbc, Sec, Sed, Sei, Sta, Stx, Sty, Tax, Tay, Tsx, Txa,
    Txs, Tya,
}

pub type State = (Regs, Seq<Event>);

/// `o` begins with `t`.
pub open spec fn extends(o: Seq<Event>, t: Seq<Event>) -> bool {
    &&& t.len() <= o.len()
    &&& forall|i: int| 0 <= i < t.len() ==> #[trigger] o[i] == t[i]
}

/// The value of the read at position `i` of the oracle.
pub open spec fn value_at(o: Seq<Event>, i: int) -> u8 {
    if 0 <= i < o.len() {
        match o[i] {
            Event::Read(_, v) => v,
            _ => 0,
        }
    } else {
        0
    }
}

/// `v` modulo 256.
pub open spec fn wrap8(v: int) -> u8 {
    (v % 256) as u8
}

/// `v` modulo 65536.
pub open spec fn wrap16(v: int) -> u16 {
    (v % 65536) as u16
}

/// The address `high:low`.
pub open spec fn word(low: u8, high: u8) -> u16 {
    (high * 256 + low) as u16
}

/// The address of stack slot `sp`.
pub open spec fn stack_addr(sp: u8) -> u16 {
    (0x0100 + sp) as u16
}

/// A branch offset, sign-extended.
pub open spec fn signed(b: u8) -> int {
    if b < 128 {
        b as int
    } else {
        b - 256
    }
}

pub open spec fn with_regs(s: State, r: Regs) -> State {
    (r, s.1)
}

/// A dead cycle.
pub open spec fn tick(s: State) -> State {
    (s.0, s.1.push(Event::Tick))
}

/// A bus read followed by its cycle.
pub open spec fn read(s: State, o: Seq<Event>, addr: u16) -> (State, u8) {
    let v = value_at(o, s.1.len() as int);
    ((s.0, s.1.push(Event::Read(addr, v)).push(Event::Tick)), v)
}

/// A bus write followed by its cycle.
pub open spec fn write(s: State, addr: u16, v: u8) -> State {
    (s.0, s.1.push(Event::Write(addr, v)).push(Event::Tick))
}

/// Reads the byte at `PC` and advances `PC`.
pub open spec fn fetch(s: State, o: Seq<Event>) -> (State, u8) {
    let (t, v) = read(s, o, s.0.pc);
    (with_regs(t, Regs { pc: wrap16(s.0.pc + 1), ..t.0 }), v)
}

/// Writes `v` to the stack slot and moves `SP` down.
pub open spec fn push(s: State, v: u8) -> State {
    let t = write(s, stack_addr(s.0.sp), v);
    with_regs(t, Regs { sp: wrap8(s.0.sp - 1), ..t.0 })
}

/// Moves `SP` up, spends a dead cycle, and reads the stack slot.
pub open spec fn pull(s: State, o: Seq<Event>) -> (State, u8) {
    let sp = wrap8(s.0.sp + 1);
    read(tick(with_regs(s, Regs { sp, ..s.0 })), o, stack_addr(sp))
}

/// Sets N to bit 7 of `v` and Z to whether `v` is zero.
pub open spec fn nz(p: Flags, v: u8) -> Flags {
    Flags { negative: v & 0x80 != 0, zero: v == 0, ..p }
}

/// The zero-page address of the operand, and the state after its fetch.
pub open spec fn zero_page(s: State, o: Seq<Event>, off: Offset) -> (State, u16) {
    let (t, lo) = fetch(s, o);
    match off {
        Offset::NoIndex => (t, lo as u16),
        Offset::X => (tick(t), wrap8(lo + s.0.x) as u16),
        Offset::Y => (tick(t), wrap8(lo + s.0.y) as u16),
    }
}

/// The index that an offset adds.
pub open spec fn index(r: Regs, off: Offset) -> u8 {
    match off {
        Offset::NoIndex => 0,
        Offset::X => r.x,
        Offset::Y => r.y,
    }
}

/// An absolute address plus index, with the page-crossing cycle.
pub open spec fn absolute(s: State, o: Seq<Event>, off: Offset) -> (State, u16, bool) {
    let (t1, lo) = fetch(s, o);
    let (t2, hi) = fetch(t1, o);
    let i = index(s.0, off);
    let crossed = lo + i > 255;
    (if crossed {
        tick(t2)
    } else {
        t2
    }, wrap16(word(lo, hi) + i), crossed)
}

/// `(zp,X)`: the address stored at zero-page `operand + X`.
pub open spec fn indexed_indirect(s: State, o: Seq<Event>) -> (State, u16) {
    let (t1, b) = fetch(s, o);
    let ptr = wrap8(b + s.0.x);
    let (t2, lo) = read(t1, o, ptr as u16);
    let (t3, hi) = read(t2, o, wrap8(ptr + 1) as u16);
    (tick(t3), word(lo, hi))
}

/// `(zp),Y`: the address stored at zero-page `operand`, plus Y.
pub open spec fn indirect_indexed(s: State, o: Seq<Event>) -> (State, u16, bool) {
    let (t1, ptr) = fetch(s, o);
    let (t2, lo) = read(t1, o, ptr as u16);
    let (t3, hi) = read(t2, o, wrap8(ptr + 1) as u16);
    let crossed = lo + s.0.y > 255;
    (if crossed {
        tick(t3)
    } else {
        t3
    }, wrap16(word(lo, hi) + s.0.y), crossed)
}

/// The effective address of a memory mode, and whether a page was crossed.
pub open spec fn effective(s: State, o: Seq<Event>, mode: Mode) -> (State, u16, bool) {
    match mode {
        Mode::ZeroPage(off) => {
            let (t, a) = zero_page(s, o, off);
            (t, a, false)
        },
        Mode::Absolute(off) => absolute(s, o, off),
        Mode::IndexedIndirect => {
            let (t, a) = indexed_indirect(s, o);
            (t, a, false)
        },
        Mode::IndirectIndexed => indirect_indexed(s, o),
        _ => (s, 0, false),
    }
}

/// The modes that address memory.
pub open spec fn is_memory(mode: Mode) -> bool {
    match mode {
        Mode::ZeroPage(_) | Mode::Absolute(_) | Mode::IndexedIndirect | Mode::IndirectIndexed => true,
        _ => false,
    }
}

/// The operand byte of a reading instruction.
pub open spec fn operand(s: State, o: Seq<Event>, mode: Mode) -> (State, u8) {
    if mode == Mode::Immediate {
        fetch(s, o)
    } else {
        let (t, addr, _) = effective(s, o, mode);
        read(t, o, addr)
    }
}

/// The address of a read-modify-write operand: `abs,X` always spends the
/// page-crossing cycle.
pub open spec fn rmw_address(s: State, o: Seq<Event>, mode: Mode) -> (State, u16) {
    let (t, addr, crossed) = effective(s, o, mode);
    if mode == Mode::Absolute(Offset::X) && !crossed {
        (tick(t), addr)
    } else {
        (t, addr)
    }
}

/// The address of a store: indexed absolute and `(zp),Y` always spend the
/// page-crossing cycle.
pub open spec fn store_address(s: State, o: Seq<Event>, mode: Mode) -> (State, u16) {
    let (t, addr, crossed) = effective(s, o, mode);
    let indexed = match mode {
        Mode::Absolute(Offset::X) | Mode::Absolute(Offset::Y) | Mode::IndirectIndexed => true,
        _ => false,
    };
    if indexed && !crossed {
        (tick(t), addr)
    } else {
        (t, addr)
    }
}

/// `A + v + C` with carry out and two's-complement overflow.
pub open spec fn add_with_carry(r: Regs, v: u8) -> Regs {
    let sum = r.a + v + bit_of(r.p.carry);
    let res = wrap8(sum);
    Regs {
        a: res,
        p: Flags { carry: sum > 255, overflow: overflow(r.a, v, res), ..nz(r.p, res) },
        ..r
    }
}

pub open spec fn bit_of(b: bool) -> int {
    if b {
        1
    } else {
        0
    }
}

/// Signed overflow of `a + b` giving `r`: the operands agree in sign and the
/// result does not.
pub open spec fn overflow(a: u8, b: u8, r: u8) -> bool {
    ((a ^ b) & 0x80 == 0) && ((a ^ r) & 0x80 != 0)
}

/// Flags after comparing `reg` with `v`.
pub open spec fn compare(p: Flags, reg: u8, v: u8) -> Flags {
    Flags { carry: reg >= v, ..nz(p, wrap8(reg - v)) }
}

/// A shift or rotate of `v` with carry in `c`: the result and the carry out.
pub open spec fn shifted(i: Instruction, v: u8, c: bool) -> (u8, bool) {
    match i {
        Instruction::Asl => (wrap8(2 * v), v >= 128),
        Instruction::Lsr => ((v / 2) as u8, v % 2 == 1),
        Instruction::Rol => (wrap8(2 * v + bit_of(c)), v >= 128),
        _ => ((v / 2 + 128 * bit_of(c)) as u8, v % 2 == 1),
    }
}

/// ASL, LSR, ROL or ROR, on the accumulator or in memory.
pub open spec fn shift(s: State, o: Seq<Event>, i: Instruction, mode: Mode) -> State {
    if mode == Mode::Accumulator {
        let (res, c) = shifted(i, s.0.a, s.0.p.carry);
        let t = tick(s);
        with_regs(t, Regs { a: res, p: Flags { carry: c, ..nz(s.0.p, res) }, ..t.0 })
    } else {
        let (t1, addr) = rmw_address(s, o, mode);
        let (t2, v) = read(t1, o, addr);
        let (res, c) = shifted(i, v, s.0.p.carry);
        let t3 = write(tick(t2), addr, res);
        with_regs(t3, Regs { p: Flags { carry: c, ..nz(s.0.p, res) }, ..t3.0 })
    }
}

/// INC or DEC in memory.
pub open spec fn step_memory(s: State, o: Seq<Event>, mode: Mode, up: bool) -> State {
    let (t1, addr) = rmw_address(s, o, mode);
    let (t2, v) = read(t1, o, addr);
    let res = if up {
        wrap8(v + 1)
    } else {
        wrap8(v - 1)
    };
    let t3 = write(tick(t2), addr, res);
    with_regs(t3, Regs { p: nz(s.0.p, res), ..t3.0 })
}

/// A register-only instruction: one dead cycle, then the new registers.
pub open spec fn implied(s: State, r: Regs) -> State {
    with_regs(tick(s), r)
}

/// Whether a conditional branch is taken.
pub open spec fn branch_taken(i: Instruction, p: Flags) -> bool {
    match i {
        Instruction::Bcc => !p.carry,
        Instruction::Bcs => p.carry,
        Instruction::Beq => p.zero,
        Instruction::Bne => !p.zero,
        Instruction::Bmi => p.negative,
        Instruction::Bpl => !p.negative,
        Instruction::Bvs => p.overflow,
        _ => !p.overflow,
    }
}

/// A conditional branch: a cycle when taken, one more when the target lies
/// on another page.
pub open spec fn branch(s: State, o: Seq<Event>, taken: bool) -> State {
    let (t, off) = fetch(s, o);
    if taken {
        let target = wrap16(t.0.pc + signed(off));
        let t2 = tick(t);
        let t3 = if target / 256 != t.0.pc / 256 {
            tick(t2)
        } else {
            t2
        };
        with_regs(t3, Regs { pc: target, ..t3.0 })
    } else {
        t
    }
}

pub open spec fn jmp(s: State, o: Seq<Event>, mode: Mode) -> State {
    let (t1, lo) = fetch(s, o);
    let (t2, hi) = fetch(t1, o);
    if mode == Mode::Indirect {
        let ptr = word(lo, hi);
        let (t3, tl) = read(t2, o, ptr);
        let (t4, th) = read(t3, o, wrap16(ptr + 1));
        with_regs(t4, Regs { pc: word(tl, th), ..t4.0 })
    } else {
        with_regs(t2, Regs { pc: word(lo, hi), ..t2.0 })
    }
}

/// JSR pushes the address of its own last byte, high byte first.
pub open spec fn jsr(s: State, o: Seq<Event>) -> State {
    let (t1, lo) = fetch(s, o);
    let (t2, hi) = fetch(t1, o);
    let ret = wrap16(t2.0.pc - 1);
    let t3 = push(t2, (ret / 256) as u8);
    let t4 = push(t3, (ret % 256) as u8);
    let t5 = tick(t4);
    with_regs(t5, Regs { pc: word(lo, hi), ..t5.0 })
}

pub open spec fn rts(s: State, o: Seq<Event>) -> State {
    let (t1, lo) = pull(s, o);
    let (t2, hi) = pull(t1, o);
    let t3 = tick(t2);
    with_regs(t3, Regs { pc: wrap16(word(lo, hi) + 1), ..t3.0 })
}

/// RTI: a dead cycle for the dummy read, then P (keeping B), PC low and PC
/// high from the stack; the stack-pointer increment costs one cycle for the
/// whole sequence.
pub open spec fn rti(s: State, o: Seq<Event>) -> State {
    let (t1, p) = pull(tick(s), o);
    let sp1 = wrap8(t1.0.sp + 1);
    let (t2, lo) = read(t1, o, stack_addr(sp1));
    let sp2 = wrap8(sp1 + 1);
    let (t3, hi) = read(t2, o, stack_addr(sp2));
    let flags = Flags { break_command: s.0.p.break_command, ..Flags::of_byte(p) };
    with_regs(t3, Regs { sp: sp2, pc: word(lo, hi), p: flags, ..t3.0 })
}

/// BRK: a cycle for the padding byte, then pushes `PC + 1` and P with B set, sets I,
/// and jumps through the vector at 0xFFFE.
pub open spec fn brk(s: State, o: Seq<Event>) -> State {
    let ret = wrap16(s.0.pc + 1);
    let t1 = push(push(tick(s), (ret / 256) as u8), (ret % 256) as u8);
    let t2 = push(t1, (s.0.p.byte() | 0x10) as u8);
    let t3 = with_regs(t2, Regs { p: Flags { interrupt_disable: true, ..t2.0.p }, ..t2.0 });
    let (t4, lo) = read(t3, o, 0xFFFE);
    let (t5, hi) = read(t4, o, 0xFFFF);
    with_regs(t5, Regs { pc: word(lo, hi), ..t5.0 })
}

/// The register that a store writes.
pub open spec fn stored(r: Regs, i: Instruction) -> u8 {
    match i {
        Instruction::Sta => r.a,
        Instruction::Stx => r.x,
        _ => r.y,
    }
}

pub open spec fn store(s: State, o: Seq<Event>, i: Instruction, mode: Mode) -> State {
    let (t, addr) = store_address(s, o, mode);
    write(t, addr, stored(s.0, i))
}

/// A reading instruction: fetches its operand, then computes new registers.
pub open spec fn load_op(s: State, o: Seq<Event>, i: Instruction, mode: Mode) -> State {
    let (t, v) = operand(s, o, mode);
    with_regs(t, with_operand(t.0, i, v))
}

/// The registers after a reading instruction with operand `v`.
pub open spec fn with_operand(r: Regs, i: Instruction, v: u8) -> Regs {
    match i {
        Instruction::Lda => Regs { a: v, p: nz(r.p, v), ..r },
        Instruction::Ldx => Regs { x: v, p: nz(r.p, v), ..r },
        Instruction::Ldy => Regs { y: v, p: nz(r.p, v), ..r },
        Instruction::And => Regs { a: r.a & v, p: nz(r.p, r.a & v), ..r },
        Instruction::Ora => Regs { a: r.a | v, p: nz(r.p, r.a | v), ..r },
        Instruction::Eor => Regs { a: r.a ^ v, p: nz(r.p, r.a ^ v), ..r },
        Instruction::Adc => add_with_carry(r, v),
        Instruction::Sbc => add_with_carry(r, (255 - v) as u8),
        Instruction::Cmp => Regs { p: compare(r.p, r.a, v), ..r },
        Instruction::Cpx => Regs { p: compare(r.p, r.x, v), ..r },
        Instruction::Cpy => Regs { p: compare(r.p, r.y, v), ..r },
        _ => Regs {
            p: Flags {
                zero: v & r.a == 0,
                negative: v & 0x80 != 0,
                overflow: v & 0x40 != 0,
                ..r.p
            },
            ..r
        },
    }
}

/// The registers after a register-only instruction (its cycle aside).
pub open spec fn implied_regs(r: Regs, i: Instruction) -> Regs {
    match i {
        Instruction::Clc => Regs { p: Flags { carry: false, ..r.p }, ..r },
        Instruction::Sec => Regs { p: Flags { carry: true, ..r.p }, ..r },
        Instruction::Cld => Regs { p: Flags { decimal_mode: false, ..r.p }, ..r },
        Instruction::Sed => Regs { p: Flags { decimal_mode: true, ..r.p }, ..r },
        Instruction::Cli => Regs { p: Flags { interrupt_disable: false, ..r.p }, ..r },
        Instruction::Sei => Regs { p: Flags { interrupt_disable: true, ..r.p }, ..r },
        Instruction::Clv => Regs { p: Flags { overflow: false, ..r.p }, ..r },
        Instruction::Tax => Regs { x: r.a, p: nz(r.p, r.a), ..r },
        Instruction::Tay => Regs { y: r.a, p: nz(r.p, r.a), ..r },
        Instruction::Txa => Regs { a: r.x, p: nz(r.p, r.x), ..r },
        Instruction::Tya => Regs { a: r.y, p: nz(r.p, r.y), ..r },
        Instruction::Tsx => Regs { x: r.sp, p: nz(r.p, r.sp), ..r },
        Instruction::Txs => Regs { sp: r.x, ..r },
        Instruction::Inx => Regs { x: wrap8(r.x + 1), p: nz(r.p, wrap8(r.x + 1)), ..r },
        Instruction::Iny => Regs { y: wrap8(r.y + 1), p: nz(r.p, wrap8(r.y + 1)), ..r },
        Instruction::Dex => Regs { x: wrap8(r.x - 1), p: nz(r.p, wrap8(r.x - 1)), ..r },
        Instruction::Dey => Regs { y: wrap8(r.y - 1), p: nz(r.p, wrap8(r.y - 1)), ..r },
        _ => r,
    }
}

/// PHA, PHP, PLA, PLP: a dead cycle, then the push or pull.
pub open spec fn stack_op(s: State, o: Seq<Event>, i: Instruction) -> State {
    let t = tick(s);
    match i {
        Instruction::Pha => push(t, s.0.a),
        Instruction::Php => push(t, s.0.p.byte()),
        Instruction::Pla => {
            let (u, v) = pull(t, o);
            with_regs(u, Regs { a: v, p: nz(u.0.p, v), ..u.0 })
        },
        _ => {
            let (u, v) = pull(t, o);
            with_regs(u, Regs { p: Flags::of_byte(v), ..u.0 })
        },
    }
}

/// What an instruction does, after its opcode has been fetched.
pub open spec fn instruction(s: State, o: Seq<Event>, i: Instruction, mode: Mode) -> State {
    match i {
        Instruction::Lda | Instruction::Ldx | Instruction::Ldy | Instruction::And
        | Instruction::Ora | Instruction::Eor | Instruction::Adc | Instruction::Sbc
        | Instruction::Cmp | Instruction::Cpx | Instruction::Cpy | Instruction::Bit => load_op(
            s,
            o,
            i,
            mode,
        ),
        Instruction::Sta | Instruction::Stx | Instruction::Sty => store(s, o, i, mode),
        Instruction::Asl | Instruction::Lsr | Instruction::Rol | Instruction::Ror => shift(
            s,
            o,
            i,
            mode,
        ),
        Instruction::Inc => step_memory(s, o, mode, true),
        Instruction::Dec => step_memory(s, o, mode, false),
        Instruction::Bcc | Instruction::Bcs | Instruction::Beq | Instruction::Bne
        | Instruction::Bmi | Instruction::Bpl | Instruction::Bvc | Instruction::Bvs => branch(
            s,
            o,
            branch_taken(i, s.0.p),
        ),
        Instruction::Jmp => jmp(s, o, mode),
        Instruction::Jsr => jsr(s, o),
        Instruction::Rts => rts(s, o),
        Instruction::Rti => rti(s, o),
        Instruction::Brk => brk(s, o),
        Instruction::Pha | Instruction::Php | Instruction::Pla | Instruction::Plp => stack_op(
            s,
            o,
            i,
        ),
        _ => implied(s, implied_regs(s.0, i)),
    }
}

/// After the opcode fetch: the decoded instruction, or a halt.
pub open spec fn execute(s: State, o: Seq<Event>, op: u8) -> State {
    match opcode(op) {
        Some((i, mode)) => instruction(s, o, i, mode),
        None => with_regs(s, Regs { halted: true, ..s.0 }),
    }
}

/// One step: fetch an opcode and execute it.
pub open spec fn step(s: State, o: Seq<Event>) -> State {
    let (t, op) = fetch(s, o);
    execute(t, o, op)
}

/// Reset: A, X and Y cleared, `SP = 0xFF`, PC from the vector at 0xFFFC
/// (two reads, no cycles), not halted.
pub open spec fn reset(s: State, o: Seq<Event>) -> State {
    let lo = value_at(o, s.1.len() as int);
    let hi = value_at(o, s.1.len() + 1int);
    (
        Regs { a: 0, x: 0, y: 0, sp: 0xFF, pc: word(lo, hi), halted: false, ..s.0 },
        s.1.push(Event::Read(0xFFFC, lo)).push(Event::Read(0xFFFD, hi)),
    )
}

/// A newly built core: all flags clear, then reset; `o` supplies the two
/// vector bytes.
pub open spec fn power_on(o: Seq<Event>) -> State {
    let cleared = Regs {
        a: 0,
        x: 0,
        y: 0,
        sp: 0,
        pc: 0,
        p: Flags::cleared(),
        halted: true,
    };
    reset((cleared, Seq::empty()), o)
}

/// `n` steps in a row, stopping early at a halt.
pub open spec fn steps(s: State, o: Seq<Event>, n: nat) -> State
    decreases n,
{
    if n == 0 || s.0.halted {
        s
    } else {
        steps(step(s, o), o, (n - 1) as nat)
    }
}

/// The opcode table of the legal NMOS 6502 instruction set.
pub open spec fn opcode(op: u8) -> Option<(Instruction, Mode)> {
    let zp = Mode::ZeroPage(Offset::NoIndex);
    let zpx = Mode::ZeroPage(Offset::X);
    let zpy = Mode::ZeroPage(Offset::Y);
    let abs = Mode::Absolute(Offset::NoIndex);
    let absx = Mode::Absolute(Offset::X);
    let absy = Mode::Absolute(Offset::Y);
    let imm = Mode::Immediate;
    let izx = Mode::IndexedIndirect;
    let izy = Mode::IndirectIndexed;
    let acc = Mode::Accumulator;
    let imp = Mode::Implied;
    let rel = Mode::Relative;
    match op {
        0x00 => Some((Instruction::Brk, imp)),
        0x01 => Some((Instruction::Ora, izx)),
        0x05 => Some((Instruction::Ora, zp)),
        0x06 => Some((Instruction::Asl, zp)),
        0x08 => Some((Instruction::Php, imp)),
        0x09 => Some((Instruction::Ora, imm)),
        0x0A => Some((Instruction::Asl, acc)),
        0x0D => Some((Instruction::Ora, abs)),
        0x0E => Some((Instruction::Asl, abs)),
        0x10 => Some((Instruction::Bpl, rel)),
        0x11 => Some((Instruction::Ora, izy)),
        0x15 => Some((Instruction::Ora, zpx)),
        0x16 => Some((Instruction::Asl, zpx)),
        0x18 => Some((Instruction::Clc, imp)),
        0x19 => Some((Instruction::Ora, absy)),
        0x1D => Some((Instruction::Ora, absx)),
        0x1E => Some((Instruction::Asl, absx)),
        0x20 => Some((Instruction::Jsr, abs)),
        0x21 => Some((Instruction::And, izx)),
        0x24 => Some((Instruction::Bit, zp)),
        0x25 => Some((Instruction::And, zp)),
        0x26 => Some((Instruction::Rol, zp)),
        0x28 => Some((Instruction::Plp, imp)),
        0x29 => Some((Instruction::And, imm)),
        0x2A => Some((Instruction::Rol, acc)),
        0x2C => Some((Instruction::Bit, abs)),
        0x2D => Some((Instruction::And, abs)),
        0x2E => Some((Instruction::Rol, abs)),
        0x30 => Some((Instruction::Bmi, rel)),
        0x31 => Some((Instruction::And, izy)),
        0x35 => Some((Instruction::And, zpx)),
        0x36 => Some((Instruction::Rol, zpx)),
        0x38 => Some((Instruction::Sec, imp)),
        0x39 => Some((Instruction::And, absy)),
        0x3D => Some((Instruction::And, absx)),
        0x3E => Some((Instruction::Rol, absx)),
        0x40 => Some((Instruction::Rti, imp)),
        0x41 => Some((Instruction::Eor, izx)),
        0x45 => Some((Instruction::Eor, zp)),
        0x46 => Some((Instruction::Lsr, zp)),
        0x48 => Some((Instruction::Pha, imp)),
        0x49 => Some((Instruction::Eor, imm)),
        0x4A => Some((Instruction::Lsr, acc)),
        0x4C => Some((Instruction::Jmp, abs)),
        0x4D => Some((Instruction::Eor, abs)),
        0x4E => Some((Instruction::Lsr, abs)),
        0x50 => Some((Instruction::Bvc, rel)),
        0x51 => Some((Instruction::Eor, izy)),
        0x55 => Some((Instruction::Eor, zpx)),
        0x56 => Some((Instruction::Lsr, zpx)),
        0x58 => Some((Instruction::Cli, imp)),
        0x59 => Some((Instruction::Eor, absy)),
        0x5D => Some((Instruction::Eor, absx)),
        0x5E => Some((Instruction::Lsr, absx)),
        0x60 => Some((Instruction::Rts, imp)),
        0x61 => Some((Instruction::Adc, izx)),
        0x65 => Some((Instruction::Adc, zp)),
        0x66 => Some((Instruction::Ror, zp)),
        0x68 => Some((Instruction::Pla, imp)),
        0x69 => Some((Instruction::Adc, imm)),
        0x6A => Some((Instruction::Ror, acc)),
        0x6C => Some((Instruction::Jmp, Mode::Indirect)),
        0x6D => Some((Instruction::Adc, abs)),
        0x6E => Some((Instruction::Ror, abs)),
        0x70 => Some((Instruction::Bvs, rel)),
        0x71 => Some((Instruction::Adc, izy)),
        0x75 => Some((Instruction::Adc, zpx)),
        0x76 => Some((Instruction::Ror, zpx)),
        0x78 => Some((Instruction::Sei, imp)),
        0x79 => Some((Instruction::Adc, absy)),
        0x7D => Some((Instruction::Adc, absx)),
        0x7E => Some((Instruction::Ror, absx)),
        0x81 => Some((Instruction::Sta, izx)),
        0x84 => Some((Instruction::Sty, zp)),
        0x85 => Some((Instruction::Sta, zp)),
        0x86 => Some((Instruction::Stx, zp)),
        0x88 => Some((Instruction::Dey, imp)),
        0x8A => Some((Instruction::Txa, imp)),
        0x8C => Some((Instruction::Sty, abs)),
        0x8D => Some((Instruction::Sta, abs)),
        0x8E => Some((Instruction::Stx, abs)),
        0x90 => Some((Instruction::Bcc, rel)),
        0x91 => Some((Instruction::Sta, izy)),
        0x94 => Some((Instruction::Sty, zpx)),
        0x95 => Some((Instruction::Sta, zpx)),
        0x96 => Some((Instruction::Stx, zpy)),
        0x98 => Some((Instruction::Tya, imp)),
        0x99 => Some((Instruction::Sta, absy)),
        0x9A => Some((Instruction::Txs, imp)),
        0x9D => Some((Instruction::Sta, absx)),
        0xA0 => Some((Instruction::Ldy, imm)),
        0xA1 => Some((Instruction::Lda, izx)),
        0xA2 => Some((Instruction::Ldx, imm)),
        0xA4 => Some((Instruction::Ldy, zp)),
        0xA5 => Some((Instruction::Lda, zp)),
        0xA6 => Some((Instruction::Ldx, zp)),
        0xA8 => Some((Instruction::Tay, imp)),
        0xA9 => Some((Instruction::Lda, imm)),
        0xAA => Some((Instruction::Tax, imp)),
        0xAC => Some((Instruction::Ldy, abs)),
        0xAD => Some((Instruction::Lda, abs)),
        0xAE => Some((Instruction::Ldx, abs)),
        0xB0 => Some((Instruction::Bcs, rel)),
        0xB1 => Some((Instruction::Lda, izy)),
        0xB4 => Some((Instruction::Ldy, zpx)),
        0xB5 => Some((Instruction::Lda, zpx)),
        0xB6 => Some((Instruction::Ldx, zpy)),
        0xB8 => Some((Instruction::Clv, imp)),
        0xB9 => Some((Instruction::Lda, absy)),
        0xBA => Some((Instruction::Tsx, imp)),
        0xBC => Some((Instruction::Ldy, absx)),
        0xBD => Some((Instruction::Lda, absx)),
        0xBE => Some((Instruction::Ldx, absy)),
        0xC0 => Some((Instruction::Cpy, imm)),
        0xC1 => Some((Instruction::Cmp, izx)),
        0xC4 => Some((Instruction::Cpy, zp)),
        0xC5 => Some((Instruction::Cmp, zp)),
        0xC6 => Some((Instruction::Dec, zp)),
        0xC8 => Some((Instruction::Iny, imp)),
        0xC9 => Some((Instruction::Cmp, imm)),
        0xCA => Some((Instruction::Dex, imp)),
        0xCC => Some((Instruction::Cpy, abs)),
        0xCD => Some((Instruction::Cmp, abs)),
        0xCE => Some((Instruction::Dec, abs)),
        0xD0 => Some((Instruction::Bne, rel)),
        0xD1 => Some((Instruction::Cmp, izy)),
        0xD5 => Some((Instruction::Cmp, zpx)),
        0xD6 => Some((Instruction::Dec, zpx)),
        0xD8 => Some((Instruction::Cld, imp)),
        0xD9 => Some((Instruction::Cmp, absy)),
        0xDD => Some((Instruction::Cmp, absx)),
        0xDE => Some((Instruction::Dec, absx)),
        0xE0 => Some((Instruction::Cpx, imm)),
        0xE1 => Some((Instruction::Sbc, izx)),
        0xE4 => Some((Instruction::Cpx, zp)),
        0xE5 => Some((Instruction::Sbc, zp)),
        0xE6 => Some((Instruction::Inc, zp)),
        0xE8 => Some((Instruction::Inx, imp)),
        0xE9 => Some((Instruction::Sbc, imm)),
        0xEA => Some((Instruction::Nop, imp)),
        0xEC => Some((Instruction::Cpx, abs)),
        0xED => Some((Instruction::Sbc, abs)),
        0xEE => Some((Instruction::Inc, abs)),
        0xF0 => Some((Instruction::Beq, rel)),
        0xF1 => Some((Instruction::Sbc, izy)),
        0xF5 => Some((Instruction::Sbc, zpx)),
        0xF6 => Some((Instruction::Inc, zpx)),
        0xF8 => Some((Instruction::Sed, imp)),
        0xF9 => Some((Instruction::Sbc, absy)),
        0xFD => Some((Instruction::Sbc, absx)),
        0xFE => Some((Instruction::Inc, absx)),
        _ => None,
    }
}

/// A trace that extends `t` by `read` gives back the value it read.
pub proof fn lemma_read_value(o: Seq<Event>, t: Seq<Event>, addr: u16, v: u8)
    requires
        extends(o, t.push(Event::Read(addr, v)).push(Event::Tick)),
    ensures
        value_at(o, t.len() as int) == v,
{
    let u = t.push(Event::Read(addr, v)).push(Event::Tick);
    assert(o[t.len() as int] == u[t.len() as int]);
}

/// Every trace extends itself.
pub proof fn lemma_extends_refl(t: Seq<Event>)
    ensures
        extends(t, t),
{
}

/// `n + 1` steps are `n` steps and then one more, unless halted.
pub proof fn lemma_steps_last(s: State, o: Seq<Event>, n: nat)
    ensures
        steps(s, o, n + 1) == if steps(s, o, n).0.halted {
            steps(s, o, n)
        } else {
            step(steps(s, o, n), o)
        },
    decreases n,
{
    reveal_with_fuel(steps, 2);
    if n > 0 && !s.0.halted {
        lemma_steps_last(step(s, o), o, (n - 1) as nat);
    }
}

/// Extension is transitive.
pub proof fn lemma_extends_trans(a: Seq<Event>, b: Seq<Event>, c: Seq<Event>)
    requires
        extends(a, b),
        extends(b, c),
    ensures
        extends(a, c),
{
    assert forall|i: int| 0 <= i < c.len() implies #[trigger] a[i] == c[i] by {
        assert(a[i] == b[i]);
    }
}

} // verus!
