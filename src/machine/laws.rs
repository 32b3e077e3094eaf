//! Properties of the instruction semantics that hold for every input.
use vstd::prelude::*;

use crate::cpu::addressing::{Mode, Offset};
use crate::machine::flags::Flags;
use crate::machine::semantics::{
    add_with_carry, branch_taken, fetch, instruction, is_memory, opcode, pull, push, shifted,
    signed, stack_addr, step, value_at, with_operand, wrap16, wrap8, Event, Instruction, Regs,
    State,
};

verus! {

/// A trace in which every read of an address returns the byte most recently
/// written there, if any was: what a bus that is plain memory produces.
pub open spec fn reads_back(t: Seq<Event>) -> bool {
    forall|j: int, k: int|
        #![trigger t[j], t[k]]
        0 <= k < j < t.len() && t[j] is Read && t[k] is Write && t[j]->Read_0 == t[k]->Write_0
            && (forall|m: int|
            k < m < j ==> !(#[trigger] t[m] is Write && t[m]->Write_0 == t[j]->Read_0))
            ==> t[j]->Read_1 == t[k]->Write_1
}

/// The number of cycles in a trace.
pub open spec fn ticks(t: Seq<Event>) -> nat
    decreases t.len(),
{
    if t.len() == 0 {
        0
    } else {
        ticks(t.drop_last()) + if t.last() == Event::Tick {
            1nat
        } else {
            0nat
        }
    }
}

/// Appending an event adds a cycle exactly when the event is a tick.
pub broadcast proof fn lemma_ticks_push(t: Seq<Event>, e: Event)
    ensures
        #[trigger] ticks(t.push(e)) == ticks(t) + if e == Event::Tick {
            1nat
        } else {
            0nat
        },
{
    assert(t.push(e).drop_last() =~= t);
}

/// The documented cycle count of each legal instruction and mode, opcode
/// fetch included, before any penalty.
pub open spec fn base_cycles(i: Instruction, mode: Mode) -> nat {
    match i {
        Instruction::Brk => 7,
        Instruction::Jsr | Instruction::Rts | Instruction::Rti => 6,
        Instruction::Pha | Instruction::Php => 3,
        Instruction::Pla | Instruction::Plp => 4,
        Instruction::Jmp => if mode == Mode::Indirect {
            5
        } else {
            3
        },
        Instruction::Sta | Instruction::Stx | Instruction::Sty => match mode {
            Mode::ZeroPage(Offset::NoIndex) => 3,
            Mode::ZeroPage(_) => 4,
            Mode::Absolute(Offset::NoIndex) => 4,
            Mode::Absolute(_) => 5,
            _ => 6,
        },
        Instruction::Asl | Instruction::Lsr | Instruction::Rol | Instruction::Ror
        | Instruction::Inc | Instruction::Dec => match mode {
            Mode::Accumulator => 2,
            Mode::ZeroPage(Offset::NoIndex) => 5,
            Mode::ZeroPage(_) => 6,
            Mode::Absolute(Offset::NoIndex) => 6,
            _ => 7,
        },
        Instruction::Lda | Instruction::Ldx | Instruction::Ldy | Instruction::And
        | Instruction::Ora | Instruction::Eor | Instruction::Adc | Instruction::Sbc
        | Instruction::Cmp | Instruction::Cpx | Instruction::Cpy | Instruction::Bit => match mode {
            Mode::Immediate => 2,
            Mode::ZeroPage(Offset::NoIndex) => 3,
            Mode::ZeroPage(_) => 4,
            Mode::Absolute(_) => 4,
            Mode::IndexedIndirect => 6,
            _ => 5,
        },
        _ => 2,
    }
}

/// The documented extra cycles, from the state `t` after the opcode fetch:
/// one when a reading `abs,X`, `abs,Y` or `(zp),Y` crosses a page; for a
/// branch, one when taken and one more when the target is on another page.
pub open spec fn penalty(t: State, o: Seq<Event>, i: Instruction, mode: Mode) -> nat {
    let m = t.1.len() as int;
    let reading = match i {
        Instruction::Lda | Instruction::Ldx | Instruction::Ldy | Instruction::And
        | Instruction::Ora | Instruction::Eor | Instruction::Adc | Instruction::Sbc
        | Instruction::Cmp | Instruction::Cpx | Instruction::Cpy => true,
        _ => false,
    };
    let branching = match i {
        Instruction::Bcc | Instruction::Bcs | Instruction::Beq | Instruction::Bne
        | Instruction::Bmi | Instruction::Bpl | Instruction::Bvc | Instruction::Bvs => true,
        _ => false,
    };
    if reading && mode == Mode::Absolute(Offset::X) {
        if value_at(o, m) + t.0.x > 255 { 1 } else { 0 }
    } else if reading && mode == Mode::Absolute(Offset::Y) {
        if value_at(o, m) + t.0.y > 255 { 1 } else { 0 }
    } else if reading && mode == Mode::IndirectIndexed {
        if value_at(o, m + 2) + t.0.y > 255 { 1 } else { 0 }
    } else if branching && branch_taken(i, t.0.p) {
        let next = wrap16(t.0.pc + 1);
        let target = wrap16(next + signed(value_at(o, m)));
        if target / 256 != next / 256 { 2 } else { 1 }
    } else {
        0
    }
}

/// Every legal opcode takes its documented number of cycles: the base count
/// of its instruction and mode, plus the page-crossing and branch penalties.
pub proof fn lemma_cycle_count(s: State, o: Seq<Event>)
    requires
        opcode(value_at(o, s.1.len() as int)) is Some,
    ensures
        ({
            let (t, op) = fetch(s, o);
            let (i, mode) = opcode(op)->Some_0;
            ticks(step(s, o).1) == ticks(s.1) + base_cycles(i, mode) + penalty(t, o, i, mode)
        }),
{
    broadcast use lemma_ticks_push;
    let (t, op) = fetch(s, o);
    let (i, mode) = opcode(op)->Some_0;
    lemma_instruction_cycles(t, o, op);
}

/// The modes that the opcode table pairs with each instruction.
pub open spec fn legal(i: Instruction, mode: Mode) -> bool {
    match i {
        Instruction::Lda | Instruction::Ldx | Instruction::Ldy | Instruction::And
        | Instruction::Ora | Instruction::Eor | Instruction::Adc | Instruction::Sbc
        | Instruction::Cmp | Instruction::Cpx | Instruction::Cpy => mode == Mode::Immediate
            || is_memory(mode),
        Instruction::Bit => mode == Mode::ZeroPage(Offset::NoIndex) || mode == Mode::Absolute(
            Offset::NoIndex,
        ),
        Instruction::Sta | Instruction::Stx | Instruction::Sty => is_memory(mode),
        Instruction::Asl | Instruction::Lsr | Instruction::Rol | Instruction::Ror => mode
            == Mode::Accumulator || mode is ZeroPage || mode == Mode::Absolute(Offset::NoIndex)
            || mode == Mode::Absolute(Offset::X),
        Instruction::Inc | Instruction::Dec => mode is ZeroPage || mode == Mode::Absolute(
            Offset::NoIndex,
        ) || mode == Mode::Absolute(Offset::X),
        Instruction::Jmp => mode == Mode::Indirect || mode == Mode::Absolute(Offset::NoIndex),
        _ => true,
    }
}

/// Each entry of the opcode table pairs an instruction with a legal mode.
#[verifier::rlimit(50)]
pub proof fn lemma_table_legal(op: u8)
    ensures
        opcode(op) matches Some((i, mode)) ==> legal(i, mode),
{
}

/// The cycles of an instruction after its opcode fetch.
proof fn lemma_instruction_cycles(t: State, o: Seq<Event>, op: u8)
    requires
        opcode(op) is Some,
    ensures
        ({
            let (i, mode) = opcode(op)->Some_0;
            ticks(instruction(t, o, i, mode).1) + 1 == ticks(t.1) + base_cycles(i, mode) + penalty(
                t,
                o,
                i,
                mode,
            )
        }),
{
    lemma_table_legal(op);
    let (i, mode) = opcode(op)->Some_0;
    lemma_family_cycles(t, o, i, mode);
}

proof fn lemma_family_cycles(t: State, o: Seq<Event>, i: Instruction, mode: Mode)
    requires
        legal(i, mode),
    ensures
        ticks(instruction(t, o, i, mode).1) + 1 == ticks(t.1) + base_cycles(i, mode) + penalty(
            t,
            o,
            i,
            mode,
        ),
{
    broadcast use lemma_ticks_push;
    match i {
        Instruction::Lda | Instruction::Ldx | Instruction::Ldy | Instruction::And
        | Instruction::Ora | Instruction::Eor | Instruction::Adc | Instruction::Sbc
        | Instruction::Cmp | Instruction::Cpx | Instruction::Cpy | Instruction::Bit => {
            lemma_load_cycles(t, o, i, mode);
        },
        Instruction::Sta | Instruction::Stx | Instruction::Sty => {
            lemma_store_cycles(t, o, i, mode);
        },
        Instruction::Asl | Instruction::Lsr | Instruction::Rol | Instruction::Ror
        | Instruction::Inc | Instruction::Dec => {
            lemma_rmw_cycles(t, o, i, mode);
        },
        Instruction::Bcc | Instruction::Bcs | Instruction::Beq | Instruction::Bne
        | Instruction::Bmi | Instruction::Bpl | Instruction::Bvc | Instruction::Bvs => {
            lemma_branch_cycles(t, o, i);
        },
        _ => {
            lemma_control_cycles(t, o, i, mode);
        },
    }
}

proof fn lemma_load_cycles(t: State, o: Seq<Event>, i: Instruction, mode: Mode)
    requires
        i == Instruction::Lda || i == Instruction::Ldx || i == Instruction::Ldy || i
            == Instruction::And || i == Instruction::Ora || i == Instruction::Eor || i
            == Instruction::Adc || i == Instruction::Sbc || i == Instruction::Cmp || i
            == Instruction::Cpx || i == Instruction::Cpy || i == Instruction::Bit,
        legal(i, mode),
    ensures
        ticks(instruction(t, o, i, mode).1) + 1 == ticks(t.1) + base_cycles(i, mode) + penalty(
            t,
            o,
            i,
            mode,
        ),
{
    broadcast use lemma_ticks_push;
    match mode {
        Mode::Immediate => {},
        Mode::ZeroPage(_) => {},
        Mode::Absolute(Offset::NoIndex) => {},
        Mode::Absolute(Offset::X) => {},
        Mode::Absolute(Offset::Y) => {},
        Mode::IndexedIndirect => {},
        _ => {},
    }
}

proof fn lemma_store_cycles(t: State, o: Seq<Event>, i: Instruction, mode: Mode)
    requires
        i == Instruction::Sta || i == Instruction::Stx || i == Instruction::Sty,
        legal(i, mode),
    ensures
        ticks(instruction(t, o, i, mode).1) + 1 == ticks(t.1) + base_cycles(i, mode) + penalty(
            t,
            o,
            i,
            mode,
        ),
{
    broadcast use lemma_ticks_push;
}

proof fn lemma_rmw_cycles(t: State, o: Seq<Event>, i: Instruction, mode: Mode)
    requires
        i == Instruction::Asl || i == Instruction::Lsr || i == Instruction::Rol || i
            == Instruction::Ror || i == Instruction::Inc || i == Instruction::Dec,
        legal(i, mode),
    ensures
        ticks(instruction(t, o, i, mode).1) + 1 == ticks(t.1) + base_cycles(i, mode) + penalty(
            t,
            o,
            i,
            mode,
        ),
{
    broadcast use lemma_ticks_push;
}

proof fn lemma_branch_cycles(t: State, o: Seq<Event>, i: Instruction)
    requires
        i == Instruction::Bcc || i == Instruction::Bcs || i == Instruction::Beq || i
            == Instruction::Bne || i == Instruction::Bmi || i == Instruction::Bpl || i
            == Instruction::Bvc || i == Instruction::Bvs,
    ensures
        ticks(instruction(t, o, i, Mode::Relative).1) + 1 == ticks(t.1) + base_cycles(
            i,
            Mode::Relative,
        ) + penalty(t, o, i, Mode::Relative),
{
    broadcast use lemma_ticks_push;
}

proof fn lemma_control_cycles(t: State, o: Seq<Event>, i: Instruction, mode: Mode)
    requires
        legal(i, mode),
        !(i == Instruction::Lda || i == Instruction::Ldx || i == Instruction::Ldy || i
            == Instruction::And || i == Instruction::Ora || i == Instruction::Eor || i
            == Instruction::Adc || i == Instruction::Sbc || i == Instruction::Cmp || i
            == Instruction::Cpx || i == Instruction::Cpy || i == Instruction::Bit || i
            == Instruction::Sta || i == Instruction::Stx || i == Instruction::Sty || i
            == Instruction::Asl || i == Instruction::Lsr || i == Instruction::Rol || i
            == Instruction::Ror || i == Instruction::Inc || i == Instruction::Dec || i
            == Instruction::Bcc || i == Instruction::Bcs || i == Instruction::Beq || i
            == Instruction::Bne || i == Instruction::Bmi || i == Instruction::Bpl || i
            == Instruction::Bvc || i == Instruction::Bvs),
    ensures
        ticks(instruction(t, o, i, mode).1) + 1 == ticks(t.1) + base_cycles(i, mode) + penalty(
            t,
            o,
            i,
            mode,
        ),
{
    broadcast use lemma_ticks_push;
}

/// The value whose N and Z an instruction reports, read off the state `u`
/// after it and the state `t` before it (after the opcode fetch): the
/// register it loads or computes, the byte a read-modify-write stores, or
/// for a compare the difference of the register and the operand it read.
pub open spec fn nz_destination(t: State, u: State, i: Instruction, mode: Mode) -> Option<u8> {
    let written = u.1[u.1.len() - 2]->Write_1;
    let operand = u.1[u.1.len() - 2]->Read_1;
    match i {
        Instruction::Lda | Instruction::And | Instruction::Ora | Instruction::Eor
        | Instruction::Adc | Instruction::Sbc | Instruction::Pla | Instruction::Txa
        | Instruction::Tya => Some(u.0.a),
        Instruction::Ldx | Instruction::Tax | Instruction::Tsx | Instruction::Inx
        | Instruction::Dex => Some(u.0.x),
        Instruction::Ldy | Instruction::Tay | Instruction::Iny | Instruction::Dey => Some(u.0.y),
        Instruction::Asl | Instruction::Lsr | Instruction::Rol | Instruction::Ror => if mode
            == Mode::Accumulator {
            Some(u.0.a)
        } else {
            Some(written)
        },
        Instruction::Inc | Instruction::Dec => Some(written),
        Instruction::Cmp => Some(wrap8(t.0.a - operand)),
        Instruction::Cpx => Some(wrap8(t.0.x - operand)),
        Instruction::Cpy => Some(wrap8(t.0.y - operand)),
        _ => None,
    }
}

/// After every legal instruction that updates N and Z, N is bit 7 of its
/// destination and Z is set exactly when the destination is zero.
pub proof fn lemma_nz_update(s: State, o: Seq<Event>)
    requires
        opcode(value_at(o, s.1.len() as int)) is Some,
    ensures
        ({
            let (t, op) = fetch(s, o);
            let (i, mode) = opcode(op)->Some_0;
            let u = step(s, o);
            nz_destination(t, u, i, mode) matches Some(d) ==> u.0.p.negative == (d & 0x80 != 0)
                && u.0.p.zero == (d == 0)
        }),
{
    let (t, op) = fetch(s, o);
    lemma_table_legal(op);
    let (i, mode) = opcode(op)->Some_0;
    lemma_family_nz(t, o, i, mode);
}

proof fn lemma_family_nz(t: State, o: Seq<Event>, i: Instruction, mode: Mode)
    requires
        legal(i, mode),
    ensures
        ({
            let u = instruction(t, o, i, mode);
            nz_destination(t, u, i, mode) matches Some(d) ==> u.0.p.negative == (d & 0x80 != 0)
                && u.0.p.zero == (d == 0)
        }),
{
    match i {
        Instruction::Lda | Instruction::Ldx | Instruction::Ldy | Instruction::And | Instruction::Ora | Instruction::Eor | Instruction::Adc | Instruction::Sbc | Instruction::Cmp | Instruction::Cpx | Instruction::Cpy | Instruction::Bit => lemma_load_nz(t, o, i, mode),
        Instruction::Asl | Instruction::Lsr | Instruction::Rol | Instruction::Ror | Instruction::Inc | Instruction::Dec => lemma_rmw_nz(t, o, i, mode),
        Instruction::Pha | Instruction::Php | Instruction::Pla | Instruction::Plp => lemma_stack_nz(t, o, i, mode),
        _ => {},
    }
}

proof fn lemma_load_nz(t: State, o: Seq<Event>, i: Instruction, mode: Mode)
    requires
        i == Instruction::Lda || i == Instruction::Ldx || i == Instruction::Ldy || i == Instruction::And || i == Instruction::Ora || i == Instruction::Eor || i == Instruction::Adc || i == Instruction::Sbc || i == Instruction::Cmp || i == Instruction::Cpx || i == Instruction::Cpy || i == Instruction::Bit,
        legal(i, mode),
    ensures
        ({
            let u = instruction(t, o, i, mode);
            nz_destination(t, u, i, mode) matches Some(d) ==> u.0.p.negative == (d & 0x80 != 0)
                && u.0.p.zero == (d == 0)
        }),
{
    match mode {
        Mode::Immediate => {},
        Mode::ZeroPage(_) => {},
        Mode::Absolute(_) => {},
        _ => {},
    }
}

proof fn lemma_rmw_nz(t: State, o: Seq<Event>, i: Instruction, mode: Mode)
    requires
        i == Instruction::Asl || i == Instruction::Lsr || i == Instruction::Rol || i == Instruction::Ror || i == Instruction::Inc || i == Instruction::Dec,
        legal(i, mode),
    ensures
        ({
            let u = instruction(t, o, i, mode);
            nz_destination(t, u, i, mode) matches Some(d) ==> u.0.p.negative == (d & 0x80 != 0)
                && u.0.p.zero == (d == 0)
        }),
{
}

proof fn lemma_stack_nz(t: State, o: Seq<Event>, i: Instruction, mode: Mode)
    requires
        i == Instruction::Pha || i == Instruction::Php || i == Instruction::Pla || i == Instruction::Plp,
        legal(i, mode),
    ensures
        ({
            let u = instruction(t, o, i, mode);
            nz_destination(t, u, i, mode) matches Some(d) ==> u.0.p.negative == (d & 0x80 != 0)
                && u.0.p.zero == (d == 0)
        }),
{
}

/// Every stack slot lies in page one, whatever SP holds.
pub proof fn lemma_stack_page(sp: u8)
    ensures
        0x0100 <= stack_addr(sp) <= 0x01FF,
{
}

/// A pull right after a push reads the slot the push wrote, restores SP, and
/// on a bus that reads back what was written returns the pushed byte.
pub proof fn lemma_push_pull(s: State, o: Seq<Event>, b: u8)
    ensures
        ({
            let t = push(s, b);
            let (u, v) = pull(t, o);
            &&& u.0 == (Regs { sp: s.0.sp, ..s.0 })
            &&& u.1[s.1.len() as int] == Event::Write(stack_addr(s.0.sp), b)
            &&& u.1[s.1.len() + 3int] == Event::Read(stack_addr(s.0.sp), v)
            &&& reads_back(u.1) ==> v == b
        }),
{
    let t = push(s, b);
    let (u, v) = pull(t, o);
    let n = s.1.len() as int;
    assert((s.0.sp - 1 + 256) % 256 + 1 == s.0.sp || (s.0.sp == 0 && (s.0.sp - 1 + 256) % 256 == 255));
    assert(u.1[n] == Event::Write(stack_addr(s.0.sp), b));
    assert(u.1[n + 3] == Event::Read(stack_addr(s.0.sp), v));
    if reads_back(u.1) {
        assert forall|m: int| n < m < n + 3 implies !(#[trigger] u.1[m] is Write && u.1[m]->Write_0
            == u.1[n + 3]->Read_0) by {
            assert(u.1[m] == Event::Tick);
        }
        assert(u.1[n + 3]->Read_1 == u.1[n]->Write_1);
    }
}

/// ADC of `v` followed by SBC of `v`, with the carry into the SBC the
/// complement of the carry into the ADC, gives back A.
pub proof fn lemma_adc_sbc_round_trip(r: Regs, v: u8)
    ensures
        ({
            let r1 = with_operand(r, Instruction::Adc, v);
            let r2 = with_operand(
                Regs { p: Flags { carry: !r.p.carry, ..r1.p }, ..r1 },
                Instruction::Sbc,
                v,
            );
            r2.a == r.a
        }),
{
    let r1 = add_with_carry(r, v);
    let q = Regs { p: Flags { carry: !r.p.carry, ..r1.p }, ..r1 };
    let r2 = add_with_carry(q, (255 - v) as u8);
    assert(r2.a == r.a);
}

/// ASL then LSR gives back a byte with bit 7 clear; ROL then ROR gives back
/// any byte and the carry.
pub proof fn lemma_shift_round_trip(v: u8, c: bool)
    ensures
        v < 128 ==> shifted(Instruction::Lsr, shifted(Instruction::Asl, v, c).0, c).0 == v,
        ({
            let (r, c1) = shifted(Instruction::Rol, v, c);
            shifted(Instruction::Ror, r, c1) == (v, c)
        }),
{
}

/// An unknown opcode halts the core and leaves A, X, Y, SP and P as they
/// were; only the opcode fetch has happened.
pub proof fn lemma_unknown_opcode(s: State, o: Seq<Event>)
    requires
        opcode(value_at(o, s.1.len() as int)) is None,
    ensures
        step(s, o).0 == (Regs { pc: wrap16(s.0.pc + 1), halted: true, ..s.0 }),
        step(s, o).1 == s.1.push(Event::Read(s.0.pc, value_at(o, s.1.len() as int))).push(
            Event::Tick,
        ),
{
}

} // verus!
