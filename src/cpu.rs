//! A reduced core that knows only the loads (LDA, LDX, LDY), LSR and NOP;
//! every other opcode halts it. It shares the main core's routines.
use vstd::prelude::*;

pub mod addressing;

use crate::error::CoreError;
use crate::machine;
use crate::machine::semantics::{self, extends, Event, Instruction, Regs, State};
use crate::traits::Bus;

verus! {

/// Whether the reduced core knows opcode `op`.
pub open spec fn known(op: u8) -> bool {
    match semantics::opcode(op) {
        Some((i, _)) => i == Instruction::Lda || i == Instruction::Ldx || i == Instruction::Ldy
            || i == Instruction::Lsr || i == Instruction::Nop,
        None => false,
    }
}

/// One step of the reduced core: known opcodes execute as on the full core,
/// the rest halt.
pub open spec fn step(s: State, o: Seq<Event>) -> State {
    let (t, op) = semantics::fetch(s, o);
    if known(op) {
        semantics::execute(t, o, op)
    } else {
        semantics::with_regs(t, Regs { halted: true, ..t.0 })
    }
}

/// `n` steps of the reduced core in a row, stopping early at a halt.
pub open spec fn steps(s: State, o: Seq<Event>, n: nat) -> State
    decreases n,
{
    if n == 0 || s.0.halted {
        s
    } else {
        steps(step(s, o), o, (n - 1) as nat)
    }
}

/// `n + 1` steps are `n` steps and then one more, unless halted.
pub proof fn lemma_steps_last(s: State, o: Seq<Event>, n: nat)
    ensures
        steps(s, o, n + 1) == if steps(s, o, n).0.halted {
            steps(s, o, n)
        } else {
            step(steps(s, o, n), o)
        },
    decreases n,
{
    reveal_with_fuel(steps, 2);
    if n > 0 && !s.0.halted {
        lemma_steps_last(step(s, o), o, (n - 1) as nat);
    }
}

fn is_known(op: u8) -> (r: bool)
    ensures
        r == known(op),
{
    match op {
        0xA9 | 0xA5 | 0xB5 | 0xAD | 0xBD | 0xB9 | 0xA1 | 0xB1 | 0xA2 | 0xA6 | 0xB6 | 0xAE | 0xBE
        | 0xA0 | 0xA4 | 0xB4 | 0xAC | 0xBC | 0x4A | 0x46 | 0x56 | 0x4E | 0x5E | 0xEA => true,
        _ => false,
    }
}

/// The reduced core.
pub struct Core<B: Bus> {
    core: machine::Core<B>,
}

impl<B: Bus> Core<B> {
    pub closed spec fn regs(&self) -> Regs {
        self.core.regs()
    }

    pub closed spec fn trace(&self) -> Seq<Event> {
        self.core.trace()
    }

    pub closed spec fn bus_view(&self) -> B {
        self.core.bus_view()
    }

    pub open spec fn state(&self) -> State {
        (self.regs(), self.trace())
    }

    /// Builds a core on `bus`, has the bus load `program`, and resets.
    pub fn new(bus: B, program: Vec<u8>) -> (r: Result<Core<B>, CoreError>)
        ensures
            r matches Ok(c) ==> c.state() == semantics::power_on(c.trace()),
    {
        match machine::Core::new(bus, program) {
            Ok(core) => Ok(Core { core }),
            Err(e) => Err(e),
        }
    }

    /// Clears A, X and Y, sets `SP = 0xFF`, loads PC from the reset vector and
    /// clears the halt.
    pub fn reset(&mut self)
        ensures
            semantics::reset(old(self).state(), final(self).trace()) == final(self).state(),
            final(self).regs().p == old(self).regs().p,
    {
        self.core.reset();
    }

    /// The packed status byte.
    pub fn dump_status(&self) -> (r: u8)
        ensures
            r == self.regs().p.byte(),
    {
        self.core.dump_status_byte()
    }

    /// Steps until the core halts (giving up only after `u64::MAX` steps).
    pub fn run(&mut self)
        ensures
            extends(final(self).trace(), old(self).trace()),
            exists|n: nat|
                #[trigger] steps(old(self).state(), final(self).trace(), n) == final(self).state()
                    && (final(self).regs().halted || n == u64::MAX),
    {
        let mut budget: u64 = u64::MAX;
        let ghost start = self.state();
        while !self.core.is_halted() && budget > 0
            invariant
                extends(self.trace(), start.1),
                start == old(self).state(),
                forall|o: Seq<Event>|
                    extends(o, self.trace()) ==> #[trigger] steps(start, o, (u64::MAX - budget) as nat)
                        == self.state(),
            decreases budget,
        {
            let ghost before = self.state();
            self.step();
            proof {
                let n = (u64::MAX - budget) as nat;
                assert forall|o: Seq<Event>| extends(o, self.trace()) implies #[trigger] steps(
                    start,
                    o,
                    n + 1,
                ) == self.state() by {
                    semantics::lemma_extends_trans(o, self.trace(), before.1);
                    lemma_steps_last(start, o, n);
                }
                semantics::lemma_extends_trans(self.trace(), before.1, start.1);
            }
            budget = budget - 1;
        }
        proof {
            semantics::lemma_extends_refl(self.trace());
            assert(steps(start, self.trace(), (u64::MAX - budget) as nat) == self.state());
        }
    }

    /// Fetches one opcode and executes it if known; otherwise halts.
    pub fn step(&mut self)
        ensures
            extends(final(self).trace(), old(self).trace()),
            step(old(self).state(), final(self).trace()) == final(self).state(),
            forall|o: Seq<Event>|
                machine::ops::ran(
                    old(self).state(),
                    final(self).state(),
                    o,
                    #[trigger] step(old(self).state(), o),
                ),
    {
        let byte = self.core.fetch();
        let ghost mid = self.state();
        if is_known(byte) {
            self.core.decode(byte);
            proof {
                assert forall|o: Seq<Event>| extends(o, self.trace()) implies step(
                    old(self).state(),
                    o,
                ) == self.state() && extends(o, old(self).trace()) by {
                    assert(machine::ops::ran(
                        mid,
                        self.state(),
                        o,
                        semantics::execute(mid, o, byte),
                    ));
                }
            }
        } else {
            self.core.halt();
            proof {
                assert forall|o: Seq<Event>| extends(o, self.trace()) implies step(
                    old(self).state(),
                    o,
                ) == self.state() && extends(o, old(self).trace()) by {
                    assert(self.trace() == mid.1);
                }
            }
        }
        proof {
            semantics::lemma_extends_refl(self.trace());
        }
    }

    /// The bus, for inspection or for loading memory between steps.
    pub fn get_bus(&mut self) -> (r: &mut B)
        ensures
            *r == old(self).bus_view(),
            final(self).regs() == old(self).regs(),
            final(self).trace() == old(self).trace(),
            final(self).bus_view() == *final(r),
    {
        self.core.get_bus()
    }

    /// The A register.
    pub fn acc(&self) -> (r: u8)
        ensures
            r == self.regs().a,
    {
        self.core.acc()
    }

    /// The X register.
    pub fn idx(&self) -> (r: u8)
        ensures
            r == self.regs().x,
    {
        self.core.idx()
    }

    /// The Y register.
    pub fn idy(&self) -> (r: u8)
        ensures
            r == self.regs().y,
    {
        self.core.idy()
    }

    /// Overwrites the X register.
    pub fn set_idx(&mut self, value: u8)
        ensures
            final(self).regs() == (Regs { x: value, ..old(self).regs() }),
            final(self).trace() == old(self).trace(),
    {
        self.core.set_idx(value);
    }

    /// Overwrites the Y register.
    pub fn set_idy(&mut self, value: u8)
        ensures
            final(self).regs() == (Regs { y: value, ..old(self).regs() }),
            final(self).trace() == old(self).trace(),
    {
        self.core.set_idy(value);
    }
}

} // verus!
