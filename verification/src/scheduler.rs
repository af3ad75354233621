//! The completion scheduler.
//!
//! An asynchronous request does not resume its caller at once. The scheduler
//! holds the resume address for a fixed number of instruction steps and then
//! has it called as a subroutine, the way an interrupt would.

use vstd::prelude::*;
use crate::floppy::Fault;
use crate::pds_machine::wrap16;
use crate::pds_machine::MachineState;
use crate::pds_machine::PdsMachine;

verus! {

/// Instruction steps between an asynchronous request and its completion.
pub const ASYNC_DELAY: u32 = 10000;

/// The registers of the processor that the peripherals read or change.
#[derive(Clone, Copy, Debug, PartialEq, Eq, Structural)]
pub struct Registers {
    /// Program counter.
    pub pc: u16,
    /// Stack pointer.
    pub sp: u16,
    /// Index register that carries the descriptor's address.
    pub iy: u16,
}

/// A completion that waits for its delay to pass.
pub struct Pending {
    /// The subroutine to call.
    pub address: u16,
    /// Steps still to go: at least one.
    pub remaining: nat,
}

/// The scheduler after one step.
pub open spec fn tick_state(state: Option<Pending>) -> Option<Pending> {
    match state {
        Some(p) if p.remaining > 1 => Some(
            Pending { address: p.address, remaining: (p.remaining - 1) as nat },
        ),
        _ => None,
    }
}

/// The address that one step releases, if the delay ends with it.
pub open spec fn tick_fires(state: Option<Pending>) -> Option<u16> {
    match state {
        Some(p) if p.remaining <= 1 => Some(p.address),
        _ => None,
    }
}

/// The scheduler after `steps` steps.
pub open spec fn after_ticks(state: Option<Pending>, steps: nat) -> Option<Pending>
    decreases steps,
{
    if steps == 0 {
        state
    } else {
        tick_state(after_ticks(state, (steps - 1) as nat))
    }
}

/// Memory after the return address `pc` was pushed below `sp`, low byte at
/// the lower address.
pub open spec fn pushed(ram: Seq<u8>, sp: u16, pc: u16) -> Seq<u8> {
    ram.update(wrap16(sp - 2), (pc % 256) as u8).update(wrap16(sp - 1), (pc / 256) as u8)
}

/// The registers after a call to `dest` was injected.
pub open spec fn called(regs: Registers, dest: u16) -> Registers {
    Registers { pc: dest, sp: wrap16(regs.sp - 2) as u16, iy: regs.iy }
}

/// At most one completion, counted down step by step.
pub struct Scheduler {
    address: u16,
    remaining: u32,
}

impl View for Scheduler {
    type V = Option<Pending>;

    /// The completion that waits, if one does.
    closed spec fn view(&self) -> Option<Pending> {
        if self.remaining > 0 {
            Some(Pending { address: self.address, remaining: self.remaining as nat })
        } else {
            None
        }
    }
}

impl Scheduler {
    /// A scheduler with nothing pending.
    pub fn new() -> (scheduler: Scheduler)
        ensures
            scheduler@ is None,
    {
        Scheduler { address: 0, remaining: 0 }
    }

    /// Whether a completion is pending.
    pub fn is_pending(&self) -> (pending: bool)
        ensures
            pending == (self@ is Some),
    {
        self.remaining > 0
    }

    /// Steps until the pending completion is released; zero if none is
    /// pending.
    pub fn remaining(&self) -> (steps: u32)
        ensures
            steps == match self@ {
                Some(p) => p.remaining,
                None => 0,
            },
    {
        self.remaining
    }

    /// Records a completion to be released by the `delay`-th step from now.
    /// A delay of zero records nothing. While a completion is pending no
    /// other can be armed: the attempt is refused and the pending one stays.
    pub fn arm(&mut self, address: u16, delay: u32) -> (r: Result<(), Fault>)
        ensures
            match r {
                Ok(()) => {
                    &&& old(self)@ is None
                    &&& final(self)@ == if delay > 0 {
                        Some(Pending { address, remaining: delay as nat })
                    } else {
                        None
                    }
                },
                Err(fault) => {
                    &&& old(self)@ is Some
                    &&& fault == Fault::CompletionPending
                    &&& final(self)@ == old(self)@
                },
            },
    {
        if self.remaining > 0 {
            return Err(Fault::CompletionPending);
        }
        self.address = address;
        self.remaining = delay;
        Ok(())
    }

    /// Counts one step. Returns the address to call if the delay of the
    /// pending completion ends with this step; nothing is pending after
    /// that.
    pub fn tick(&mut self) -> (fired: Option<u16>)
        ensures
            fired == tick_fires(old(self)@),
            final(self)@ == tick_state(old(self)@),
    {
        if self.remaining > 0 {
            self.remaining = self.remaining - 1;
            if self.remaining == 0 {
                return Some(self.address);
            }
        }
        None
    }
}

/// Injects a subroutine call: pushes the program counter on the stack, low
/// byte at the lower address, moves the stack pointer down by two, and sets
/// the program counter to `dest`. Stack addresses wrap at 64 KiB.
pub fn interrupt(machine: &mut PdsMachine, regs: Registers, dest: u16) -> (after: Registers)
    requires
        old(machine).wf(),
    ensures
        final(machine).wf(),
        final(machine)@ == (MachineState {
            ram: pushed(old(machine)@.ram, regs.sp, regs.pc),
            ..old(machine)@
        }),
        after == called(regs, dest),
{
    let pc: u16 = regs.pc;
    let low: u16 = pc & 0xff;
    let high: u16 = pc >> 8;
    assert(low == pc % 256 && high == pc / 256) by (bit_vector)
        requires
            low == pc & 0xff,
            high == pc >> 8,
    ;
    machine.poke(regs.sp.wrapping_sub(2), low as u8);
    machine.poke(regs.sp.wrapping_sub(1), high as u8);
    Registers { pc: dest, sp: regs.sp.wrapping_sub(2), iy: regs.iy }
}

/// A completion armed with a delay is released by exactly that many steps:
/// no earlier step releases anything, the last one releases the armed
/// address, and nothing is pending after it.
pub proof fn lemma_fires_after_delay(address: u16, delay: nat, steps: nat)
    requires
        delay > 0,
        steps < delay,
    ensures
        after_ticks(Some(Pending { address, remaining: delay }), steps) == Some(
            Pending { address, remaining: (delay - steps) as nat },
        ),
        steps + 1 < delay ==> tick_fires(
            after_ticks(Some(Pending { address, remaining: delay }), steps),
        ) is None,
        steps + 1 == delay ==> tick_fires(
            after_ticks(Some(Pending { address, remaining: delay }), steps),
        ) == Some(address),
        steps + 1 == delay ==> after_ticks(
            Some(Pending { address, remaining: delay }),
            steps + 1,
        ) is None,
    decreases steps,
{
    if steps > 0 {
        lemma_fires_after_delay(address, delay, (steps - 1) as nat);
    }
    if steps + 1 == delay {
        assert(after_ticks(Some(Pending { address, remaining: delay }), steps + 1) == tick_state(
            after_ticks(Some(Pending { address, remaining: delay }), steps),
        ));
    }
}

} // verus!
