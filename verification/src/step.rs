//! What the peripherals do before each instruction.
//!
//! The driver that steps the processor calls `before_step` with the
//! registers as they are, and writes back the registers it returns before it
//! lets the instruction run. Two things happen, in this order: the scheduler
//! counts the step and may inject the call of a completed request; and if the
//! program counter, as it was handed in, stands at the entry of the
//! firmware's floppy routine, the controller serves the request in place of
//! that routine.

use vstd::prelude::*;
use crate::floppy::completion_code;
use crate::floppy::drives_after;
use crate::floppy::drives_wf;
use crate::floppy::fault_of;
use crate::floppy::machine_after;
use crate::floppy::request_at;
use crate::floppy::resume_address;
use crate::floppy::rom_floopy;
use crate::floppy::Completion;
use crate::floppy::Fault;
use crate::floppy::HeaderPolicy;
use crate::media::Media;
use crate::pds_machine::MachineState;
use crate::pds_machine::PdsMachine;
use crate::pds_machine::FLOPPY_HANDLER;
use crate::scheduler::called;
use crate::scheduler::interrupt;
use crate::scheduler::pushed;
use crate::scheduler::tick_fires;
use crate::scheduler::tick_state;
use crate::scheduler::Pending;
use crate::scheduler::Registers;
use crate::scheduler::Scheduler;
use crate::scheduler::ASYNC_DELAY;

verus! {

/// Address of the return instruction that ends the firmware's floppy
/// routine. A served request continues there, so the routine's body never
/// runs.
pub const FLOPPY_RETURN: u16 = 0x0797;

/// The machine after the scheduler counted the step.
pub open spec fn machine_ticked(
    machine: MachineState,
    scheduler: Option<Pending>,
    regs: Registers,
) -> MachineState {
    if tick_fires(scheduler) is Some {
        MachineState { ram: pushed(machine.ram, regs.sp, regs.pc), ..machine }
    } else {
        machine
    }
}

/// The registers after the scheduler counted the step.
pub open spec fn regs_ticked(scheduler: Option<Pending>, regs: Registers) -> Registers {
    match tick_fires(scheduler) {
        Some(dest) => called(regs, dest),
        None => regs,
    }
}

/// Whether the step is trapped: the program counter stands at the entry of
/// the floppy routine.
pub open spec fn trapped(regs: Registers) -> bool {
    regs.pc == 0x0780
}

/// The fault the step raises, if any: a request while a completion is still
/// pending after this step's count, or the request's own fault.
pub open spec fn step_fault(
    machine: MachineState,
    drives: Seq<Media>,
    scheduler: Option<Pending>,
    policy: HeaderPolicy,
    regs: Registers,
) -> Option<Fault> {
    let ticked = machine_ticked(machine, scheduler, regs);
    if !trapped(regs) {
        None
    } else if tick_state(scheduler) is Some {
        Some(Fault::CompletionPending)
    } else {
        fault_of(request_at(ticked.rom, ticked.ram, regs.iy), drives, policy)
    }
}

/// What the scheduler holds after a request was served.
pub open spec fn armed_by(machine: MachineState, drive_count: int, base: u16) -> Option<Pending> {
    let request = request_at(machine.rom, machine.ram, base);
    match resume_address(request, completion_code(request, drive_count)) {
        Some(address) => Some(Pending { address, remaining: 10000 }),
        None => None,
    }
}

/// Runs the peripherals' part of one step and returns the registers the
/// instruction is to run with.
///
/// The scheduler counts the step first; if a completion is due, its call is
/// injected. A step that is not trapped ends there. A trapped step that
/// raises a fault also ends there, with the fault. Otherwise the request is
/// served, an asynchronous one is armed with the fixed delay, and the program
/// counter is set to the routine's return instruction.
pub fn before_step(
    machine: &mut PdsMachine,
    drives: &mut Vec<Media>,
    scheduler: &mut Scheduler,
    policy: HeaderPolicy,
    regs: Registers,
) -> (r: Result<Registers, Fault>)
    requires
        old(machine).wf(),
        drives_wf(old(drives)@),
    ensures
        final(machine).wf(),
        drives_wf(final(drives)@),
        match r {
            Err(fault) => {
                &&& step_fault(old(machine)@, old(drives)@, old(scheduler)@, policy, regs) == Some(
                    fault,
                )
                &&& final(machine)@ == machine_ticked(old(machine)@, old(scheduler)@, regs)
                &&& final(scheduler)@ == tick_state(old(scheduler)@)
                &&& final(drives)@ == old(drives)@
            },
            Ok(after) => {
                &&& step_fault(old(machine)@, old(drives)@, old(scheduler)@, policy, regs) is None
                &&& !trapped(regs) ==> {
                    &&& after == regs_ticked(old(scheduler)@, regs)
                    &&& final(machine)@ == machine_ticked(old(machine)@, old(scheduler)@, regs)
                    &&& final(scheduler)@ == tick_state(old(scheduler)@)
                    &&& final(drives)@ == old(drives)@
                }
                &&& trapped(regs) ==> {
                    &&& after == (Registers { pc: 0x0797, ..regs_ticked(old(scheduler)@, regs) })
                    &&& final(machine)@ == machine_after(
                        machine_ticked(old(machine)@, old(scheduler)@, regs),
                        old(drives)@,
                        regs.iy,
                    )
                    &&& drives_after(
                        old(drives)@,
                        final(drives)@,
                        machine_ticked(old(machine)@, old(scheduler)@, regs),
                        regs.iy,
                    )
                    &&& final(scheduler)@ == armed_by(
                        machine_ticked(old(machine)@, old(scheduler)@, regs),
                        old(drives)@.len() as int,
                        regs.iy,
                    )
                }
            },
        },
{
    let current: Registers = match scheduler.tick() {
        Some(dest) => interrupt(machine, regs, dest),
        None => regs,
    };
    if regs.pc != FLOPPY_HANDLER {
        return Ok(current);
    }
    if scheduler.is_pending() {
        return Err(Fault::CompletionPending);
    }
    let completion: Completion = match rom_floopy(machine, drives, regs.iy, policy) {
        Ok(completion) => completion,
        Err(fault) => {
            return Err(fault);
        },
    };
    match completion.resume {
        Some(address) => {
            let armed: Result<(), Fault> = scheduler.arm(address, ASYNC_DELAY);
            assert(armed.is_ok());
        },
        None => {},
    }
    Ok(Registers { pc: FLOPPY_RETURN, sp: current.sp, iy: current.iy })
}

} // verus!
