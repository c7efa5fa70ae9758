//! A generic instruction-execution core for microcontroller simulators.
//!
//! The crate models an abstract register bank addressed by typed selectors,
//! decoded instructions that compute execution effects against such a bank,
//! and an execution engine that steps a processor through a fixed program
//! one instruction at a time.

use vstd::prelude::*;

pub mod data_space;
pub mod instruction;
pub mod instructions;
pub mod registers;
pub mod trace;
pub mod user_ram;

use crate::instruction::{Instruction, InstructionResult, cycle_applied};
use crate::registers::{RegisterType, Registers};

verus! {

/// The engine-level register value type: wide enough for the largest
/// simulated register.  Narrower backing registers truncate on write and
/// zero-extend on read.
pub type RegisterSize = usize;

/// Identifier of one register inside a register array (general or I/O).
pub type RegisterId = usize;

/// The execution engine of the simulated processor: it owns one register
/// bank and one fixed instruction sequence, and advances one instruction at
/// a time from the current program counter.
///
/// Stepping is split into two lanes: [`Mcu::next_pure`] advances only
/// instructions classified as pure, [`Mcu::next_side_effect`] only
/// side-effecting ones, so a host can interpose on side-effecting
/// instructions without the engine knowing about peripherals.
pub struct Mcu<R, I> where R: Registers, I: Instruction<R> {
    registers: R,
    instructions: Vec<I>,
}

impl<R, I> Mcu<R, I> where R: Registers, I: Instruction<R> {
    /// The register bank the engine owns.
    pub closed spec fn spec_registers(self) -> R {
        self.registers
    }

    /// The instruction sequence the engine owns.
    pub closed spec fn spec_instructions(self) -> Seq<I> {
        self.instructions@
    }

    /// The current program counter of the owned register bank.
    pub open spec fn spec_pc(self) -> nat {
        self.spec_registers().spec_value(RegisterType::ProgramCounter)
    }

    /// The instruction the program counter currently addresses.
    pub open spec fn current_instruction(self) -> I {
        self.spec_instructions()[self.spec_pc() as int]
    }

    /// Whether a [`Mcu::next_pure`] call would advance the engine.
    pub open spec fn pure_step_advances(self) -> bool {
        !self.current_instruction().spec_is_side_effect()
    }

    /// Whether a [`Mcu::next_side_effect`] call would advance the engine.
    pub open spec fn side_effect_step_advances(self) -> bool {
        self.current_instruction().spec_is_side_effect()
    }

    /// Well-formedness of the engine: the register bank is well-formed and
    /// every instruction of the program only addresses selectors that the
    /// register layout provides.
    pub open spec fn wf(self) -> bool {
        &&& self.spec_registers().inv()
        &&& forall|j: int, t: RegisterType|
            0 <= j < self.spec_instructions().len() && #[trigger] self.spec_instructions()[j]
                .spec_selectors()
                .contains(t) ==> R::spec_valid(t)
    }

    /// Take ownership of a register bank and an instruction sequence.
    pub fn new(registers: R, instructions: Vec<I>) -> (r: Mcu<R, I>)
        ensures
            r.spec_registers() == registers,
            r.spec_instructions() == instructions@,
    {
        Mcu { registers, instructions }
    }

    /// The register bank, for inspection.
    pub fn registers(&self) -> (r: &R)
        ensures
            r == self.spec_registers(),
    {
        &self.registers
    }

    /// Execute one full cycle of the current instruction if it is pure, and
    /// hand back its trace; leave the engine untouched if the current
    /// instruction is side-effecting.
    ///
    /// When the lane advances, the bank goes through the executed
    /// instruction's [`Instruction::post_run`] relation and then receives
    /// that cycle's timer and program-counter updates, and the returned
    /// trace is the produced result's trace.
    pub fn next_pure(&mut self) -> (r: Option<String>)
        requires
            old(self).wf(),
            old(self).spec_pc() < old(self).spec_instructions().len(),
        ensures
            final(self).wf(),
            final(self).spec_instructions() == old(self).spec_instructions(),
            r is Some <==> old(self).pure_step_advances(),
            !old(self).pure_step_advances() ==> *final(self) == *old(self),
            r is Some ==> exists|ran: R, result: InstructionResult|
                {
                    &&& #[trigger] old(self).current_instruction().post_run(
                        old(self).spec_registers(),
                        ran,
                        result,
                    )
                    &&& ran.inv()
                    &&& cycle_applied(
                        ran,
                        final(self).spec_registers(),
                        result.spec_clocks(),
                        result.spec_pc_change(),
                    )
                    &&& r->Some_0@ == result.spec_trace()
                },
    {
        let current_program_counter = self.registers.read_program_counter();
        let instruction = self.instructions[current_program_counter];

        let r = if !instruction.is_side_effect() {
            Some(instruction.run_cycle(&mut self.registers))
        } else {
            None
        };
        proof {
            if r is Some {
                let (ran, result) = choose|ran: R, result: InstructionResult|
                    {
                        &&& #[trigger] instruction.post_run(old(self).spec_registers(), ran, result)
                        &&& ran.inv()
                        &&& cycle_applied(
                            ran,
                            self.spec_registers(),
                            result.spec_clocks(),
                            result.spec_pc_change(),
                        )
                        &&& r->Some_0@ == result.spec_trace()
                    };
                assert(old(self).current_instruction().post_run(
                    old(self).spec_registers(),
                    ran,
                    result,
                ) && ran.inv() && cycle_applied(
                    ran,
                    self.spec_registers(),
                    result.spec_clocks(),
                    result.spec_pc_change(),
                ) && r->Some_0@ == result.spec_trace());
            }
        }
        r
    }

    /// Execute one full cycle of the current instruction if it is
    /// side-effecting, and hand back its trace; leave the engine untouched
    /// if the current instruction is pure.
    ///
    /// When the lane advances, the bank goes through the executed
    /// instruction's [`Instruction::post_run`] relation and then receives
    /// that cycle's timer and program-counter updates, and the returned
    /// trace is the produced result's trace.
    pub fn next_side_effect(&mut self) -> (r: Option<String>)
        requires
            old(self).wf(),
            old(self).spec_pc() < old(self).spec_instructions().len(),
        ensures
            final(self).wf(),
            final(self).spec_instructions() == old(self).spec_instructions(),
            r is Some <==> old(self).side_effect_step_advances(),
            !old(self).side_effect_step_advances() ==> *final(self) == *old(self),
            r is Some ==> exists|ran: R, result: InstructionResult|
                {
                    &&& #[trigger] old(self).current_instruction().post_run(
                        old(self).spec_registers(),
                        ran,
                        result,
                    )
                    &&& ran.inv()
                    &&& cycle_applied(
                        ran,
                        final(self).spec_registers(),
                        result.spec_clocks(),
                        result.spec_pc_change(),
                    )
                    &&& r->Some_0@ == result.spec_trace()
                },
    {
        let current_program_counter = self.registers.read_program_counter();
        let instruction = self.instructions[current_program_counter];

        let r = if instruction.is_side_effect() {
            Some(instruction.run_cycle(&mut self.registers))
        } else {
            None
        };
        proof {
            if r is Some {
                let (ran, result) = choose|ran: R, result: InstructionResult|
                    {
                        &&& #[trigger] instruction.post_run(old(self).spec_registers(), ran, result)
                        &&& ran.inv()
                        &&& cycle_applied(
                            ran,
                            self.spec_registers(),
                            result.spec_clocks(),
                            result.spec_pc_change(),
                        )
                        &&& r->Some_0@ == result.spec_trace()
                    };
                assert(old(self).current_instruction().post_run(
                    old(self).spec_registers(),
                    ran,
                    result,
                ) && ran.inv() && cycle_applied(
                    ran,
                    self.spec_registers(),
                    result.spec_clocks(),
                    result.spec_pc_change(),
                ) && r->Some_0@ == result.spec_trace());
            }
        }
        r
    }

    /// Surrender the engine to a handle that steps only pure instructions.
    pub fn to_pure_iter(self) -> (r: PureInstructionIterator<R, I>)
        ensures
            r.spec_mcu() == self,
    {
        PureInstructionIterator { mcu: self }
    }

    /// Surrender the engine to a handle that steps only side-effecting
    /// instructions.
    pub fn to_side_effect_iter(self) -> (r: SideEffectInstructionIterator<R, I>)
        ensures
            r.spec_mcu() == self,
    {
        SideEffectInstructionIterator { mcu: self }
    }
}

/// The two stepping lanes partition every program: at any position, exactly
/// one of [`Mcu::next_pure`] and [`Mcu::next_side_effect`] advances the
/// engine — the pure lane exactly when the current instruction is pure, the
/// side-effect lane exactly when it is side-effecting.
pub proof fn lemma_step_lanes_partition<R: Registers, I: Instruction<R>>(m: Mcu<R, I>)
    requires
        m.wf(),
        m.spec_pc() < m.spec_instructions().len(),
    ensures
        m.pure_step_advances() <==> !m.side_effect_step_advances(),
{
}

/// An exclusive handle on an engine that steps only pure instructions: each
/// [`PureInstructionIterator::next`] call advances the engine by one pure
/// instruction, or reports that the current instruction is side-effecting.
pub struct PureInstructionIterator<R, I> where R: Registers, I: Instruction<R> {
    mcu: Mcu<R, I>,
}

impl<R, I> PureInstructionIterator<R, I> where R: Registers, I: Instruction<R> {
    /// The engine this handle owns.
    pub closed spec fn spec_mcu(self) -> Mcu<R, I> {
        self.mcu
    }

    /// Step the engine by one pure instruction, as [`Mcu::next_pure`] does.
    pub fn next(&mut self) -> (r: Option<String>)
        requires
            old(self).spec_mcu().wf(),
            old(self).spec_mcu().spec_pc() < old(self).spec_mcu().spec_instructions().len(),
        ensures
            final(self).spec_mcu().wf(),
            final(self).spec_mcu().spec_instructions() == old(self).spec_mcu().spec_instructions(),
            r is Some <==> old(self).spec_mcu().pure_step_advances(),
            !old(self).spec_mcu().pure_step_advances() ==> *final(self) == *old(self),
            r is Some ==> exists|ran: R, result: InstructionResult|
                {
                    &&& #[trigger] old(self).spec_mcu().current_instruction().post_run(
                        old(self).spec_mcu().spec_registers(),
                        ran,
                        result,
                    )
                    &&& ran.inv()
                    &&& cycle_applied(
                        ran,
                        final(self).spec_mcu().spec_registers(),
                        result.spec_clocks(),
                        result.spec_pc_change(),
                    )
                    &&& r->Some_0@ == result.spec_trace()
                },
    {
        let r = self.mcu.next_pure();
        proof {
            if r is Some {
                let (ran, result) = choose|ran: R, result: InstructionResult|
                    {
                        &&& #[trigger] old(self).spec_mcu().current_instruction().post_run(
                            old(self).spec_mcu().spec_registers(),
                            ran,
                            result,
                        )
                        &&& ran.inv()
                        &&& cycle_applied(
                            ran,
                            self.mcu.spec_registers(),
                            result.spec_clocks(),
                            result.spec_pc_change(),
                        )
                        &&& r->Some_0@ == result.spec_trace()
                    };
                assert(old(self).spec_mcu().current_instruction().post_run(
                    old(self).spec_mcu().spec_registers(),
                    ran,
                    result,
                ) && ran.inv() && cycle_applied(
                    ran,
                    self.mcu.spec_registers(),
                    result.spec_clocks(),
                    result.spec_pc_change(),
                ) && r->Some_0@ == result.spec_trace());
            }
        }
        r
    }

    /// Surrender the engine back to the caller.
    pub fn into_mcu(self) -> (r: Mcu<R, I>)
        ensures
            r == self.spec_mcu(),
    {
        self.mcu
    }
}

/// An exclusive handle on an engine that steps only side-effecting
/// instructions, mirroring [`PureInstructionIterator`].
pub struct SideEffectInstructionIterator<R, I> where R: Registers, I: Instruction<R> {
    mcu: Mcu<R, I>,
}

impl<R, I> SideEffectInstructionIterator<R, I> where R: Registers, I: Instruction<R> {
    /// The engine this handle owns.
    pub closed spec fn spec_mcu(self) -> Mcu<R, I> {
        self.mcu
    }

    /// Step the engine by one side-effecting instruction, as
    /// [`Mcu::next_side_effect`] does.
    pub fn next(&mut self) -> (r: Option<String>)
        requires
            old(self).spec_mcu().wf(),
            old(self).spec_mcu().spec_pc() < old(self).spec_mcu().spec_instructions().len(),
        ensures
            final(self).spec_mcu().wf(),
            final(self).spec_mcu().spec_instructions() == old(self).spec_mcu().spec_instructions(),
            r is Some <==> old(self).spec_mcu().side_effect_step_advances(),
            !old(self).spec_mcu().side_effect_step_advances() ==> *final(self) == *old(self),
            r is Some ==> exists|ran: R, result: InstructionResult|
                {
                    &&& #[trigger] old(self).spec_mcu().current_instruction().post_run(
                        old(self).spec_mcu().spec_registers(),
                        ran,
                        result,
                    )
                    &&& ran.inv()
                    &&& cycle_applied(
                        ran,
                        final(self).spec_mcu().spec_registers(),
                        result.spec_clocks(),
                        result.spec_pc_change(),
                    )
                    &&& r->Some_0@ == result.spec_trace()
                },
    {
        let r = self.mcu.next_side_effect();
        proof {
            if r is Some {
                let (ran, result) = choose|ran: R, result: InstructionResult|
                    {
                        &&& #[trigger] old(self).spec_mcu().current_instruction().post_run(
                            old(self).spec_mcu().spec_registers(),
                            ran,
                            result,
                        )
                        &&& ran.inv()
                        &&& cycle_applied(
                            ran,
                            self.mcu.spec_registers(),
                            result.spec_clocks(),
                            result.spec_pc_change(),
                        )
                        &&& r->Some_0@ == result.spec_trace()
                    };
                assert(old(self).spec_mcu().current_instruction().post_run(
                    old(self).spec_mcu().spec_registers(),
                    ran,
                    result,
                ) && ran.inv() && cycle_applied(
                    ran,
                    self.mcu.spec_registers(),
                    result.spec_clocks(),
                    result.spec_pc_change(),
                ) && r->Some_0@ == result.spec_trace());
            }
        }
        r
    }

    /// Surrender the engine back to the caller.
    pub fn into_mcu(self) -> (r: Mcu<R, I>)
        ensures
            r == self.spec_mcu(),
    {
        self.mcu
    }
}

} // verus!
