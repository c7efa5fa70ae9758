//! One decoded instruction: the capability it implements, the result its
//! execution produces, and the program-counter directive it hands back to
//! the engine.

use vstd::prelude::*;
use vstd::arithmetic::power2::pow2;
use vstd::string::StringExecFns;
use crate::{RegisterId, RegisterSize};
use crate::registers::{
    RegisterModel, RegisterOperation, RegisterType, Registers, reg_written, timer_applied,
};
use crate::trace::{dec_seq, decimal};

verus! {

/// How the program counter moves after an instruction: advance by one,
/// jump to an absolute address, move by an encoded relative offset, or stay
/// where the instruction itself already put it.
#[derive(Debug, Clone, Copy, PartialEq, Eq, Structural)]
pub enum ProgramCounterChange {
    /// Advance the program counter by one.
    Default,
    /// Set the program counter to an absolute address.
    Absolute(RegisterSize),
    /// Move the program counter by an offset given as a wrapped bit pattern:
    /// adding it at the backing width performs the signed move.
    Relative(RegisterSize),
    /// The instruction already wrote the program counter itself; the engine
    /// must not move it again.
    Jumped,
}

/// The untruncated target the program counter at `current` moves to under
/// `change`.
pub open spec fn pc_target(change: ProgramCounterChange, current: nat) -> int {
    match change {
        ProgramCounterChange::Default => current as int + 1,
        ProgramCounterChange::Absolute(address) => address as int,
        ProgramCounterChange::Relative(offset) => current + offset as int,
        ProgramCounterChange::Jumped => current as int,
    }
}

/// A relative program-counter move carries its offset as a wrapped bit
/// pattern: adding the `width`-bit two's-complement pattern of a signed
/// offset and reducing at the backing width is exactly the wrapping signed
/// move by that offset.
pub proof fn lemma_relative_move_is_signed(pc: nat, offset: nat, width: nat)
    requires
        0 < width,
        offset < pow2(width),
    ensures
        (pc + offset) % pow2(width) == (pc + crate::registers::complement_value(offset, width))
            % pow2(width) as int,
{
    vstd::arithmetic::power2::lemma_pow2_pos(width);
    if crate::registers::complement_value(offset, width) != offset {
        vstd::arithmetic::div_mod::lemma_mod_sub_multiples_vanish(
            pc as int + offset as int,
            pow2(width) as int,
        );
    }
}

/// Relation between a bank before and after one application of a
/// program-counter directive: the program counter moves to its target
/// reduced at its backing width, everything else is untouched, and a
/// `Jumped` directive changes nothing at all.
pub open spec fn pc_moved<R: RegisterModel>(pre: R, post: R, change: ProgramCounterChange) -> bool {
    &&& reg_written(
        pre,
        post,
        RegisterType::ProgramCounter,
        pc_target(change, pre.spec_value(RegisterType::ProgramCounter)),
    )
    &&& change is Jumped ==> post == pre
}

/// Relation between a bank before and after one engine-applied instruction
/// cycle: the consumed cycles are fed to the timers under the prescaler law,
/// and then the program counter moves as the directive asks.
pub open spec fn cycle_applied<R: RegisterModel>(
    pre: R,
    post: R,
    clocks: usize,
    change: ProgramCounterChange,
) -> bool {
    exists|mid: R| #[trigger] timer_applied(pre, mid, clocks) && pc_moved(mid, post, change)
}

/// What executing one instruction produced: a human-readable trace of the
/// effect, the clock cycles consumed, and the program-counter directive.
#[derive(Debug, Clone)]
pub struct InstructionResult {
    debug_info: String,
    clocks: RegisterSize,
    program_counter_change: ProgramCounterChange,
}

impl InstructionResult {
    /// The trace text, as a sequence of characters.
    pub closed spec fn spec_trace(self) -> Seq<char> {
        self.debug_info@
    }

    /// The clock cycles the instruction consumed.
    pub closed spec fn spec_clocks(self) -> RegisterSize {
        self.clocks
    }

    /// The program-counter directive.
    pub closed spec fn spec_pc_change(self) -> ProgramCounterChange {
        self.program_counter_change
    }

    /// Package a trace, a cycle count and a program-counter directive.
    pub fn new(debug_info: &str, clocks: RegisterSize, pc_change: ProgramCounterChange) -> (r:
        InstructionResult)
        ensures
            r.spec_trace() == debug_info@,
            r.spec_clocks() == clocks,
            r.spec_pc_change() == pc_change,
    {
        InstructionResult {
            debug_info: debug_info.to_owned(),
            clocks,
            program_counter_change: pc_change,
        }
    }

    /// The trace text, surrendered to the caller.
    pub fn debug_info(self) -> (r: String)
        ensures
            r@ == self.spec_trace(),
    {
        self.debug_info
    }

    /// The clock cycles the instruction consumed.
    pub fn clocks(&self) -> (r: RegisterSize)
        ensures
            r == self.spec_clocks(),
    {
        self.clocks
    }

    /// The program-counter directive.
    pub fn program_couter_change(&self) -> (r: ProgramCounterChange)
        ensures
            r == self.spec_pc_change(),
    {
        self.program_counter_change
    }
}

/// The trace of the placeholder operation that pads the sequence slots of an
/// instruction longer than the base instruction length.
pub open spec fn empty_operation_trace() -> Seq<char> {
    "[EMPTY]: This is empty address for instructions longer than the base instruction length"@
}

/// The trace of the one-cycle no-operation instruction.
pub open spec fn nop_trace() -> Seq<char> {
    "[NOP]: Single cycle no operation"@
}

/// One decoded instruction of a concrete instruction set for the register
/// layout `R`: executing it against a bank yields an [`InstructionResult`].
///
/// A logical instruction longer than the base instruction length occupies
/// several sequence slots: the first slot holds the real instruction and the
/// following slots hold [`Instruction::empty_operation`] placeholders, so
/// that addressing stays aligned.
pub trait Instruction<R: Registers>: Copy + Sized {
    /// The selectors this instruction may address while it runs.  A program
    /// is only valid for a register layout that provides all of them.
    spec fn spec_selectors(self) -> Set<RegisterType>;

    /// Whether this instruction touches external state (such as I/O-mapped
    /// memory) rather than only the register bank.
    spec fn spec_is_side_effect(self) -> bool;

    /// What running this instruction does: the relation every
    /// [`Instruction::run`] call establishes between the bank before, the
    /// bank after, and the produced result.  Implementations define it; the
    /// engine's contracts speak through it.
    spec fn post_run(self, pre: R, post: R, result: InstructionResult) -> bool;

    /// Compute the instruction's effect against `registers`, applying any
    /// register mutations directly, and hand back cycle count, trace and
    /// program-counter directive.  The default program-counter advance is
    /// the engine's job; an instruction only writes the program counter
    /// itself when it must observe the moved value, and then returns
    /// [`ProgramCounterChange::Jumped`].
    fn run(&self, registers: &mut R) -> (r: InstructionResult)
        requires
            old(registers).inv(),
            forall|t: RegisterType| self.spec_selectors().contains(t) ==> R::spec_valid(t),
        ensures
            final(registers).inv(),
            self.post_run(*old(registers), *final(registers), r),
    ;

    /// Whether this instruction is classified as side-effecting, as an
    /// executable answer.
    fn is_side_effect(&self) -> (r: bool)
        ensures
            r == self.spec_is_side_effect(),
    ;

    /// Execute one full instruction cycle: run the instruction, feed the
    /// consumed cycles to the timers, move the program counter as the result
    /// directs, and hand back the trace.  This is the only entry point
    /// engines use; [`Instruction::run`] alone is for examining instruction
    /// logic in isolation.
    fn run_cycle(&self, registers: &mut R) -> (trace: String)
        requires
            old(registers).inv(),
            forall|t: RegisterType| self.spec_selectors().contains(t) ==> R::spec_valid(t),
        ensures
            final(registers).inv(),
            exists|ran: R, result: InstructionResult|
                {
                    &&& #[trigger] self.post_run(*old(registers), ran, result)
                    &&& ran.inv()
                    &&& cycle_applied(
                        ran,
                        *final(registers),
                        result.spec_clocks(),
                        result.spec_pc_change(),
                    )
                    &&& trace@ == result.spec_trace()
                },
    {
        let result = self.run(registers);
        let ghost ran = *registers;
        registers.update_timer(result.clocks());
        let ghost timed = *registers;
        registers.update_program_counter(result.program_couter_change());
        let ghost moved = *registers;
        let trace = result.debug_info();
        proof {
            assert(timer_applied(ran, timed, result.spec_clocks()) && pc_moved(
                timed,
                moved,
                result.spec_pc_change(),
            ));
            assert(self.post_run(*old(registers), ran, result) && ran.inv() && cycle_applied(
                ran,
                moved,
                result.spec_clocks(),
                result.spec_pc_change(),
            ) && trace@ == result.spec_trace());
        }
        trace
    }

    /// The placeholder result that pads the sequence slots after an
    /// instruction longer than the base instruction length: zero cycles, the
    /// default program-counter advance, and a fixed trace.
    fn empty_operation() -> (r: InstructionResult)
        ensures
            r.spec_clocks() == 0,
            r.spec_pc_change() == ProgramCounterChange::Default,
            r.spec_trace() == empty_operation_trace(),
    {
        InstructionResult::new(
            "[EMPTY]: This is empty address for instructions longer than the base instruction length",
            0,
            ProgramCounterChange::Default,
        )
    }

    /// A one-cycle no-operation result with the default program-counter
    /// advance and a fixed trace.
    fn nop() -> (r: InstructionResult)
        ensures
            r.spec_clocks() == 1,
            r.spec_pc_change() == ProgramCounterChange::Default,
            r.spec_trace() == nop_trace(),
    {
        InstructionResult::new("[NOP]: Single cycle no operation", 1, ProgramCounterChange::Default)
    }
}

/// The trace of the example add instruction: operands, ids and result.
pub open spec fn add_trace(id_d: nat, rd: nat, id_r: nat, rr: nat, result: nat) -> Seq<char> {
    "[ADD]: Add Rd("@ + dec_seq(id_d) + "):"@ + dec_seq(rd) + " and Rr("@ + dec_seq(id_r) + "):"@
        + dec_seq(rr) + ", Result:Rd("@ + dec_seq(id_d) + "):"@ + dec_seq(result)
}

/// The trace of the example jump instruction: origin, target and final
/// program counter.
pub open spec fn jmp_trace(from: nat, to: nat, end: nat) -> Seq<char> {
    "[JMP]: Jump from:"@ + dec_seq(from) + " to:"@ + dec_seq(to) + ", Result:PC:"@ + dec_seq(end)
}

/// A small example instruction set exercising the engine: a register add, an
/// absolute jump, a no-operation, and the padding placeholder.  All of them
/// are pure: none touches state outside the register bank.
#[derive(Debug, Clone, Copy)]
pub enum ExampleInstruction {
    /// Add general register `id_r` into general register `id_d`.
    Add { id_d: RegisterId, id_r: RegisterId },
    /// Jump to the absolute address `val_k`.
    Jmp { val_k: RegisterSize },
    /// Do nothing for one cycle.
    Nop,
    /// The padding slot of a longer instruction.
    Empty,
}

impl<R: Registers> Instruction<R> for ExampleInstruction {
    /// The selectors each instruction addresses.
    open spec fn spec_selectors(self) -> Set<RegisterType> {
        match self {
            ExampleInstruction::Add { id_d, id_r } => set![
                RegisterType::General { id: id_d },
                RegisterType::General { id: id_r },
            ],
            ExampleInstruction::Jmp { val_k } => set![RegisterType::ProgramCounter],
            ExampleInstruction::Nop => Set::empty(),
            ExampleInstruction::Empty => Set::empty(),
        }
    }

    /// Every example instruction is pure.
    open spec fn spec_is_side_effect(self) -> bool {
        false
    }

    /// What each instruction does: the add and the jump as their helpers
    /// promise, the no-operation and the placeholder leaving the bank
    /// untouched.
    open spec fn post_run(self, pre: R, post: R, result: InstructionResult) -> bool {
        match self {
            ExampleInstruction::Add { id_d, id_r } => {
                &&& reg_written(
                    pre,
                    post,
                    RegisterType::General { id: id_d },
                    pre.spec_value(RegisterType::General { id: id_d }) as int + pre.spec_value(
                        RegisterType::General { id: id_r },
                    ) as int,
                )
                &&& result.spec_clocks() == 1
                &&& result.spec_pc_change() == ProgramCounterChange::Default
                &&& result.spec_trace() == add_trace(
                    id_d as nat,
                    pre.spec_value(RegisterType::General { id: id_d }),
                    id_r as nat,
                    pre.spec_value(RegisterType::General { id: id_r }),
                    post.spec_value(RegisterType::General { id: id_d }),
                )
            },
            ExampleInstruction::Jmp { val_k } => {
                &&& reg_written(pre, post, RegisterType::ProgramCounter, val_k as int)
                &&& result.spec_clocks() == 3
                &&& result.spec_pc_change() == ProgramCounterChange::Jumped
                &&& result.spec_trace() == jmp_trace(
                    pre.spec_value(RegisterType::ProgramCounter),
                    val_k as nat,
                    post.spec_value(RegisterType::ProgramCounter),
                )
            },
            ExampleInstruction::Nop => {
                &&& post == pre
                &&& result.spec_clocks() == 1
                &&& result.spec_pc_change() == ProgramCounterChange::Default
                &&& result.spec_trace() == nop_trace()
            },
            ExampleInstruction::Empty => {
                &&& post == pre
                &&& result.spec_clocks() == 0
                &&& result.spec_pc_change() == ProgramCounterChange::Default
                &&& result.spec_trace() == empty_operation_trace()
            },
        }
    }

    /// Compute the instruction's effect against `registers`.
    fn run(&self, registers: &mut R) -> (r: InstructionResult) {
        match self {
            ExampleInstruction::Add { id_d, id_r } => ExampleInstruction::add(
                registers,
                *id_d,
                *id_r,
            ),
            ExampleInstruction::Jmp { val_k } => ExampleInstruction::jmp(registers, *val_k),
            ExampleInstruction::Empty => <Self as Instruction<R>>::empty_operation(),
            ExampleInstruction::Nop => <Self as Instruction<R>>::nop(),
        }
    }

    /// No example instruction is classified as side-effecting.
    fn is_side_effect(&self) -> (r: bool) {
        match self {
            ExampleInstruction::Add { id_d, id_r } => false,
            ExampleInstruction::Jmp { val_k } => false,
            ExampleInstruction::Empty => false,
            ExampleInstruction::Nop => false,
        }
    }
}

impl ExampleInstruction {
    /// Add general register `id_r` into general register `id_d`, wrapping at
    /// the backing width, and report operands and result in the trace.
    pub fn add<R: Registers>(registers: &mut R, id_d: RegisterId, id_r: RegisterId) -> (r:
        InstructionResult)
        requires
            old(registers).inv(),
            R::spec_valid(RegisterType::General { id: id_d }),
            R::spec_valid(RegisterType::General { id: id_r }),
        ensures
            reg_written(
                *old(registers),
                *final(registers),
                RegisterType::General { id: id_d },
                old(registers).spec_value(RegisterType::General { id: id_d }) as int + old(
                    registers,
                ).spec_value(RegisterType::General { id: id_r }) as int,
            ),
            r.spec_clocks() == 1,
            r.spec_pc_change() == ProgramCounterChange::Default,
            r.spec_trace() == add_trace(
                id_d as nat,
                old(registers).spec_value(RegisterType::General { id: id_d }),
                id_r as nat,
                old(registers).spec_value(RegisterType::General { id: id_r }),
                final(registers).spec_value(RegisterType::General { id: id_d }),
            ),
    {
        let rd = registers.read_from(RegisterType::General { id: id_d });
        let rr = registers.read_from(RegisterType::General { id: id_r });

        registers.execute(
            RegisterOperation::Add { register_type: RegisterType::General { id: id_d }, value: rr },
        );

        let result = registers.read_from(RegisterType::General { id: id_d });

        let mut text = String::new();
        text.append("[ADD]: Add Rd(");
        text.append(decimal(id_d).as_str());
        text.append("):");
        text.append(decimal(rd).as_str());
        text.append(" and Rr(");
        text.append(decimal(id_r).as_str());
        text.append("):");
        text.append(decimal(rr).as_str());
        text.append(", Result:Rd(");
        text.append(decimal(id_d).as_str());
        text.append("):");
        text.append(decimal(result).as_str());
        proof {
            assert(text@ =~= add_trace(
                id_d as nat,
                rd as nat,
                id_r as nat,
                rr as nat,
                result as nat,
            ));
        }
        InstructionResult::new(text.as_str(), 1, ProgramCounterChange::Default)
    }

    /// Jump to the absolute address `val_k` by writing the program counter
    /// directly, and report origin and target in the trace.
    pub fn jmp<R: Registers>(registers: &mut R, val_k: RegisterSize) -> (r: InstructionResult)
        requires
            old(registers).inv(),
        ensures
            reg_written(
                *old(registers),
                *final(registers),
                RegisterType::ProgramCounter,
                val_k as int,
            ),
            r.spec_clocks() == 3,
            r.spec_pc_change() == ProgramCounterChange::Jumped,
            r.spec_trace() == jmp_trace(
                old(registers).spec_value(RegisterType::ProgramCounter),
                val_k as nat,
                final(registers).spec_value(RegisterType::ProgramCounter),
            ),
    {
        let start_program_counter = registers.read_program_counter();
        registers.update_program_counter(ProgramCounterChange::Absolute(val_k));
        let end_program_counter = registers.read_program_counter();

        let mut text = String::new();
        text.append("[JMP]: Jump from:");
        text.append(decimal(start_program_counter).as_str());
        text.append(" to:");
        text.append(decimal(val_k).as_str());
        text.append(", Result:PC:");
        text.append(decimal(end_program_counter).as_str());
        proof {
            assert(text@ =~= jmp_trace(
                start_program_counter as nat,
                val_k as nat,
                end_program_counter as nat,
            ));
        }
        InstructionResult::new(text.as_str(), 3, ProgramCounterChange::Jumped)
    }
}

impl PartialEq for InstructionResult {
    /// Two results are equal when trace, cycle count and directive agree.
    fn eq(&self, other: &InstructionResult) -> (r: bool) {
        self.debug_info == other.debug_info && self.clocks == other.clocks
            && self.program_counter_change == other.program_counter_change
    }
}

impl vstd::std_specs::cmp::PartialEqSpecImpl for InstructionResult {
    open spec fn obeys_eq_spec() -> bool {
        true
    }

    open spec fn eq_spec(&self, other: &InstructionResult) -> bool {
        &&& self.spec_trace() == other.spec_trace()
        &&& self.spec_clocks() == other.spec_clocks()
        &&& self.spec_pc_change() == other.spec_pc_change()
    }
}

} // verus!
