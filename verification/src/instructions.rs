//! The instruction capability that works against a register bank and user
//! RAM together, with the ALU flag semantics of a two-operand add and the
//! stack instructions push and pop.

use vstd::prelude::*;
use vstd::arithmetic::power2::pow2;
use crate::registers::{
    BitOperation, PointerUpdate, RegisterModel, RegisterType, RegisterUpdate, Registers,
    apply_flags, bit_of, pointer_target, reg_written,
};
use crate::user_ram::{RamAddress, UserRam};

verus! {

/// Half-carry of a two-operand add: a carry out of bit 3, from the standard
/// hardware formula over the operand and result bits.
pub open spec fn half_carry_flag(rd: nat, rr: nat, result: nat) -> bool {
    (bit_of(rd, 3) && bit_of(rr, 3)) || (bit_of(rr, 3) && !bit_of(result, 3)) || (!bit_of(
        result,
        3,
    ) && bit_of(rd, 3))
}

/// Two's-complement overflow of a two-operand add, from the operand and
/// result bits at position 7.
pub open spec fn overflow_flag(rd: nat, rr: nat, result: nat) -> bool {
    (bit_of(rd, 7) && bit_of(rr, 7) && !bit_of(result, 7)) || (!bit_of(rd, 7) && !bit_of(rr, 7)
        && bit_of(result, 7))
}

/// Negative flag: bit 7 of the result.
pub open spec fn negative_flag(result: nat) -> bool {
    bit_of(result, 7)
}

/// Sign flag: negative exclusive-or overflow.
pub open spec fn sign_flag(rd: nat, rr: nat, result: nat) -> bool {
    negative_flag(result) ^ overflow_flag(rd, rr, result)
}

/// Zero flag: all result bits clear.
pub open spec fn zero_flag(result: nat) -> bool {
    &&& !bit_of(result, 7)
    &&& !bit_of(result, 6)
    &&& !bit_of(result, 5)
    &&& !bit_of(result, 4)
    &&& !bit_of(result, 3)
    &&& !bit_of(result, 2)
    &&& !bit_of(result, 1)
    &&& !bit_of(result, 0)
}

/// Carry of a two-operand add: a carry out of bit 7, from the standard
/// hardware formula over the operand and result bits.
pub open spec fn carry_flag(rd: nat, rr: nat, result: nat) -> bool {
    (bit_of(rd, 7) && bit_of(rr, 7)) || (bit_of(rr, 7) && !bit_of(result, 7)) || (!bit_of(
        result,
        7,
    ) && bit_of(rd, 7))
}

/// The selective status assignment an add with operands `rd`, `rr` and
/// result `result` performs: the two least-significant status bits are left
/// untouched, then carry, zero, negative, overflow, sign and half-carry
/// occupy bits 0 to 5.
pub open spec fn add_flag_assignment(rd: nat, rr: nat, result: nat) -> Seq<Option<bool>> {
    seq![
        Option::None,
        Option::None,
        Option::Some(half_carry_flag(rd, rr, result)),
        Option::Some(sign_flag(rd, rr, result)),
        Option::Some(overflow_flag(rd, rr, result)),
        Option::Some(negative_flag(result)),
        Option::Some(zero_flag(result)),
        Option::Some(carry_flag(rd, rr, result)),
    ]
}

/// Relation between a bank before and after a flag-setting add of general
/// register `id_rr` into general register `id_rd`: the target wraps at its
/// backing width, the status register receives the flag assignment, and
/// everything else is untouched.
pub open spec fn add_applied<R: RegisterModel>(pre: R, post: R, id_rd: usize, id_rr: usize) -> bool {
    &&& post.inv()
    &&& post.spec_value(RegisterType::General { id: id_rd }) == (pre.spec_value(
        RegisterType::General { id: id_rd },
    ) + pre.spec_value(RegisterType::General { id: id_rr })) % pow2(
        R::spec_width(RegisterType::General { id: id_rd }),
    )
    &&& post.spec_value(RegisterType::Status) == apply_flags(
        pre.spec_value(RegisterType::Status),
        add_flag_assignment(
            pre.spec_value(RegisterType::General { id: id_rd }),
            pre.spec_value(RegisterType::General { id: id_rr }),
            post.spec_value(RegisterType::General { id: id_rd }),
        ),
    ) % pow2(R::spec_width(RegisterType::Status))
    &&& forall|u: RegisterType|
        R::spec_valid(u) && u != (RegisterType::General { id: id_rd }) && u != RegisterType::Status
            ==> post.spec_value(u) == pre.spec_value(u)
    &&& forall|id: usize|
        R::spec_valid(RegisterType::Timer { id }) ==> post.spec_interval(id) == pre.spec_interval(
            id,
        )
}

/// Relation between the stores before and after a push of general register
/// `id_rr`: the byte at the old stack pointer receives the register's low
/// byte, no other byte changes, and the stack pointer moves down by one.
pub open spec fn push_applied<R: RegisterModel, U: UserRam>(
    pre_registers: R,
    pre_ram: U,
    post_registers: R,
    post_ram: U,
    id_rr: usize,
) -> bool {
    &&& post_ram.inv()
    &&& post_ram.spec_byte(pre_registers.spec_value(RegisterType::StackPointer) as usize)
        == pre_registers.spec_value(RegisterType::General { id: id_rr }) % 256
    &&& forall|a: usize|
        a <= U::spec_end_address() && a != pre_registers.spec_value(RegisterType::StackPointer)
            ==> post_ram.spec_byte(a) == pre_ram.spec_byte(a)
    &&& reg_written(
        pre_registers,
        post_registers,
        RegisterType::StackPointer,
        pointer_target(
            PointerUpdate::Decrement,
            pre_registers.spec_value(RegisterType::StackPointer),
        ),
    )
}

/// Relation between the stores before and after a pop into general register
/// `id_rd`: the stack pointer moves up by one, the byte it then addresses
/// lands in the register truncated at its backing width, and nothing else
/// changes.
pub open spec fn pop_applied<R: RegisterModel, U: UserRam>(
    pre_registers: R,
    pre_ram: U,
    post_registers: R,
    post_ram: U,
    id_rd: usize,
) -> bool {
    &&& post_ram == pre_ram
    &&& post_registers.inv()
    &&& post_registers.spec_value(RegisterType::StackPointer) == (pre_registers.spec_value(
        RegisterType::StackPointer,
    ) + 1) % pow2(R::spec_width(RegisterType::StackPointer))
    &&& post_registers.spec_value(RegisterType::General { id: id_rd }) == pre_ram.spec_byte(
        ((pre_registers.spec_value(RegisterType::StackPointer) + 1) % pow2(
            R::spec_width(RegisterType::StackPointer),
        )) as usize,
    ) % pow2(R::spec_width(RegisterType::General { id: id_rd }))
    &&& forall|u: RegisterType|
        R::spec_valid(u) && u != (RegisterType::General { id: id_rd }) && u
            != RegisterType::StackPointer ==> post_registers.spec_value(u)
            == pre_registers.spec_value(u)
    &&& forall|id: usize|
        R::spec_valid(RegisterType::Timer { id }) ==> post_registers.spec_interval(id)
            == pre_registers.spec_interval(id)
}

/// One decoded instruction for the register layout `R` and user RAM `U`;
/// executing it yields the [`RegisterUpdate`] the engine applies.
pub trait Instruction<R: Registers, U: UserRam>: Sized {
    /// The selectors this instruction may address while it runs.
    spec fn spec_selectors(self) -> Set<RegisterType>;

    /// Whether the stack region this instruction touches is in range, given
    /// the current stack pointer, the stack pointer's backing width, and the
    /// last address of user RAM.
    spec fn spec_stack_ready(self, sp: nat, sp_width: nat, end_address: usize) -> bool;

    /// What running this instruction does: the relation every
    /// [`Instruction::run`] call establishes between the stores before, the
    /// stores after, and the produced update.  Implementations define it.
    spec fn post_run(
        self,
        pre_registers: R,
        pre_ram: U,
        post_registers: R,
        post_ram: U,
        result: RegisterUpdate,
    ) -> bool;

    /// Execute the instruction against the register bank and user RAM, and
    /// hand back the cycle count and program-counter movement to apply.
    fn run(&self, registers: &mut R, user_ram: &mut U) -> (r: RegisterUpdate)
        requires
            old(registers).inv(),
            old(user_ram).inv(),
            forall|t: RegisterType| self.spec_selectors().contains(t) ==> R::spec_valid(t),
            self.spec_stack_ready(
                old(registers).spec_value(RegisterType::StackPointer),
                R::spec_width(RegisterType::StackPointer),
                U::spec_end_address(),
            ),
        ensures
            final(registers).inv(),
            final(user_ram).inv(),
            self.post_run(
                *old(registers),
                *old(user_ram),
                *final(registers),
                *final(user_ram),
                r,
            ),
    ;
}

/// A small example instruction set over a register bank and user RAM: a
/// flag-setting add, an absolute jump, stack push and pop, and a
/// no-operation.
#[derive(Clone, Copy, Debug)]
pub enum ExampleInstruction {
    /// Add general register `id_rr` into general register `id_rd`, setting
    /// the status flags.
    Add { id_rd: usize, id_rr: usize },
    /// Jump to the absolute address `val_k`.
    Jmp { val_k: usize },
    /// Push general register `id_rr` onto the stack.
    Push { id_rr: usize },
    /// Pop the top of the stack into general register `id_rd`.
    Pop { id_rd: usize },
    /// Do nothing for one cycle.
    Nop,
}

impl ExampleInstruction {
    /// Add `id_rr` into `id_rd` at the backing width, then assign the status
    /// flags from the hardware add formulas over operands and result.
    pub fn add<R: Registers>(registers: &mut R, id_rd: usize, id_rr: usize) -> (r: RegisterUpdate)
        requires
            old(registers).inv(),
            R::spec_valid(RegisterType::General { id: id_rd }),
            R::spec_valid(RegisterType::General { id: id_rr }),
            R::spec_valid(RegisterType::Status),
        ensures
            add_applied(*old(registers), *final(registers), id_rd, id_rr),
            r.spec_cycles() == 1,
            r.spec_pc_update() == PointerUpdate::Increment,
    {
        let rr = registers.read_from(RegisterType::General { id: id_rr });
        let rd = registers.read_from(RegisterType::General { id: id_rd });
        registers.add_to(RegisterType::General { id: id_rd }, rr);

        let result = registers.read_from(RegisterType::General { id: id_rd });

        let h = {
            let rd3 = rd.get_bit(3);
            let rr3 = rr.get_bit(3);
            let r3 = result.get_bit(3);

            rd3 && rr3 || rr3 && !r3 || !r3 && rd3
        };

        let v = {
            let rd7 = rd.get_bit(7);
            let rr7 = rr.get_bit(7);
            let r7 = result.get_bit(7);

            rd7 && rr7 && !r7 || !rd7 && !rr7 && r7
        };

        let n = result.get_bit(7);

        let s = n ^ v;

        let z = {
            !result.get_bit(7) && !result.get_bit(6) && !result.get_bit(5) && !result.get_bit(4)
                && !result.get_bit(3) && !result.get_bit(2) && !result.get_bit(1)
                && !result.get_bit(0)
        };

        let c = {
            let rd7 = rd.get_bit(7);
            let rr7 = rr.get_bit(7);
            let r7 = result.get_bit(7);

            rd7 && rr7 || rr7 && !r7 || !r7 && rd7
        };

        let flags: Vec<Option<bool>> = vec![
            Option::None,
            Option::None,
            Option::Some(h),
            Option::Some(s),
            Option::Some(v),
            Option::Some(n),
            Option::Some(z),
            Option::Some(c),
        ];
        proof {
            assert(flags@ =~= add_flag_assignment(rd as nat, rr as nat, result as nat));
        }

        let status = registers.read_from(RegisterType::Status);
        let assigned = status.generate_from_bit(flags.as_slice());
        registers.write_to(RegisterType::Status, assigned);

        RegisterUpdate::new(1, PointerUpdate::Increment)
    }

    /// A jump only asks the engine to move the program counter.
    pub fn jmp(val_k: usize) -> (r: RegisterUpdate)
        ensures
            r.spec_cycles() == 3,
            r.spec_pc_update() == PointerUpdate::Absolute(val_k),
    {
        RegisterUpdate::new(3, PointerUpdate::Absolute(val_k))
    }

    /// Store general register `id_rr` at the stack pointer, then move the
    /// stack pointer down by one.
    pub fn push<R: Registers, U: UserRam>(registers: &mut R, user_ram: &mut U, id_rr: usize) -> (r:
        RegisterUpdate)
        requires
            old(registers).inv(),
            old(user_ram).inv(),
            R::spec_valid(RegisterType::General { id: id_rr }),
            old(registers).spec_value(RegisterType::StackPointer) <= U::spec_end_address(),
        ensures
            push_applied(*old(registers), *old(user_ram), *final(registers), *final(user_ram), id_rr),
            r.spec_cycles() == 2,
            r.spec_pc_update() == PointerUpdate::Increment,
    {
        let rr = registers.read_from(RegisterType::General { id: id_rr });

        user_ram.write_to(RamAddress(registers.read_sp()), rr);
        registers.update_sp(PointerUpdate::Decrement);

        RegisterUpdate::new(2, PointerUpdate::Increment)
    }

    /// Move the stack pointer up by one, then load the byte it addresses
    /// into general register `id_rd`.
    pub fn pop<R: Registers, U: UserRam>(registers: &mut R, user_ram: &mut U, id_rd: usize) -> (r:
        RegisterUpdate)
        requires
            old(registers).inv(),
            old(user_ram).inv(),
            R::spec_valid(RegisterType::General { id: id_rd }),
            (old(registers).spec_value(RegisterType::StackPointer) + 1) % pow2(
                R::spec_width(RegisterType::StackPointer),
            ) <= U::spec_end_address(),
        ensures
            pop_applied(*old(registers), *old(user_ram), *final(registers), *final(user_ram), id_rd),
            r.spec_cycles() == 2,
            r.spec_pc_update() == PointerUpdate::Increment,
    {
        proof {
            old(registers).lemma_layout();
        }
        registers.update_sp(PointerUpdate::Increment);
        let value = user_ram.read_from(RamAddress(registers.read_sp()));
        registers.write_to(RegisterType::General { id: id_rd }, value);

        RegisterUpdate::new(2, PointerUpdate::Increment)
    }
}

impl<R: Registers, U: UserRam> Instruction<R, U> for ExampleInstruction {
    /// The selectors each instruction addresses.
    open spec fn spec_selectors(self) -> Set<RegisterType> {
        match self {
            ExampleInstruction::Add { id_rd, id_rr } => set![
                RegisterType::General { id: id_rd },
                RegisterType::General { id: id_rr },
                RegisterType::Status,
            ],
            ExampleInstruction::Jmp { val_k } => Set::empty(),
            ExampleInstruction::Push { id_rr } => set![
                RegisterType::General { id: id_rr },
                RegisterType::StackPointer,
            ],
            ExampleInstruction::Pop { id_rd } => set![
                RegisterType::General { id: id_rd },
                RegisterType::StackPointer,
            ],
            ExampleInstruction::Nop => Set::empty(),
        }
    }

    /// Which stack region each instruction needs in range.
    open spec fn spec_stack_ready(self, sp: nat, sp_width: nat, end_address: usize) -> bool {
        match self {
            ExampleInstruction::Push { id_rr } => sp <= end_address,
            ExampleInstruction::Pop { id_rd } => (sp + 1) % pow2(sp_width) <= end_address,
            ExampleInstruction::Add { id_rd, id_rr } => true,
            ExampleInstruction::Jmp { val_k } => true,
            ExampleInstruction::Nop => true,
        }
    }

    /// What each instruction does to the two stores.
    open spec fn post_run(
        self,
        pre_registers: R,
        pre_ram: U,
        post_registers: R,
        post_ram: U,
        result: RegisterUpdate,
    ) -> bool {
        match self {
            ExampleInstruction::Add { id_rd, id_rr } => {
                &&& add_applied(pre_registers, post_registers, id_rd, id_rr)
                &&& post_ram == pre_ram
                &&& result.spec_cycles() == 1
                &&& result.spec_pc_update() == PointerUpdate::Increment
            },
            ExampleInstruction::Jmp { val_k } => {
                &&& post_registers == pre_registers
                &&& post_ram == pre_ram
                &&& result.spec_cycles() == 3
                &&& result.spec_pc_update() == PointerUpdate::Absolute(val_k)
            },
            ExampleInstruction::Push { id_rr } => {
                &&& push_applied(pre_registers, pre_ram, post_registers, post_ram, id_rr)
                &&& result.spec_cycles() == 2
                &&& result.spec_pc_update() == PointerUpdate::Increment
            },
            ExampleInstruction::Pop { id_rd } => {
                &&& pop_applied(pre_registers, pre_ram, post_registers, post_ram, id_rd)
                &&& result.spec_cycles() == 2
                &&& result.spec_pc_update() == PointerUpdate::Increment
            },
            ExampleInstruction::Nop => {
                &&& post_registers == pre_registers
                &&& post_ram == pre_ram
                &&& result.spec_cycles() == 1
                &&& result.spec_pc_update() == PointerUpdate::Increment
            },
        }
    }

    /// Execute the instruction.
    fn run(&self, registers: &mut R, user_ram: &mut U) -> (r: RegisterUpdate) {
        match self {
            ExampleInstruction::Add { id_rd, id_rr } => ExampleInstruction::add(
                registers,
                *id_rd,
                *id_rr,
            ),
            ExampleInstruction::Jmp { val_k } => ExampleInstruction::jmp(*val_k),
            ExampleInstruction::Push { id_rr } => ExampleInstruction::push(
                registers,
                user_ram,
                *id_rr,
            ),
            ExampleInstruction::Pop { id_rd } => ExampleInstruction::pop(
                registers,
                user_ram,
                *id_rd,
            ),
            ExampleInstruction::Nop => RegisterUpdate::new(1, PointerUpdate::Increment),
        }
    }
}

} // verus!
