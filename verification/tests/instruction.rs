use mcugears_core::instruction::{
    ExampleInstruction, Instruction, InstructionResult, ProgramCounterChange,
};
use mcugears_core::registers::{
    ExampleRegisters, RegisterOperation, RegisterType, Registers,
};
use mcugears_core::trace::decimal;

#[test]
fn test_instruction_run_add() {
    let mut registers = ExampleRegisters::new();
    registers.execute(RegisterOperation::Write {
        register_type: RegisterType::General { id: 14 },
        value: 33,
    });
    registers.execute(RegisterOperation::Write {
        register_type: RegisterType::General { id: 19 },
        value: 22,
    });
    let instruction = ExampleInstruction::Add { id_d: 14, id_r: 19 };
    let result = instruction.run(&mut registers);

    assert_eq!(
        result,
        InstructionResult::new(
            "[ADD]: Add Rd(14):33 and Rr(19):22, Result:Rd(14):55",
            1,
            ProgramCounterChange::Default,
        )
    );
}

#[test]
fn test_instruction_run_jmp() {
    let mut registers = ExampleRegisters::new();
    registers.update_program_counter(ProgramCounterChange::Absolute(15));
    let instruction = ExampleInstruction::Jmp { val_k: 1202 };
    let result = instruction.run(&mut registers);

    assert_eq!(
        result,
        InstructionResult::new(
            "[JMP]: Jump from:15 to:1202, Result:PC:1202",
            3,
            ProgramCounterChange::Jumped,
        )
    );
}

#[test]
fn test_empty_operation() {
    let mut registers = ExampleRegisters::new();
    let instruction = ExampleInstruction::Empty;
    let result = instruction.run(&mut registers);

    assert_eq!(
        result,
        InstructionResult::new(
            "[EMPTY]: This is empty address for instructions longer than the base instruction length",
            0,
            ProgramCounterChange::Default,
        )
    );
}

#[test]
fn test_nop() {
    let mut registers = ExampleRegisters::new();
    let instruction = ExampleInstruction::Nop;
    let result = instruction.run(&mut registers);

    assert_eq!(
        result,
        InstructionResult::new(
            "[NOP]: Single cycle no operation",
            1,
            ProgramCounterChange::Default,
        )
    );
}

#[test]
fn test_is_sideefect_default() {
    let instruction_add = ExampleInstruction::Add { id_d: 3, id_r: 2 };
    let instruction_jmp = ExampleInstruction::Jmp { val_k: 112 };

    assert!(!<ExampleInstruction as Instruction<ExampleRegisters>>::is_side_effect(
        &instruction_add
    ));
    assert!(!<ExampleInstruction as Instruction<ExampleRegisters>>::is_side_effect(
        &instruction_jmp
    ));
}

#[test]
fn test_run_cycle() {
    let mut registers = ExampleRegisters::new();
    registers.execute(RegisterOperation::Write {
        register_type: RegisterType::General { id: 12 },
        value: 32,
    });
    registers.execute(RegisterOperation::Write {
        register_type: RegisterType::General { id: 17 },
        value: 41,
    });
    registers.update_program_counter(ProgramCounterChange::Absolute(22));
    registers.update_timer(63);

    ExampleInstruction::Add { id_d: 12, id_r: 17 }.run_cycle(&mut registers);

    assert_eq!(registers.read_from(RegisterType::General { id: 12 }), 73);
    assert_eq!(registers.read_from(RegisterType::General { id: 17 }), 41);
    assert_eq!(registers.read_from(RegisterType::ProgramCounter), 23);
    assert_eq!(registers.read_from(RegisterType::Timer { id: 0 }), 1);
}

#[test]
fn instruction_result_accessors() {
    let result = InstructionResult::new("trace", 7, ProgramCounterChange::Absolute(12));
    assert_eq!(result.clocks(), 7);
    assert_eq!(
        result.program_couter_change(),
        ProgramCounterChange::Absolute(12)
    );
    assert_eq!(result.debug_info(), "trace".to_string());
}

#[test]
fn decimal_rendering() {
    assert_eq!(decimal(0), "0".to_string());
    assert_eq!(decimal(7), "7".to_string());
    assert_eq!(decimal(10), "10".to_string());
    assert_eq!(decimal(1202), "1202".to_string());
    assert_eq!(decimal(65535), "65535".to_string());
}
