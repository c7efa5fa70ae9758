use mcugears_core::Mcu;
use mcugears_core::instruction::{ExampleInstruction, ProgramCounterChange};
use mcugears_core::registers::{ExampleRegisters, RegisterType, Registers};

fn sample_program() -> Vec<ExampleInstruction> {
    vec![
        ExampleInstruction::Add { id_d: 0, id_r: 1 },
        ExampleInstruction::Nop,
        ExampleInstruction::Jmp { val_k: 0 },
    ]
}

#[test]
fn engine_runs_pure_instructions() {
    let mut registers = ExampleRegisters::new();
    registers.write_to(RegisterType::General { id: 0 }, 32);
    registers.write_to(RegisterType::General { id: 1 }, 41);
    let mut mcu = Mcu::new(registers, sample_program());

    let trace = mcu.next_pure();
    assert_eq!(
        trace,
        Some("[ADD]: Add Rd(0):32 and Rr(1):41, Result:Rd(0):73".to_string())
    );
    assert_eq!(
        mcu.registers().read_from(RegisterType::General { id: 0 }),
        73
    );
    assert_eq!(mcu.registers().read_from(RegisterType::ProgramCounter), 1);

    let trace = mcu.next_pure();
    assert_eq!(trace, Some("[NOP]: Single cycle no operation".to_string()));
    assert_eq!(mcu.registers().read_from(RegisterType::ProgramCounter), 2);

    let trace = mcu.next_pure();
    assert_eq!(
        trace,
        Some("[JMP]: Jump from:2 to:0, Result:PC:0".to_string())
    );
    assert_eq!(mcu.registers().read_from(RegisterType::ProgramCounter), 0);
}

#[test]
fn engine_side_effect_lane_skips_pure_instructions() {
    let registers = ExampleRegisters::new();
    let mut mcu = Mcu::new(registers, sample_program());

    // Every example instruction is pure, so the side-effect lane never
    // advances and leaves the engine untouched.
    let before = mcu.registers().clone();
    assert_eq!(mcu.next_side_effect(), None);
    assert_eq!(mcu.registers(), &before);

    // The pure lane advances instead: the two lanes partition the program.
    assert!(mcu.next_pure().is_some());
}

#[test]
fn engine_scenario_add_cycle() {
    // Two general registers holding 32 and 41, the program counter at 22,
    // the timer channel fed 63 cycles: one add cycle leaves 73 and 41, moves
    // the program counter to 23, and tips the prescaler over to 1.
    let mut registers = ExampleRegisters::new();
    registers.write_to(RegisterType::General { id: 12 }, 32);
    registers.write_to(RegisterType::General { id: 17 }, 41);
    registers.update_timer(63);
    let mut program = vec![ExampleInstruction::Nop; 23];
    program[22] = ExampleInstruction::Add { id_d: 12, id_r: 17 };
    registers.update_program_counter(ProgramCounterChange::Absolute(22));

    let mut mcu = Mcu::new(registers, program);
    let trace = mcu.next_pure();

    assert!(trace.is_some());
    assert_eq!(
        mcu.registers().read_from(RegisterType::General { id: 12 }),
        73
    );
    assert_eq!(
        mcu.registers().read_from(RegisterType::General { id: 17 }),
        41
    );
    assert_eq!(mcu.registers().read_from(RegisterType::ProgramCounter), 23);
    assert_eq!(mcu.registers().read_from(RegisterType::Timer { id: 0 }), 1);
}

#[test]
fn engine_iterator_handles() {
    let registers = ExampleRegisters::new();
    let mcu = Mcu::new(registers, sample_program());

    let mut pure_handle = mcu.to_pure_iter();
    assert!(pure_handle.next().is_some());
    let mcu = pure_handle.into_mcu();

    let mut side_effect_handle = mcu.to_side_effect_iter();
    assert_eq!(side_effect_handle.next(), None);
    let mcu = side_effect_handle.into_mcu();
    assert_eq!(mcu.registers().read_from(RegisterType::ProgramCounter), 1);
}
