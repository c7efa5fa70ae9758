use mcugears_core::instructions::{ExampleInstruction, Instruction};
use mcugears_core::registers::{
    ExampleRegisters, PointerUpdate, RegisterType, RegisterUpdate, Registers,
};
use mcugears_core::user_ram::{ExampleUserRam, RamAddress, UserRam};

#[test]
fn add_flag_table() {
    // Operand pairs with their wrapped results and the status byte the add
    // flag formulas give: half-carry at bit 5, sign at bit 4, overflow at
    // bit 3, negative at bit 2, zero at bit 1, carry at bit 0.
    let cases: Vec<([usize; 2], [usize; 2], usize, usize)> = vec![
        ([12, 100], [5, 31], 131, 0b00101100),
        ([3, 202], [25, 123], 69, 0b00100001),
        ([6, 1], [9, 2], 3, 0b00000000),
        ([2, 128], [4, 128], 0, 0b00011011),
    ];
    for (rd, rr, expected, status) in cases {
        let mut registers = ExampleRegisters::new();
        let mut user_ram = ExampleUserRam::new();
        registers.write_to(RegisterType::General { id: rd[0] }, rd[1]);
        registers.write_to(RegisterType::General { id: rr[0] }, rr[1]);

        let instruction = ExampleInstruction::Add {
            id_rd: rd[0],
            id_rr: rr[0],
        };
        let result = instruction.run(&mut registers, &mut user_ram);

        assert_eq!(
            registers.read_from(RegisterType::General { id: rd[0] }),
            expected,
            "Rd is wrong"
        );
        assert_eq!(
            registers.read_from(RegisterType::Status),
            status,
            "status is wrong"
        );
        assert_eq!(
            result,
            RegisterUpdate::new(1, PointerUpdate::Increment),
            "register update is wrong"
        );
    }
}

#[test]
fn jmp_requests_absolute_move() {
    let mut registers = ExampleRegisters::new();
    let mut user_ram = ExampleUserRam::new();
    registers.write_to(RegisterType::ProgramCounter, 100);

    let instruction = ExampleInstruction::Jmp { val_k: 1001 };
    let result = instruction.run(&mut registers, &mut user_ram);

    assert_eq!(
        result,
        RegisterUpdate::new(3, PointerUpdate::Absolute(1001)),
        "update is wrong"
    );
    assert_eq!(registers.read_from(RegisterType::Status), 0, "status is wrong");
}

#[test]
fn push() {
    let mut registers = ExampleRegisters::new();
    let mut user_ram = ExampleUserRam::new();
    registers.update_sp(PointerUpdate::Absolute(0x7F3));
    registers.write_to(RegisterType::General { id: 7 }, 127);

    let instruction = ExampleInstruction::Push { id_rr: 7 };
    let result = instruction.run(&mut registers, &mut user_ram);

    assert_eq!(
        result,
        RegisterUpdate::new(2, PointerUpdate::Increment),
        "update is wrong"
    );
    assert_eq!(user_ram.read_from(RamAddress(0x7F3)), 127);
    assert_eq!(registers.read_sp(), 0x7F2);
    assert_eq!(registers.read_from(RegisterType::Status), 0b0000_0000);
}

#[test]
fn pop() {
    let mut registers = ExampleRegisters::new();
    let mut user_ram = ExampleUserRam::new();
    registers.update_sp(PointerUpdate::Absolute(0x5F6));
    user_ram.write_to(RamAddress(0x5F7), 57);

    let instruction = ExampleInstruction::Pop { id_rd: 12 };
    let result = instruction.run(&mut registers, &mut user_ram);

    assert_eq!(result, RegisterUpdate::new(2, PointerUpdate::Increment));
    assert_eq!(registers.read_from(RegisterType::General { id: 12 }), 57);
    assert_eq!(registers.read_sp(), 0x5F7);
    assert_eq!(registers.read_from(RegisterType::Status), 0b0000_0000);
}

#[test]
fn nop() {
    let mut registers = ExampleRegisters::new();
    let mut user_ram = ExampleUserRam::new();

    let instruction = ExampleInstruction::Nop;
    let result = instruction.run(&mut registers, &mut user_ram);

    assert_eq!(result, RegisterUpdate::new(1, PointerUpdate::Increment));
    assert_eq!(registers, ExampleRegisters::new());
    assert_eq!(user_ram, ExampleUserRam::new());
}
