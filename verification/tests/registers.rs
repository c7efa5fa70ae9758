use mcugears_core::instruction::ProgramCounterChange;
use mcugears_core::registers::{
    BitOperation, ExampleRegisters, PointerUpdate, RegisterOperation, RegisterType, RegisterUpdate,
    Registers,
};

// Bit utilities.

#[test]
fn get_bit() {
    let set: usize = 0b0000_1000;
    assert!(set.get_bit(3));
    let clear: usize = 0b0000_0010;
    assert!(!clear.get_bit(5));
}

#[test]
fn generate_from_bit() {
    let flags = vec![Some(false), Some(true), None, None];
    let status: usize = 0b0010;

    assert_eq!(status.generate_from_bit(&flags), 0b0110)
}

#[test]
fn generate_as_complement() {
    let positive: usize = 0b010110;
    assert_eq!(positive.generate_as_complement(6), 22);
    let negative: usize = 0b11100;
    assert_eq!(negative.generate_as_complement(5), -4);
    let minus_one: usize = 0b11111111;
    assert_eq!(minus_one.generate_as_complement(8), -1);
}

#[test]
fn generate_as_complement_full_word() {
    let word: usize = usize::BITS as usize;
    assert_eq!(usize::MAX.generate_as_complement(word), -1);
    let most_negative: usize = 1usize << (usize::BITS - 1);
    assert_eq!(most_negative.generate_as_complement(word), isize::MIN);
    let small: usize = 5;
    assert_eq!(small.generate_as_complement(word), 5);
}

// Initialisation.

#[test]
fn registers_initialize() {
    let mut expected = ExampleRegisters {
        general: vec![0; 32],
        status: 0,
        stack_pointer: 0,
        program_counter: 0,
        io: vec![0; 256],
        timer: 0,
        timer_interval: 0,
    };
    expected.stack_pointer = 0x8FF;

    let registers = ExampleRegisters::new();
    assert_eq!(registers, expected)
}

// Reads and writes.

#[test]
fn write() {
    let mut registers = ExampleRegisters::new();
    let register_type = RegisterType::General { id: 14 };

    registers.write_to(register_type, 140);

    let mut expected = ExampleRegisters::new();
    expected.general[14] = 140;

    assert_eq!(registers, expected);
}

#[test]
fn registers_read() {
    let mut registers = ExampleRegisters::new();
    let register_type = RegisterType::General { id: 11 };
    registers.write_to(register_type, 24);

    let value = registers.read_from(register_type);

    assert_eq!(value, 24);
}

#[test]
fn write_read_truncation() {
    let cases: Vec<(RegisterType, usize, usize)> = vec![
        (RegisterType::General { id: 22 }, 310, 54),
        (RegisterType::Status, 288, 32),
        (RegisterType::StackPointer, 65635, 99),
        (RegisterType::ProgramCounter, 66222, 686),
        (RegisterType::Io { id: 28 }, 400, 144),
    ];
    for (register_type, value, expected) in cases {
        let mut registers = ExampleRegisters::new();
        registers.write_to(register_type, value);
        assert_eq!(registers.read_from(register_type), expected);
    }
}

// Arithmetic helpers.

#[test]
fn calculate() {
    let cases: Vec<(&str, RegisterType, usize, usize)> = vec![
        ("add", RegisterType::General { id: 30 }, 63, 163),
        ("add", RegisterType::General { id: 11 }, 250, 94),
        ("sub", RegisterType::General { id: 13 }, 12, 88),
        ("sub", RegisterType::General { id: 7 }, 108, 248),
        ("mul", RegisterType::General { id: 4 }, 2, 200),
        ("mul", RegisterType::General { id: 24 }, 7, 188),
        ("div", RegisterType::General { id: 8 }, 4, 25),
        ("div", RegisterType::General { id: 20 }, 1000, 0),
    ];
    for (operation, register_type, value, expected) in cases {
        let mut registers = ExampleRegisters::new();
        registers.write_to(register_type, 100);
        match operation {
            "add" => registers.add_to(register_type, value),
            "sub" => registers.sub_from(register_type, value),
            "mul" => registers.mul_to(register_type, value),
            _ => registers.div_from(register_type, value),
        }
        assert_eq!(registers.read_from(register_type), expected);
    }
}

// Pointer shorthands.

#[test]
fn read_pc() {
    let mut registers = ExampleRegisters::new();
    registers.write_to(RegisterType::ProgramCounter, 1552);

    assert_eq!(registers.read_pc(), 1552);
}

#[test]
fn read_sp() {
    let mut registers = ExampleRegisters::new();
    registers.write_to(RegisterType::StackPointer, 0x3FF);

    assert_eq!(registers.read_sp(), 0x3FF);
}

// Pointer updates.

#[test]
fn update_pc() {
    let cases: Vec<(PointerUpdate, usize)> = vec![
        (PointerUpdate::Increment, 31),
        (PointerUpdate::Decrement, 29),
        (PointerUpdate::Relative(14), 44),
        (PointerUpdate::Relative(-13), 17),
        (PointerUpdate::Absolute(52), 52),
    ];
    for (pc_update, expected) in cases {
        let mut registers = ExampleRegisters::new();
        registers.write_to(RegisterType::ProgramCounter, 30);
        registers.update_pc(pc_update);
        assert_eq!(registers.read_pc(), expected);
    }
}

#[test]
fn update_sp() {
    let cases: Vec<(PointerUpdate, usize)> = vec![
        (PointerUpdate::Increment, 0x6F4),
        (PointerUpdate::Decrement, 0x6F2),
        (PointerUpdate::Relative(3), 0x6F6),
        (PointerUpdate::Relative(-15), 0x6E4),
        (PointerUpdate::Absolute(0x552), 0x552),
    ];
    for (sp_update, expected) in cases {
        let mut registers = ExampleRegisters::new();
        registers.write_to(RegisterType::StackPointer, 0x6F3);
        registers.update_sp(sp_update);
        assert_eq!(registers.read_sp(), expected);
    }
}

#[test]
fn update() {
    let mut registers = ExampleRegisters::new();
    registers.write_to(RegisterType::ProgramCounter, 105);
    let register_update = RegisterUpdate::new(1, PointerUpdate::Increment);

    register_update.update(&mut registers);

    assert_eq!(registers.read_pc(), 106);
}

#[test]
fn update_advances_timer() {
    let mut registers = ExampleRegisters::new();
    registers.write_to(RegisterType::ProgramCounter, 10);
    registers.update_timer(63);

    RegisterUpdate::new(1, PointerUpdate::Increment).update(&mut registers);

    assert_eq!(registers.read_pc(), 11);
    assert_eq!(registers.read_from(RegisterType::Timer { id: 0 }), 1);
}

// Program-counter directives.

#[test]
fn update_program_counter_directives() {
    let wrapped_minus_three: usize = 0xFFFD;
    let cases: Vec<(ProgramCounterChange, usize)> = vec![
        (ProgramCounterChange::Default, 31),
        (ProgramCounterChange::Absolute(1202), 1202),
        (ProgramCounterChange::Relative(14), 44),
        (ProgramCounterChange::Relative(wrapped_minus_three), 27),
        (ProgramCounterChange::Jumped, 30),
    ];
    for (change, expected) in cases {
        let mut registers = ExampleRegisters::new();
        registers.write_to(RegisterType::ProgramCounter, 30);
        registers.update_program_counter(change);
        assert_eq!(registers.read_pc(), expected);
    }
}

// Register operations.

#[test]
fn execute_operations() {
    let mut registers = ExampleRegisters::new();
    registers.execute(RegisterOperation::Write {
        register_type: RegisterType::General { id: 1 },
        value: 5,
    });
    registers.execute(RegisterOperation::Add {
        register_type: RegisterType::General { id: 1 },
        value: 10,
    });
    registers.execute(RegisterOperation::NoOp);
    assert_eq!(registers.read_from(RegisterType::General { id: 1 }), 15);
}

#[test]
fn execute_batch_in_order() {
    let mut registers = ExampleRegisters::new();
    let operations = vec![
        RegisterOperation::Write {
            register_type: RegisterType::General { id: 2 },
            value: 250,
        },
        RegisterOperation::Add {
            register_type: RegisterType::General { id: 2 },
            value: 10,
        },
        RegisterOperation::NoOp,
    ];
    registers.execute_batch(&operations);
    assert_eq!(registers.read_from(RegisterType::General { id: 2 }), 4);
}

// Timer accumulation.

#[test]
fn update_timer_prescales() {
    let mut registers = ExampleRegisters::new();
    registers.update_timer(63);
    assert_eq!(registers.read_from(RegisterType::Timer { id: 0 }), 0);
    registers.update_timer(1);
    assert_eq!(registers.read_from(RegisterType::Timer { id: 0 }), 1);
    registers.update_timer(129);
    assert_eq!(registers.read_from(RegisterType::Timer { id: 0 }), 3);
}

#[test]
fn update_timer_accumulation_matches_batch() {
    let mut incremental = ExampleRegisters::new();
    incremental.update_timer(63);
    incremental.update_timer(1);
    incremental.update_timer(200);

    let mut batch = ExampleRegisters::new();
    batch.update_timer(264);

    assert_eq!(incremental, batch);
    assert_eq!(batch.read_from(RegisterType::Timer { id: 0 }), 4);
}
