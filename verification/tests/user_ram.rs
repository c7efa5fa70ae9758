use mcugears_core::user_ram::{ExampleUserRam, RamAddress, UserRam};

#[test]
fn user_ram_initialize() {
    let user_ram = ExampleUserRam::new();

    assert_eq!(user_ram, ExampleUserRam(vec![0; 0x8FF + 1]))
}

#[test]
fn user_ram_read() {
    let mut user_ram = ExampleUserRam::new();

    user_ram.0[0x1FF] = 21;

    assert_eq!(user_ram.read_from(RamAddress(0x1FF)), 21);
}

#[test]
fn user_ram_write() {
    let mut user_ram = ExampleUserRam::new();

    user_ram.write_to(RamAddress(0x1F3), 110);
    assert_eq!(user_ram.read_from(RamAddress(0x1F3)), 110);

    user_ram.write_to(RamAddress(0x300), 420);
    assert_eq!(user_ram.read_from(RamAddress(0x300)), 164);
}

#[test]
fn user_ram_bounds() {
    assert_eq!(ExampleUserRam::get_start_address(), 0x0100);
    assert_eq!(ExampleUserRam::get_end_address(), 0x08FF);
}
