use mcugears_core::data_space::{DataAddress, DataSpace, ExampleDataSpace};

#[test]
fn test_write_read() {
    let mut data_space = ExampleDataSpace::new();
    data_space.write_to(DataAddress::Byte(510), 134);
    assert_eq!(data_space.read_from(DataAddress::Byte(510)), 134);
}

#[test]
fn data_space_write_truncates() {
    let mut data_space = ExampleDataSpace::new();
    data_space.write_to(DataAddress::Byte(12), 300);
    assert_eq!(data_space.read_from(DataAddress::Byte(12)), 44);
}
