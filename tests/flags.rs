use moscore::machine::Flags;

#[test]
fn test_as_byte() {
    let mut f = Flags::new();
    f.set_carry(true);
    f.set_negative(true);
    let byte = f.as_byte();

    assert_eq!(byte, 0b1000_0001);
}

#[test]
fn test_from_byte() {
    let byte = 0b1000_0011;
    let mut f = Flags::new();
    f.from_byte(byte);

    assert_eq!(f.carry, true);
    assert_eq!(f.negative, true);
    assert_eq!(f.zero, true);
}
