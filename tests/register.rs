use emu6502::register::{ByteRegister, WordRegister};

#[test]
fn byte_register() {
    let mut register = ByteRegister::new();
    assert_eq!(register.get(), 0);
    register.set(0x12);
    assert_eq!(register.get(), 0x12);
}

#[test]
fn word_register() {
    let mut register = WordRegister::new();
    assert_eq!(register.get(), 0);
    register.set(0x1234);
    assert_eq!(register.get(), 0x1234);
}

#[test]
fn byte_register_keeps_last_value() {
    let mut register = ByteRegister::new();
    register.set(0xFF);
    register.set(0x01);
    assert_eq!(register.get(), 0x01);
}
