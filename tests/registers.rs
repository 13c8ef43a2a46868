use rpu::registers::{RegisterFile, RegisterName};

#[test]
fn parse_registers() {
    let pairs = vec![
        ("gp0", RegisterName::gp0),
        ("gp1", RegisterName::gp1),
        ("gp2", RegisterName::gp2),
        ("gp3", RegisterName::gp3),
        ("gp4", RegisterName::gp4),
        ("gp5", RegisterName::gp5),
        ("gp6", RegisterName::gp6),
        ("gp7", RegisterName::gp7),
        ("ans", RegisterName::ans),
        ("dvc", RegisterName::dvc),
        ("out", RegisterName::out),
        ("pc", RegisterName::pc),
        ("sp", RegisterName::sp),
    ];
    for (text, expected) in pairs {
        let actual: RegisterName = RegisterName::try_parse(text).unwrap();
        assert_eq!(expected, actual);
    }
}

#[test]
#[should_panic]
fn write_out() {
    let mut file = RegisterFile::new();
    file.write(RegisterName::out, 7).unwrap();
}

#[test]
fn decode_registers() {
    let pairs: Vec<(u8, RegisterName)> = vec![
        (RegisterName::gp0 as u8, RegisterName::gp0),
        (RegisterName::gp1 as u8, RegisterName::gp1),
        (RegisterName::gp2 as u8, RegisterName::gp2),
        (RegisterName::gp3 as u8, RegisterName::gp3),
        (RegisterName::gp4 as u8, RegisterName::gp4),
        (RegisterName::gp5 as u8, RegisterName::gp5),
        (RegisterName::gp6 as u8, RegisterName::gp6),
        (RegisterName::gp7 as u8, RegisterName::gp7),
        (RegisterName::ans as u8, RegisterName::ans),
        (RegisterName::dvc as u8, RegisterName::dvc),
        (RegisterName::out as u8, RegisterName::out),
        (RegisterName::pc as u8, RegisterName::pc),
        (RegisterName::sp as u8, RegisterName::sp),
    ];
    for (byte, expected) in pairs {
        let actual: RegisterName = RegisterName::try_decode(byte).unwrap();
        assert_eq!(expected, actual);
    }
}

#[test]
fn encode_registers() {
    let pairs: Vec<(u8, RegisterName)> = vec![
        (0, RegisterName::gp0),
        (1, RegisterName::gp1),
        (2, RegisterName::gp2),
        (3, RegisterName::gp3),
        (4, RegisterName::gp4),
        (5, RegisterName::gp5),
        (6, RegisterName::gp6),
        (7, RegisterName::gp7),
        (8, RegisterName::ans),
        (9, RegisterName::dvc),
        (10, RegisterName::out),
        (11, RegisterName::pc),
        (12, RegisterName::sp),
    ];
    for (expected, register) in pairs {
        let actual: u8 = register as u8;
        assert_eq!(expected, actual);
        assert_eq!(expected, register.id());
    }
}

#[test]
fn unknown_register_name_is_reported() {
    let err = RegisterName::try_parse("gp8").unwrap_err();
    assert_eq!(
        err,
        rpu::registers::ParseError::NoSuchRegisterName(String::from("gp8"))
    );
}

#[test]
fn unknown_register_byte_is_reported() {
    assert_eq!(
        RegisterName::try_decode(13),
        Err(rpu::registers::DecodeError::NoSuchRegisterID(13))
    );
}

#[test]
fn register_file_starts_with_stack_at_top() {
    let mut file = RegisterFile::new();
    assert_eq!(file.read(RegisterName::sp), Ok(65534));
    assert_eq!(file.read(RegisterName::gp3), Ok(0));
    file.write(RegisterName::gp3, 99).unwrap();
    assert_eq!(file.read(RegisterName::gp3), Ok(99));
    assert_eq!(
        file.read(RegisterName::out),
        Err(rpu::registers::AccessError::PseudoRegister(RegisterName::out))
    );
}
