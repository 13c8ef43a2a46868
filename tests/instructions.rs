use rpu::instructions::{DecodeError, Instruction, InstructionName, ParseError};
use rpu::registers::RegisterName;

fn word(b: [u8; 4]) -> u32 {
    u32::from_le_bytes(b)
}

fn pairs() -> Vec<(Instruction, u32)> {
    vec![
        (Instruction::halt, word([InstructionName::halt as u8, 0, 0, 0])),
        (
            Instruction::add { x: RegisterName::gp2, y: RegisterName::gp1 },
            word([
                InstructionName::add as u8,
                RegisterName::gp2 as u8,
                RegisterName::gp1 as u8,
                0,
            ]),
        ),
        (
            Instruction::copy(RegisterName::gp3, RegisterName::out),
            word([
                InstructionName::copy as u8,
                RegisterName::gp3 as u8,
                RegisterName::out as u8,
                0,
            ]),
        ),
        (
            Instruction::jump(RegisterName::gp7, RegisterName::gp6),
            word([
                InstructionName::jump as u8,
                RegisterName::gp7 as u8,
                RegisterName::gp6 as u8,
                0,
            ]),
        ),
        (
            Instruction::mul { x: RegisterName::gp2, y: RegisterName::gp1 },
            word([
                InstructionName::mul as u8,
                RegisterName::gp2 as u8,
                RegisterName::gp1 as u8,
                0,
            ]),
        ),
        (Instruction::noop, word([InstructionName::noop as u8, 0, 0, 0])),
        (
            Instruction::put(7, RegisterName::gp0),
            word([
                InstructionName::put as u8,
                7_u16.to_le_bytes()[0],
                7_u16.to_le_bytes()[1],
                RegisterName::gp0 as u8,
            ]),
        ),
        (
            Instruction::sub { x: RegisterName::gp2, y: RegisterName::gp1 },
            word([
                InstructionName::sub as u8,
                RegisterName::gp2 as u8,
                RegisterName::gp1 as u8,
                0,
            ]),
        ),
        (
            Instruction::write(RegisterName::gp2, RegisterName::gp1),
            word([
                InstructionName::write as u8,
                RegisterName::gp2 as u8,
                RegisterName::gp1 as u8,
                0,
            ]),
        ),
        (
            Instruction::read(RegisterName::gp2, RegisterName::gp1),
            word([
                InstructionName::read as u8,
                RegisterName::gp2 as u8,
                RegisterName::gp1 as u8,
                0,
            ]),
        ),
    ]
}

#[test]
fn parse_instructions() {
    let pairs = vec![
        ("halt", Instruction::halt),
        (
            "add gp0 gp1",
            Instruction::add { x: RegisterName::gp0, y: RegisterName::gp1 },
        ),
        (
            "copy ans out",
            Instruction::copy(RegisterName::ans, RegisterName::out),
        ),
        (
            "jump gp2 gp7",
            Instruction::jump(RegisterName::gp2, RegisterName::gp7),
        ),
        (
            "mul gp0 gp1",
            Instruction::mul { x: RegisterName::gp0, y: RegisterName::gp1 },
        ),
        ("noop", Instruction::noop),
        ("put 7 gp0", Instruction::put(7, RegisterName::gp0)),
        (
            "sub gp0 gp1",
            Instruction::sub { x: RegisterName::gp0, y: RegisterName::gp1 },
        ),
        (
            "write gp0 gp1",
            Instruction::write(RegisterName::gp0, RegisterName::gp1),
        ),
        (
            "read gp0 gp1",
            Instruction::read(RegisterName::gp0, RegisterName::gp1),
        ),
    ];
    for (text, expected) in pairs {
        let actual = Instruction::try_from_str(text).unwrap();
        assert_eq!(actual, expected);
    }
}

#[test]
fn encode_instructions() {
    for (instr, expected) in pairs() {
        let actual = instr.to_u32();
        assert_eq!(actual, expected);
    }
}

#[test]
fn decode_instructions() {
    for (expected, encoded) in pairs() {
        let actual = Instruction::try_from_u32(encoded).unwrap();
        assert_eq!(expected, actual);
    }
}

#[test]
fn stack_instructions_round_trip() {
    let cases = vec![
        Instruction::push(RegisterName::gp4),
        Instruction::pop(RegisterName::sp),
        Instruction::put(258, RegisterName::dvc),
        Instruction::put(65535, RegisterName::gp7),
    ];
    for i in cases {
        assert_eq!(Instruction::try_from_u32(i.to_u32()), Ok(i));
    }
    assert_eq!(
        Instruction::put(258, RegisterName::dvc).to_u32(),
        word([7, 2, 1, 9])
    );
    assert_eq!(
        Instruction::try_from_str("push gp4").unwrap(),
        Instruction::push(RegisterName::gp4)
    );
    assert_eq!(
        Instruction::try_from_str("pop sp").unwrap(),
        Instruction::pop(RegisterName::sp)
    );
}

#[test]
fn zero_opcode_is_halt_whatever_follows() {
    assert_eq!(Instruction::try_from_u32(word([0, 255, 17, 3])), Ok(Instruction::halt));
    assert_eq!(Instruction::try_from_u32(0), Ok(Instruction::halt));
}

#[test]
fn unknown_opcode_is_reported() {
    assert_eq!(
        Instruction::try_from_u32(word([200, 0, 0, 0])),
        Err(DecodeError::NoSuchInstruction(200))
    );
    assert_eq!(
        Instruction::try_from_u32(word([1, 0, 13, 0])),
        Err(DecodeError::Register(
            rpu::registers::DecodeError::NoSuchRegisterID(13)
        ))
    );
}

#[test]
fn parse_errors_name_the_token() {
    assert_eq!(
        Instruction::try_from_str("jmp gp0 gp1"),
        Err(ParseError::NoSuchInstruction(String::from("jmp")))
    );
    assert_eq!(
        Instruction::try_from_str("add gp0 gp9"),
        Err(ParseError::Register(
            rpu::registers::ParseError::NoSuchRegisterName(String::from("gp9"))
        ))
    );
    assert_eq!(
        Instruction::try_from_str("put 65536 gp0"),
        Err(ParseError::InvalidValue(String::from("65536")))
    );
    assert_eq!(
        Instruction::try_from_str("put x1 gp0"),
        Err(ParseError::InvalidValue(String::from("x1")))
    );
    assert_eq!(
        Instruction::try_from_str("copy gp0"),
        Err(ParseError::MissingOperand(String::from("copy")))
    );
    assert_eq!(
        Instruction::try_from_str("   "),
        Err(ParseError::NoSuchInstruction(String::new()))
    );
}

#[test]
fn literals_and_spacing() {
    assert_eq!(
        Instruction::try_from_str("  put\t+65535   gp3  trailing").unwrap(),
        Instruction::put(65535, RegisterName::gp3)
    );
    assert_eq!(
        Instruction::try_from_str("put 007 gp0").unwrap(),
        Instruction::put(7, RegisterName::gp0)
    );
}
