use rpu::instructions::{Instruction, InstructionName};
use rpu::programs::{CompilationError, Program};
use rpu::registers::RegisterName;

#[test]
fn compile_valid_code() {
    let source = ["put 7 gp0", "put 5 gp1", "add gp1 gp0", "copy ans out"];
    let source = source.join("\n");
    let program = Program::try_compile(&source).unwrap();
    assert_eq!(program.size(), 16);
}

#[test]
fn compile_code_with_comments() {
    let source = [
        "put 7 gp0",
        "put 5 gp1",
        "# add the values",
        "add gp1 gp0",
        "copy ans out",
    ];
    let source = source.join("\n");
    let program = Program::try_compile(&source).unwrap();
    assert_eq!(program.size(), 16);
}

#[test]
fn compile_code_with_blank_lines() {
    let source = ["put 7 gp0", "put 5 gp1", "", "add gp1 gp0", "copy ans out"];
    let source = source.join("\n");
    let program = Program::try_compile(&source).unwrap();
    assert_eq!(program.size(), 16);
}

#[test]
fn test_address_replacement() {
    let source = ["put 7 gp0", "copy ans out .LABEL", "put .LABEL gp1"];
    let source = source.join("\n");
    let program = Program::try_compile(&source).unwrap();

    let mut memory: Vec<u8> = vec![];
    for byte in program.bytes() {
        memory.push(byte);
    }

    // put 7 gp0
    assert_eq!(memory[0], InstructionName::put as u8);
    assert_eq!(memory[1], 7);
    assert_eq!(memory[2], 0);
    assert_eq!(memory[3], RegisterName::gp0 as u8);

    // copy ans out
    assert_eq!(memory[4], InstructionName::copy as u8);
    assert_eq!(memory[5], RegisterName::ans as u8);
    assert_eq!(memory[6], RegisterName::out as u8);
    assert_eq!(memory[7], 0);

    // put .LABEL (4) gp1
    assert_eq!(memory[8], InstructionName::put as u8);
    assert_eq!(memory[9], 4);
    assert_eq!(memory[10], 0);
    assert_eq!(memory[11], RegisterName::gp1 as u8);
}

#[test]
fn test_iterator() {
    let source = ["put 7 gp0", "copy ans out"];
    let source = source.join("\n");
    let program = Program::try_compile(&source).unwrap();

    let mut memory: Vec<u8> = vec![];
    for byte in program.bytes() {
        memory.push(byte);
    }

    // put 7 gp0
    assert_eq!(memory[0], InstructionName::put as u8);
    assert_eq!(memory[1], 7);
    assert_eq!(memory[2], 0);
    assert_eq!(memory[3], RegisterName::gp0 as u8);

    // copy ans out
    assert_eq!(memory[4], InstructionName::copy as u8);
    assert_eq!(memory[5], RegisterName::ans as u8);
    assert_eq!(memory[6], RegisterName::out as u8);
    assert_eq!(memory[7], 0);
}

#[test]
fn test_source_lines() {
    let source = ["put 7 gp0", "# comment", "copy ans out"];
    let source = source.join("\n");
    let program = Program::try_compile(&source).unwrap();
    assert_eq!(&program.source_lines[1], "# comment");
}

#[test]
fn test_source_addrs() {
    let source = ["put 7 gp0", "# comment", "copy ans out"];
    let source = source.join("\n");
    let program = Program::try_compile(&source).unwrap();

    assert_eq!(*program.source_addrs.get(&0).unwrap(), 0);
    assert_eq!(*program.source_addrs.get(&4).unwrap(), 2);
    assert_eq!(program.source_addrs.get(&8), None);
}

#[test]
fn forward_label_reference_resolves() {
    let source = "put .END gp0\nnoop\n; comment\n\njump gp0 gp1 .END\nhalt .END";
    let program = Program::try_compile(source).unwrap();
    assert_eq!(program.instructions[0], Instruction::put(8, RegisterName::gp0));
    assert_eq!(
        program.instructions[2],
        Instruction::jump(RegisterName::gp0, RegisterName::gp1)
    );
    assert_eq!(program.size(), 16);
}

#[test]
fn undefined_label_fails_compilation() {
    let source = "put 1 gp0\nput .NOWHERE gp1\nput .ALSO gp2";
    match Program::try_compile(source) {
        Err(CompilationError::UndefinedLabel(t)) => assert_eq!(t, ".NOWHERE"),
        Err(other) => panic!("unexpected error {:?}", other),
        Ok(_) => panic!("compiled a reference to an undefined label"),
    }
}

#[test]
fn parse_error_fails_compilation() {
    let source = "put 1 gp0\nfly gp0";
    match Program::try_compile(source) {
        Err(CompilationError::InstructionParseError(e)) => assert_eq!(
            e,
            rpu::instructions::ParseError::NoSuchInstruction(String::from("fly"))
        ),
        Err(other) => panic!("unexpected error {:?}", other),
        Ok(_) => panic!("compiled an unknown mnemonic"),
    }
}

#[test]
fn compiling_twice_gives_the_same_bytes() {
    let source = "put .L gp0\n# c\nadd gp0 gp1 .L\ncopy ans out\r\nhalt";
    let a = Program::try_compile(source).unwrap();
    let b = Program::try_compile(source).unwrap();
    assert_eq!(a.bytes(), b.bytes());
    assert_eq!(a.source_lines, b.source_lines);
    assert_eq!(a.source_lines[3], "copy ans out");
}

#[test]
fn first_label_definition_wins() {
    let source = "noop .A\nnoop .A\nput .A gp0";
    let program = Program::try_compile(source).unwrap();
    assert_eq!(program.instructions[2], Instruction::put(0, RegisterName::gp0));
}

#[test]
fn empty_source_compiles_to_nothing() {
    let program = Program::try_compile("").unwrap();
    assert_eq!(program.size(), 0);
    assert!(program.bytes().is_empty());
    assert!(program.source_lines.is_empty());
}

#[test]
fn each_byte_walks_the_encoding_once() {
    let program = Program::try_compile("put 258 gp1\npush gp1").unwrap();
    let mut each = rpu::programs::EachByte::new(&program);
    let mut seen: Vec<u8> = vec![];
    while let Some(b) = each.next() {
        seen.push(b);
    }
    assert_eq!(seen, vec![7, 2, 1, 1, 10, 1, 0, 0]);
    assert_eq!(each.next(), None);
    assert_eq!(seen, program.bytes());
}
