use rpu::cpu::{BootError, Core, DeviceWrite, ExecutionError};
use rpu::devices::{Buffer, Device, Error};
use rpu::instructions::{DecodeError, InstructionName};
use rpu::programs::Program;
use rpu::registers::{AccessError, RegisterName};

fn run(core: &mut Core, steps: usize) {
    let mut lcd0 = Buffer(vec![]);
    let mut lcd1 = Buffer(vec![]);
    for _ in 0..steps {
        core.execute_single_instruction(&mut lcd0, &mut lcd1).unwrap();
    }
}

#[test]
fn test_tty() {
    let mut core = Core::new();
    core.write_tty(55);
    assert_eq!(&core.tty, "7");
}

#[test]
fn core_test_loading() {
    let mut core = Core::new();
    let source = ["put 7 gp0", "copy ans out"];
    let source = source.join("\n");
    let program = Program::try_compile(&source).unwrap();

    core.load_program(&program).unwrap();

    // put 7 gp0
    assert_eq!(core.memory[0], InstructionName::put as u8);
    assert_eq!(core.memory[1], 7);
    assert_eq!(core.memory[2], 0);
    assert_eq!(core.memory[3], RegisterName::gp0 as u8);

    // copy ans out
    assert_eq!(core.memory[4], InstructionName::copy as u8);
    assert_eq!(core.memory[5], RegisterName::ans as u8);
    assert_eq!(core.memory[6], RegisterName::out as u8);
    assert_eq!(core.memory[7], 0);
}

#[test]
fn test_memory() {
    let mut core = Core::new();
    assert_eq!(core.memory[100], 0);
    assert_eq!(core.memory[101], 0);

    let source = ["put 258 gp0", "put 100 gp1", "write gp0 gp1", "read gp1 gp2"];
    let source = source.join("\n");
    let program = Program::try_compile(&source).unwrap();
    core.load_program(&program).unwrap();

    let mut lcd0 = Buffer(vec![]);
    let mut lcd1 = Buffer(vec![]);
    core.execute_single_instruction(&mut lcd0, &mut lcd1).unwrap();
    core.execute_single_instruction(&mut lcd0, &mut lcd1).unwrap();
    core.execute_single_instruction(&mut lcd0, &mut lcd1).unwrap();
    core.execute_single_instruction(&mut lcd0, &mut lcd1).unwrap();

    assert_eq!(core.memory[100], 2);
    assert_eq!(core.memory[101], 1);
    assert_eq!(core.register_file.gp2, 258);
}

#[test]
fn test_stack_underflow() {
    let mut core = Core::new();
    let error = core.pop(RegisterName::gp0);
    assert_eq!(error, Err(ExecutionError::StackUnderflow));
}

#[test]
fn test_stack_overflow() {
    let mut core = Core::new();
    core.register_file.write(RegisterName::sp, 0).unwrap();
    let error = core.push(RegisterName::gp0);
    assert_eq!(error, Err(ExecutionError::StackOverflow));
}

#[test]
fn test_stack() {
    let mut core = Core::new();
    core.put(7, RegisterName::gp0).unwrap();
    core.push(RegisterName::gp0).unwrap();
    core.put(14, RegisterName::gp0).unwrap();
    core.push(RegisterName::gp0).unwrap();
    core.put(21, RegisterName::gp0).unwrap();
    core.push(RegisterName::gp0).unwrap();

    core.pop(RegisterName::gp1).unwrap();
    let gp1 = core.register_file.read(RegisterName::gp1).unwrap();
    assert_eq!(gp1, 21);

    core.pop(RegisterName::gp1).unwrap();
    let gp1 = core.register_file.read(RegisterName::gp1).unwrap();
    assert_eq!(gp1, 14);

    core.pop(RegisterName::gp1).unwrap();
    let gp1 = core.register_file.read(RegisterName::gp1).unwrap();
    assert_eq!(gp1, 7);
}

#[test]
fn console_receives_code_unit_of_sum() {
    let mut core = Core::new();
    core.load_source("put 7 gp0\nput 5 gp1\nadd gp1 gp0\ncopy ans out").unwrap();
    core.register_file.dvc = 2;
    run(&mut core, 4);
    assert_eq!(core.register_file.ans, 12);
    assert_eq!(&core.tty, "\u{c}");
    assert_eq!(core.register_file.pc, 16);
}

#[test]
fn console_replaces_lone_surrogate() {
    let mut core = Core::new();
    core.write_tty(0xD800);
    core.write_tty(0x41);
    assert_eq!(&core.tty, "\u{FFFD}A");
}

#[test]
fn copy_to_out_selects_device_by_dvc() {
    let mut core = Core::new();
    core.load_source("put 9 gp0\ncopy gp0 out\nput 1 dvc\ncopy gp0 out").unwrap();
    let mut lcd0 = Buffer(vec![]);
    let mut lcd1 = Buffer(vec![]);
    for _ in 0..4 {
        assert_eq!(core.execute_single_instruction(&mut lcd0, &mut lcd1), Ok(false));
    }
    assert_eq!(lcd0.0, vec![9]);
    assert_eq!(lcd1.0, vec![9]);
    assert_eq!(&core.tty, "");
    core.register_file.dvc = 0;
    assert_eq!(
        core.copy(RegisterName::gp0, RegisterName::out),
        Ok(Some(DeviceWrite { slot: 0, value: 9 }))
    );
}

struct Refusing;

impl Device for Refusing {
    fn write(&mut self, _value: u16) -> Result<(), Error> {
        Err(Error::Write(String::from("full")))
    }

    fn read(&mut self) -> Result<Option<u16>, Error> {
        Ok(None)
    }
}

#[test]
fn device_refusal_is_reported_and_pc_stays() {
    let mut core = Core::new();
    core.load_source("copy gp0 out").unwrap();
    let mut lcd1 = Buffer(vec![]);
    assert_eq!(
        core.execute_single_instruction(&mut Refusing, &mut lcd1),
        Err(ExecutionError::Device(Error::Write(String::from("full"))))
    );
    assert_eq!(core.register_file.pc, 0);
}

#[test]
fn forbidden_operands() {
    let mut core = Core::new();
    for r in [RegisterName::pc, RegisterName::ans, RegisterName::out] {
        assert_eq!(core.put(1, r), Err(ExecutionError::CannotPut(r)));
    }
    assert_eq!(
        core.add(RegisterName::out, RegisterName::gp0),
        Err(ExecutionError::CannotAdd(RegisterName::out))
    );
    assert_eq!(
        core.sub(RegisterName::gp0, RegisterName::out),
        Err(ExecutionError::CannotAdd(RegisterName::out))
    );
    assert_eq!(
        core.mul(RegisterName::out, RegisterName::gp0),
        Err(ExecutionError::CannotAdd(RegisterName::out))
    );
    assert_eq!(
        core.copy(RegisterName::out, RegisterName::gp1),
        Err(ExecutionError::CannotCpFrom(RegisterName::gp1))
    );
    assert_eq!(
        core.copy(RegisterName::gp0, RegisterName::pc),
        Err(ExecutionError::CannotCpTo(RegisterName::pc))
    );
    assert_eq!(
        core.copy(RegisterName::gp0, RegisterName::ans),
        Err(ExecutionError::CannotCpTo(RegisterName::ans))
    );
    assert_eq!(
        core.write(RegisterName::out, RegisterName::gp0),
        Err(ExecutionError::CannotCpFrom(RegisterName::out))
    );
    assert_eq!(
        core.write(RegisterName::gp0, RegisterName::out),
        Err(ExecutionError::CannotCpFrom(RegisterName::out))
    );
    assert_eq!(
        core.read(RegisterName::out, RegisterName::gp0),
        Err(ExecutionError::CannotCpFrom(RegisterName::out))
    );
    assert_eq!(
        core.read(RegisterName::gp0, RegisterName::pc),
        Err(ExecutionError::CannotPut(RegisterName::pc))
    );
    assert_eq!(
        core.push(RegisterName::out),
        Err(ExecutionError::CannotCpFrom(RegisterName::out))
    );
    assert_eq!(
        core.jump(RegisterName::out, RegisterName::gp0),
        Err(ExecutionError::Access(AccessError::PseudoRegister(RegisterName::out)))
    );
}

#[test]
fn arithmetic_results_and_limits() {
    let mut core = Core::new();
    core.put(7, RegisterName::gp0).unwrap();
    core.put(5, RegisterName::gp1).unwrap();
    core.add(RegisterName::gp0, RegisterName::gp1).unwrap();
    assert_eq!(core.register_file.ans, 12);
    core.sub(RegisterName::gp0, RegisterName::gp1).unwrap();
    assert_eq!(core.register_file.ans, 2);
    assert_eq!(
        core.sub(RegisterName::gp1, RegisterName::gp0),
        Err(ExecutionError::Underflow(5, 7))
    );
    core.mul(RegisterName::gp0, RegisterName::gp1).unwrap();
    assert_eq!(core.register_file.ans, 35);

    core.put(65535, RegisterName::gp2).unwrap();
    core.put(1, RegisterName::gp3).unwrap();
    assert_eq!(
        core.add(RegisterName::gp2, RegisterName::gp3),
        Err(ExecutionError::Overflow(65535, 1))
    );
    assert_eq!(core.register_file.ans, 35);
    core.put(65534, RegisterName::gp3).unwrap();
    core.put(1, RegisterName::gp4).unwrap();
    core.add(RegisterName::gp3, RegisterName::gp4).unwrap();
    assert_eq!(core.register_file.ans, 65535);
    core.put(256, RegisterName::gp5).unwrap();
    assert_eq!(
        core.mul(RegisterName::gp5, RegisterName::gp5),
        Err(ExecutionError::Overflow(256, 256))
    );
}

#[test]
fn jump_taken_lands_on_aligned_target() {
    let mut core = Core::new();
    core.load_source("put 14 gp0\nput 0 gp1\njump gp0 gp1\nnoop\nnoop").unwrap();
    run(&mut core, 3);
    assert_eq!(core.register_file.pc, 12);
}

#[test]
fn jump_not_taken_falls_through() {
    let mut core = Core::new();
    core.load_source("put 0 gp0\nput 1 gp1\njump gp0 gp1\nnoop").unwrap();
    run(&mut core, 3);
    assert_eq!(core.register_file.pc, 12);
    core.register_file.gp0 = 2;
    core.register_file.gp1 = 0;
    core.register_file.pc = 8;
    run(&mut core, 1);
    assert_eq!(core.register_file.pc, 4);
}

#[test]
fn halt_stops_the_machine() {
    let mut core = Core::new();
    core.load_source("put 1 gp0\nhalt\nput 2 gp0").unwrap();
    let mut lcd0 = Buffer(vec![]);
    let mut lcd1 = Buffer(vec![]);
    assert_eq!(core.execute_single_instruction(&mut lcd0, &mut lcd1), Ok(false));
    assert_eq!(core.execute_single_instruction(&mut lcd0, &mut lcd1), Ok(true));
    assert!(!core.power);
    assert_eq!(core.register_file.pc, 4);
    assert_eq!(core.execute_single_instruction(&mut lcd0, &mut lcd1), Ok(true));
    assert_eq!(core.register_file.gp0, 1);
    assert_eq!(core.register_file.pc, 4);
}

#[test]
fn unknown_opcode_fails_the_step() {
    let mut core = Core::new();
    core.memory[0] = 200;
    let mut lcd0 = Buffer(vec![]);
    let mut lcd1 = Buffer(vec![]);
    assert_eq!(
        core.execute_single_instruction(&mut lcd0, &mut lcd1),
        Err(ExecutionError::Decode(DecodeError::NoSuchInstruction(200)))
    );
    assert_eq!(core.register_file.pc, 0);
}

#[test]
fn memory_access_wraps_at_the_top() {
    let mut core = Core::new();
    core.put(65535, RegisterName::gp0).unwrap();
    core.put(0x1234, RegisterName::gp1).unwrap();
    core.write(RegisterName::gp1, RegisterName::gp0).unwrap();
    assert_eq!(core.memory[65535], 0x34);
    assert_eq!(core.memory[0], 0x12);
    core.read(RegisterName::gp0, RegisterName::gp2).unwrap();
    assert_eq!(core.register_file.gp2, 0x1234);
}

#[test]
fn program_too_big_is_refused() {
    let source = vec!["noop"; 16384].join("\n");
    let program = Program::try_compile(&source).unwrap();
    assert_eq!(program.size(), 65536);
    let mut core = Core::new();
    match core.load_program(&program) {
        Err(BootError::ProgramTooBig(n)) => assert_eq!(n, 65536),
        other => panic!("unexpected {:?}", other),
    }
    assert_eq!(core.memory[0], 0);
    let small = vec!["noop"; 16383].join("\n");
    core.load_source(&small).unwrap();
    assert_eq!(core.memory[65528], InstructionName::noop as u8);
    assert_eq!(core.memory[65532], 0);
}

#[test]
fn load_source_reports_compilation_errors() {
    let mut core = Core::new();
    match core.load_source("put .X gp0") {
        Err(BootError::Compilation(rpu::programs::CompilationError::UndefinedLabel(t))) => {
            assert_eq!(t, ".X")
        }
        other => panic!("unexpected {:?}", other),
    }
}
