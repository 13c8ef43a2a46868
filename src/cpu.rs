//! The execution core.
//!
//! Each instruction's effect is a spec function from the machine's state
//! (`CoreView`) to the next state and an outcome; the methods of `Core` are
//! proved to carry out exactly those effects. Choices this core makes:
//!
//! - Memory addresses wrap: the second byte of a 16-bit access at 65535 is
//!   the byte at 0, and so is the stack pointer when it moves past either end.
//! - `add`, `sub` and `mul` share one error for an `out` operand,
//!   `CannotAdd`.
//! - A failed step leaves `pc` where it was.
use vstd::prelude::*;

use crate::devices;
use crate::devices::Device;
use crate::instructions;
use crate::instructions::{decode_bytes, Instruction};
use crate::programs;
use crate::programs::{compile, program_bytes, Program};
use crate::registers;
use crate::registers::{RegisterFile, RegisterName};
use crate::text::lines_of;

verus! {

/// The size of memory, in bytes: the whole 16-bit address space.
pub const RAM: usize = 65536;

/// Why one step of execution failed.
#[derive(Debug, PartialEq)]
pub enum ExecutionError {
    /// `put`, `pop` and `read` cannot store into `pc`, `ans` or `out`.
    CannotPut(RegisterName),
    /// `add`, `sub` and `mul` cannot take `out` as an operand.
    CannotAdd(RegisterName),
    /// `copy`, `push`, `write` and `read` cannot take a value from `out`.
    /// For `copy` it carries the destination named in the instruction.
    CannotCpFrom(RegisterName),
    /// `copy` cannot store into `pc` or `ans`.
    CannotCpTo(RegisterName),
    /// The sum or product of the two operand values exceeds 65535.
    Overflow(u16, u16),
    /// The second operand value exceeds the first.
    Underflow(u16, u16),
    StackOverflow,
    StackUnderflow,
    Decode(instructions::DecodeError),
    Access(registers::AccessError),
    /// A device refused the value that `copy` sent to it.
    Device(devices::Error),
}

/// Why a program could not be loaded.
#[derive(Debug)]
pub enum BootError {
    ProgramTooBig(usize),
    Compilation(programs::CompilationError),
}

/// A value that `copy ... out` hands to the device in `slot`.
#[derive(Debug, PartialEq, Eq, Clone, Copy, Structural)]
pub struct DeviceWrite {
    pub slot: u16,
    pub value: u16,
}

/// The machine: registers, memory, the text console and the power state.
pub struct Core {
    pub register_file: RegisterFile,
    pub memory: [u8; RAM],
    pub tty: String,
    pub power: bool,
}

/// The state of the machine as values.
pub struct CoreView {
    pub regs: RegisterFile,
    pub mem: Seq<u8>,
    pub tty: Seq<char>,
    pub power: bool,
}

impl View for Core {
    type V = CoreView;

    open spec fn view(&self) -> CoreView {
        CoreView {
            regs: self.register_file,
            mem: self.memory@,
            tty: self.tty@,
            power: self.power,
        }
    }
}

/// The text that one UTF-16 code unit stands for: its character, or U+FFFD
/// for a lone surrogate.
pub open spec fn unit_text(unit: u16) -> Seq<char> {
    if 0xD800 <= unit <= 0xDFFF {
        seq!['\u{FFFD}']
    } else {
        seq![(unit as u32) as char]
    }
}

/// Relies on `String::from_utf16_lossy`: a single code unit that is not a
/// surrogate decodes to its character, a lone surrogate to U+FFFD.
#[verifier::external_body]
fn text_of_unit(unit: u16) -> (r: String)
    ensures
        r@ == unit_text(unit),
{
    String::from_utf16_lossy(&[unit])
}

/// The address after `a`, wrapping at the end of memory.
pub open spec fn next_addr(a: int) -> int {
    (a + 1) % 0x1_0000
}

/// The 16-bit value at `a`, low byte first.
pub open spec fn load16(mem: Seq<u8>, a: u16) -> u16 {
    (mem[a as int] as int + mem[next_addr(a as int)] as int * 256) as u16
}

/// `mem` with the 16-bit value `v` stored at `a`, low byte first.
pub open spec fn store16(mem: Seq<u8>, a: u16, v: u16) -> Seq<u8> {
    mem.update(a as int, (v % 256) as u8).update(next_addr(a as int), (v / 256) as u8)
}

/// Registers that `put`, `pop` and `read` cannot store into.
pub open spec fn put_forbidden(d: RegisterName) -> bool {
    d == RegisterName::pc || d == RegisterName::ans || d == RegisterName::out
}

pub open spec fn with_regs(s: CoreView, regs: RegisterFile) -> CoreView {
    CoreView { regs, ..s }
}

pub open spec fn put_spec(s: CoreView, v: u16, d: RegisterName) -> (
    CoreView,
    Result<(), ExecutionError>,
) {
    if put_forbidden(d) {
        (s, Err(ExecutionError::CannotPut(d)))
    } else {
        (with_regs(s, s.regs.set(d, v)), Ok(()))
    }
}

/// The arithmetic instructions.
pub enum Arith {
    Add,
    Sub,
    Mul,
}

pub open spec fn arith_spec(s: CoreView, op: Arith, x: RegisterName, y: RegisterName) -> (
    CoreView,
    Result<(), ExecutionError>,
) {
    if x == RegisterName::out {
        (s, Err(ExecutionError::CannotAdd(x)))
    } else if y == RegisterName::out {
        (s, Err(ExecutionError::CannotAdd(y)))
    } else {
        let a = s.regs.get(x);
        let b = s.regs.get(y);
        let r: int = match op {
            Arith::Add => a + b,
            Arith::Sub => a - b,
            Arith::Mul => a * b,
        };
        if r > 65535 {
            (s, Err(ExecutionError::Overflow(a, b)))
        } else if r < 0 {
            (s, Err(ExecutionError::Underflow(a, b)))
        } else {
            (with_regs(s, s.regs.set(RegisterName::ans, r as u16)), Ok(()))
        }
    }
}

pub open spec fn copy_spec(s: CoreView, src: RegisterName, dst: RegisterName) -> (
    CoreView,
    Result<Option<DeviceWrite>, ExecutionError>,
) {
    if src == RegisterName::out {
        (s, Err(ExecutionError::CannotCpFrom(dst)))
    } else {
        let v = s.regs.get(src);
        if dst == RegisterName::pc || dst == RegisterName::ans {
            (s, Err(ExecutionError::CannotCpTo(dst)))
        } else if dst == RegisterName::out {
            if s.regs.dvc == 0 || s.regs.dvc == 1 {
                (s, Ok(Some(DeviceWrite { slot: s.regs.dvc, value: v })))
            } else {
                (CoreView { tty: s.tty + unit_text(v), ..s }, Ok(None))
            }
        } else {
            (with_regs(s, s.regs.set(dst, v)), Ok(None))
        }
    }
}

/// Where `jump` sets `pc` for the target value `v`: `v` aligned down to a
/// multiple of 4, then 4 less unless that would go below 0, so that the
/// step's own advance by 4 lands on the aligned target.
pub open spec fn jump_base(v: u16) -> u16 {
    let aligned = v - v % 4;
    if aligned > 0 {
        (aligned - 4) as u16
    } else {
        0
    }
}

pub open spec fn jump_spec(s: CoreView, addr: RegisterName, cond: RegisterName) -> (
    CoreView,
    Result<(), ExecutionError>,
) {
    if addr == RegisterName::out || cond == RegisterName::out {
        (s, Err(ExecutionError::Access(registers::AccessError::PseudoRegister(RegisterName::out))))
    } else if s.regs.get(cond) == 0 {
        (with_regs(s, s.regs.set(RegisterName::pc, jump_base(s.regs.get(addr)))), Ok(()))
    } else {
        (s, Ok(()))
    }
}

pub open spec fn push_spec(s: CoreView, src: RegisterName) -> (
    CoreView,
    Result<(), ExecutionError>,
) {
    let sp = s.regs.sp;
    if sp == 0 {
        (s, Err(ExecutionError::StackOverflow))
    } else if src == RegisterName::out {
        (s, Err(ExecutionError::CannotCpFrom(src)))
    } else {
        (
            CoreView {
                mem: store16(s.mem, sp, s.regs.get(src)),
                regs: s.regs.set(RegisterName::sp, ((sp + 0x1_0000 - 2) % 0x1_0000) as u16),
                ..s
            },
            Ok(()),
        )
    }
}

/// `pop` moves `sp` up before it loads, and keeps that move when the
/// destination is refused.
pub open spec fn pop_spec(s: CoreView, dst: RegisterName) -> (
    CoreView,
    Result<(), ExecutionError>,
) {
    let sp = s.regs.sp;
    if sp == 65534 {
        (s, Err(ExecutionError::StackUnderflow))
    } else {
        let top = ((sp + 2) % 0x1_0000) as u16;
        let s1 = with_regs(s, s.regs.set(RegisterName::sp, top));
        put_spec(s1, load16(s.mem, top), dst)
    }
}

pub open spec fn write_spec(s: CoreView, src: RegisterName, addr: RegisterName) -> (
    CoreView,
    Result<(), ExecutionError>,
) {
    if src == RegisterName::out {
        (s, Err(ExecutionError::CannotCpFrom(src)))
    } else if addr == RegisterName::out {
        (s, Err(ExecutionError::CannotCpFrom(addr)))
    } else {
        (CoreView { mem: store16(s.mem, s.regs.get(addr), s.regs.get(src)), ..s }, Ok(()))
    }
}

pub open spec fn read_spec(s: CoreView, addr: RegisterName, dst: RegisterName) -> (
    CoreView,
    Result<(), ExecutionError>,
) {
    if addr == RegisterName::out {
        (s, Err(ExecutionError::CannotCpFrom(addr)))
    } else {
        put_spec(s, load16(s.mem, s.regs.get(addr)), dst)
    }
}

/// A result without a device write.
pub open spec fn no_write(r: (CoreView, Result<(), ExecutionError>)) -> (
    CoreView,
    Result<Option<DeviceWrite>, ExecutionError>,
) {
    (
        r.0,
        match r.1 {
            Ok(_) => Ok(None),
            Err(e) => Err(e),
        },
    )
}

/// The effect of executing `i` on `s`, before `pc` advances: the new state,
/// and the value a device must receive or the error.
#[verifier::opaque]
pub open spec fn execute_spec(s: CoreView, i: Instruction) -> (
    CoreView,
    Result<Option<DeviceWrite>, ExecutionError>,
) {
    match i {
        Instruction::halt => (CoreView { power: false, ..s }, Ok(None)),
        Instruction::noop => (s, Ok(None)),
        Instruction::add { x, y } => no_write(arith_spec(s, Arith::Add, x, y)),
        Instruction::sub { x, y } => no_write(arith_spec(s, Arith::Sub, x, y)),
        Instruction::mul { x, y } => no_write(arith_spec(s, Arith::Mul, x, y)),
        Instruction::copy(src, dst) => copy_spec(s, src, dst),
        Instruction::jump(addr, cond) => no_write(jump_spec(s, addr, cond)),
        Instruction::put(v, dst) => no_write(put_spec(s, v, dst)),
        Instruction::push(src) => no_write(push_spec(s, src)),
        Instruction::pop(dst) => no_write(pop_spec(s, dst)),
        Instruction::write(src, addr) => no_write(write_spec(s, src, addr)),
        Instruction::read(addr, dst) => no_write(read_spec(s, addr, dst)),
    }
}

/// The four bytes at `pc`, wrapping at the end of memory.
pub open spec fn fetch_bytes(s: CoreView) -> (u8, u8, u8, u8) {
    let pc = s.regs.pc as int;
    (s.mem[pc], s.mem[(pc + 1) % 0x1_0000], s.mem[(pc + 2) % 0x1_0000], s.mem[(pc + 3) % 0x1_0000])
}

/// `s` with `pc` moved to the next instruction, wrapping at the end of memory.
pub open spec fn advance(s: CoreView) -> CoreView {
    with_regs(s, s.regs.set(RegisterName::pc, ((s.regs.pc + 4) % 0x1_0000) as u16))
}

} // verus!

verus! {

/// The state of a machine just built: registers at their initial values,
/// memory zeroed, an empty console, power on.
pub open spec fn initial_state() -> CoreView {
    CoreView {
        regs: RegisterFile::initial(),
        mem: Seq::new(RAM as nat, |i: int| 0u8),
        tty: Seq::empty(),
        power: true,
    }
}

impl Core {
    pub fn new() -> (r: Self)
        ensures
            r@ == initial_state(),
    {
        let register_file = RegisterFile::new();
        let memory = [0u8; RAM];
        let tty = String::new();
        let power = true;
        let r = Core { register_file, memory, tty, power };
        assert(r.memory@ =~= initial_state().mem);
        r
    }

    /// Appends the character of one UTF-16 code unit to the console.
    pub fn write_tty(&mut self, byte: u16)
        ensures
            final(self)@ == (CoreView { tty: old(self)@.tty + unit_text(byte), ..old(self)@ }),
    {
        let text = text_of_unit(byte);
        self.tty.append(text.as_str());
    }

    /// Copies the encoded program to the start of memory; a program of 64 KiB
    /// or more is refused and nothing is loaded.
    pub fn load_program(&mut self, program: &Program) -> (r: Result<(), BootError>)
        requires
            program.wf(),
        ensures
            4 * program.instrs().len() >= RAM ==> (r matches Err(BootError::ProgramTooBig(n)) && n
                == 4 * program.instrs().len() && final(self)@ == old(self)@),
            4 * program.instrs().len() < RAM ==> r is Ok && final(self)@ == (CoreView {
                mem: program_bytes(program.instrs()) + old(self)@.mem.subrange(
                    4 * program.instrs().len() as int,
                    RAM as int,
                ),
                ..old(self)@
            }),
    {
        let size = program.size();
        if size >= RAM {
            return Err(BootError::ProgramTooBig(size));
        }
        let bytes = program.bytes();
        let ghost before = self.memory@;
        let mut i: usize = 0;
        while i < bytes.len()
            invariant
                i <= bytes.len() == size < RAM,
                bytes@ == program_bytes(program.instrs()),
                self.memory@.len() == RAM,
                forall|k: int| 0 <= k < i ==> self.memory@[k] == bytes@[k],
                forall|k: int| i <= k < RAM ==> self.memory@[k] == before[k],
                self.register_file == old(self).register_file,
                self.tty == old(self).tty,
                self.power == old(self).power,
                before == old(self).memory@,
            decreases bytes.len() - i,
        {
            self.memory[i] = bytes[i];
            i = i + 1;
        }
        assert(self.memory@ =~= program_bytes(program.instrs()) + before.subrange(
            size as int,
            RAM as int,
        ));
        Ok(())
    }

    /// Compiles `source` and loads the program.
    pub fn load_source(&mut self, source: &str) -> (r: Result<(), BootError>)
        requires
            4 * source@.len() <= usize::MAX,
        ensures
            match compile(lines_of(source@)) {
                Err(f) => r matches Err(BootError::Compilation(e)) && e@ == f && final(self)@
                    == old(self)@,
                Ok(is) => if 4 * is.len() >= RAM {
                    r matches Err(BootError::ProgramTooBig(n)) && n == 4 * is.len()
                        && final(self)@ == old(self)@
                } else {
                    r is Ok && final(self)@ == (CoreView {
                        mem: program_bytes(is) + old(self)@.mem.subrange(
                            4 * is.len() as int,
                            RAM as int,
                        ),
                        ..old(self)@
                    })
                },
            },
    {
        let program = match Program::try_compile(source) {
            Ok(p) => p,
            Err(e) => {
                return Err(BootError::Compilation(e));
            },
        };
        self.load_program(&program)
    }

    /// The value of a register that an instruction reads.
    fn operand(&mut self, r: RegisterName) -> (v: Result<u16, ExecutionError>)
        ensures
            final(self)@ == old(self)@,
            r == RegisterName::out ==> v == Err::<u16, ExecutionError>(
                ExecutionError::Access(registers::AccessError::PseudoRegister(r)),
            ),
            r != RegisterName::out ==> v == Ok::<u16, ExecutionError>(old(self)@.regs.get(r)),
    {
        match self.register_file.read(r) {
            Ok(v) => Ok(v),
            Err(e) => Err(ExecutionError::Access(e)),
        }
    }

    /// Stores into a register that may hold a value.
    fn store(&mut self, r: RegisterName, v: u16)
        requires
            r != RegisterName::out,
        ensures
            final(self)@ == with_regs(old(self)@, old(self)@.regs.set(r, v)),
    {
        let _ = self.register_file.write(r, v);
    }

    /// `put val dst`: stores the immediate value.
    pub fn put(&mut self, val: u16, dst: RegisterName) -> (r: Result<(), ExecutionError>)
        ensures
            (final(self)@, r) == put_spec(old(self)@, val, dst),
    {
        match dst {
            RegisterName::pc | RegisterName::ans | RegisterName::out => Err(
                ExecutionError::CannotPut(dst),
            ),
            _ => {
                self.store(dst, val);
                Ok(())
            },
        }
    }

    fn arith(&mut self, op: Arith, x: RegisterName, y: RegisterName) -> (r: Result<
        (),
        ExecutionError,
    >)
        ensures
            (final(self)@, r) == arith_spec(old(self)@, op, x, y),
    {
        if x == RegisterName::out {
            return Err(ExecutionError::CannotAdd(x));
        }
        if y == RegisterName::out {
            return Err(ExecutionError::CannotAdd(y));
        }
        let a = self.operand(x)?;
        let b = self.operand(y)?;
        let ans = match op {
            Arith::Add => a.checked_add(b),
            Arith::Sub => a.checked_sub(b),
            Arith::Mul => a.checked_mul(b),
        };
        match ans {
            Some(v) => {
                self.store(RegisterName::ans, v);
                Ok(())
            },
            None => match op {
                Arith::Sub => Err(ExecutionError::Underflow(a, b)),
                _ => Err(ExecutionError::Overflow(a, b)),
            },
        }
    }

    /// `add x y`: stores the sum of the two values in `ans`.
    pub fn add(&mut self, x: RegisterName, y: RegisterName) -> (r: Result<(), ExecutionError>)
        ensures
            (final(self)@, r) == arith_spec(old(self)@, Arith::Add, x, y),
    {
        self.arith(Arith::Add, x, y)
    }

    /// `sub x y`: stores the first value less the second in `ans`.
    pub fn sub(&mut self, x: RegisterName, y: RegisterName) -> (r: Result<(), ExecutionError>)
        ensures
            (final(self)@, r) == arith_spec(old(self)@, Arith::Sub, x, y),
    {
        self.arith(Arith::Sub, x, y)
    }

    /// `mul x y`: stores the product of the two values in `ans`.
    pub fn mul(&mut self, x: RegisterName, y: RegisterName) -> (r: Result<(), ExecutionError>)
        ensures
            (final(self)@, r) == arith_spec(old(self)@, Arith::Mul, x, y),
    {
        self.arith(Arith::Mul, x, y)
    }

    /// `copy src dst`. A copy to `out` goes to the console, or, when `dvc`
    /// is 0 or 1, is returned as the write that device must receive.
    pub fn copy(&mut self, src: RegisterName, dst: RegisterName) -> (r: Result<
        Option<DeviceWrite>,
        ExecutionError,
    >)
        ensures
            (final(self)@, r) == copy_spec(old(self)@, src, dst),
    {
        if src == RegisterName::out {
            return Err(ExecutionError::CannotCpFrom(dst));
        }
        let val = self.operand(src)?;
        match dst {
            RegisterName::pc | RegisterName::ans => Err(ExecutionError::CannotCpTo(dst)),
            RegisterName::out => {
                let dvc = self.register_file.dvc;
                if dvc == 0 || dvc == 1 {
                    Ok(Some(DeviceWrite { slot: dvc, value: val }))
                } else {
                    self.write_tty(val);
                    Ok(None)
                }
            },
            _ => {
                self.store(dst, val);
                Ok(None)
            },
        }
    }

    /// `jump addr cond`: when `cond` holds 0, sets `pc` so that the next
    /// instruction is the one at the value of `addr` aligned down to 4.
    pub fn jump(&mut self, addr: RegisterName, cond: RegisterName) -> (r: Result<
        (),
        ExecutionError,
    >)
        ensures
            (final(self)@, r) == jump_spec(old(self)@, addr, cond),
    {
        let mut target = self.operand(addr)?;
        target = target - target % 4;
        if target > 0 {
            target = target - 4;
        }
        let c = self.operand(cond)?;
        if c == 0 {
            self.store(RegisterName::pc, target);
        }
        Ok(())
    }

    fn load16(&self, a: u16) -> (v: u16)
        ensures
            v == load16(self@.mem, a),
    {
        let lo = self.memory[a as usize];
        let hi = self.memory[(a as usize + 1) % RAM];
        lo as u16 + hi as u16 * 256
    }

    fn store16(&mut self, a: u16, v: u16)
        ensures
            final(self)@ == (CoreView { mem: store16(old(self)@.mem, a, v), ..old(self)@ }),
    {
        self.memory[a as usize] = (v % 256) as u8;
        self.memory[(a as usize + 1) % RAM] = (v / 256) as u8;
        assert(self.memory@ =~= store16(old(self)@.mem, a, v));
    }

    /// `push src`: stores the value at `sp`, then moves `sp` down by 2.
    pub fn push(&mut self, src: RegisterName) -> (r: Result<(), ExecutionError>)
        ensures
            (final(self)@, r) == push_spec(old(self)@, src),
    {
        let sp = self.register_file.sp;
        if sp == 0 {
            return Err(ExecutionError::StackOverflow);
        }
        if src == RegisterName::out {
            return Err(ExecutionError::CannotCpFrom(src));
        }
        let val = self.operand(src)?;
        self.store16(sp, val);
        let below: u16 = if sp >= 2 {
            sp - 2
        } else {
            65535
        };
        self.store(RegisterName::sp, below);
        Ok(())
    }

    /// `pop dst`: moves `sp` up by 2, then stores the value there into `dst`
    /// as `put` would.
    pub fn pop(&mut self, dst: RegisterName) -> (r: Result<(), ExecutionError>)
        ensures
            (final(self)@, r) == pop_spec(old(self)@, dst),
    {
        let sp = self.register_file.sp;
        if sp == 65534 {
            return Err(ExecutionError::StackUnderflow);
        }
        let top: u16 = if sp <= 65533 {
            sp + 2
        } else {
            1
        };
        self.store(RegisterName::sp, top);
        let val = self.load16(top);
        self.put(val, dst)
    }

    /// `write src addr`: stores the value of `src` at the address in `addr`.
    pub fn write(&mut self, src: RegisterName, addr: RegisterName) -> (r: Result<
        (),
        ExecutionError,
    >)
        ensures
            (final(self)@, r) == write_spec(old(self)@, src, addr),
    {
        if src == RegisterName::out {
            return Err(ExecutionError::CannotCpFrom(src));
        }
        if addr == RegisterName::out {
            return Err(ExecutionError::CannotCpFrom(addr));
        }
        let val = self.operand(src)?;
        let a = self.operand(addr)?;
        self.store16(a, val);
        Ok(())
    }

    /// `read addr dst`: loads the value at the address in `addr` into `dst`
    /// as `put` would.
    pub fn read(&mut self, addr: RegisterName, dst: RegisterName) -> (r: Result<
        (),
        ExecutionError,
    >)
        ensures
            (final(self)@, r) == read_spec(old(self)@, addr, dst),
    {
        if addr == RegisterName::out {
            return Err(ExecutionError::CannotCpFrom(addr));
        }
        let a = self.operand(addr)?;
        let val = self.load16(a);
        self.put(val, dst)
    }

    /// Turns the power off.
    pub fn halt(&mut self) -> (r: Result<(), ExecutionError>)
        ensures
            r is Ok,
            final(self)@ == (CoreView { power: false, ..old(self)@ }),
    {
        self.power = false;
        Ok(())
    }
}

} // verus!

verus! {

/// Only `halt` turns the power off, and it always succeeds.
pub proof fn lemma_execute_power(s: CoreView, i: Instruction)
    ensures
        execute_spec(s, i).0.power == (s.power && i != Instruction::halt),
        i == Instruction::halt ==> execute_spec(s, i).1 == Ok::<
            Option<DeviceWrite>,
            ExecutionError,
        >(None),
{
    reveal(execute_spec);
}

impl Core {
    /// Decodes the four bytes at `pc`.
    fn fetch(&self) -> (r: Result<Instruction, instructions::DecodeError>)
        ensures
            r == decode_bytes(fetch_bytes(self@)),
    {
        let pc = self.register_file.pc as usize;
        let b0 = self.memory[pc];
        let b1 = self.memory[(pc + 1) % RAM];
        let b2 = self.memory[(pc + 2) % RAM];
        let b3 = self.memory[(pc + 3) % RAM];
        Instruction::try_from_bytes(b0, b1, b2, b3)
    }

    /// Carries out one decoded instruction, but for handing a value to a
    /// device and advancing `pc`.
    pub fn execute(&mut self, instr: Instruction) -> (r: Result<Option<DeviceWrite>, ExecutionError>)
        ensures
            (final(self)@, r) == execute_spec(old(self)@, instr),
    {
        reveal(execute_spec);
        match instr {
            Instruction::halt => {
                self.power = false;
                Ok(None)
            },
            Instruction::noop => Ok(None),
            Instruction::add { x, y } => {
                self.add(x, y)?;
                Ok(None)
            },
            Instruction::sub { x, y } => {
                self.sub(x, y)?;
                Ok(None)
            },
            Instruction::mul { x, y } => {
                self.mul(x, y)?;
                Ok(None)
            },
            Instruction::copy(src, dst) => self.copy(src, dst),
            Instruction::jump(addr, cond) => {
                self.jump(addr, cond)?;
                Ok(None)
            },
            Instruction::put(val, dst) => {
                self.put(val, dst)?;
                Ok(None)
            },
            Instruction::push(src) => {
                self.push(src)?;
                Ok(None)
            },
            Instruction::pop(dst) => {
                self.pop(dst)?;
                Ok(None)
            },
            Instruction::write(src, addr) => {
                self.write(src, addr)?;
                Ok(None)
            },
            Instruction::read(addr, dst) => {
                self.read(addr, dst)?;
                Ok(None)
            },
        }
    }

    /// One step: fetches the four bytes at `pc`, decodes and executes them,
    /// hands the value that `copy ... out` selects to `dev0` or `dev1`, and
    /// advances `pc` by 4 unless the instruction halted. Returns whether the
    /// machine is halted; once halted, a step changes nothing.
    pub fn execute_single_instruction<A: Device, B: Device>(
        &mut self,
        dev0: &mut A,
        dev1: &mut B,
    ) -> (r: Result<bool, ExecutionError>)
        ensures
            !old(self)@.power ==> r == Ok::<bool, ExecutionError>(true) && final(self)@
                == old(self)@,
            old(self)@.power ==> match decode_bytes(fetch_bytes(old(self)@)) {
                Err(e) => r == Err::<bool, ExecutionError>(ExecutionError::Decode(e))
                    && final(self)@ == old(self)@,
                Ok(i) => {
                    let (s, o) = execute_spec(old(self)@, i);
                    match o {
                        Err(e) => r == Err::<bool, ExecutionError>(e) && final(self)@ == s,
                        Ok(None) => if i == Instruction::halt {
                            r == Ok::<bool, ExecutionError>(true) && final(self)@ == s
                        } else {
                            r == Ok::<bool, ExecutionError>(false) && final(self)@ == advance(s)
                        },
                        Ok(Some(w)) => (r == Ok::<bool, ExecutionError>(false) && final(self)@
                            == advance(s)) || (r matches Err(ExecutionError::Device(_))
                            && final(self)@ == s),
                    }
                },
            },
    {
        if !self.power {
            return Ok(true);
        }
        let instr = match self.fetch() {
            Ok(i) => i,
            Err(e) => {
                return Err(ExecutionError::Decode(e));
            },
        };
        proof {
            lemma_execute_power(self@, instr);
        }
        let output = self.execute(instr)?;
        match output {
            Some(w) => {
                let sent = if w.slot == 0 {
                    dev0.write(w.value)
                } else {
                    dev1.write(w.value)
                };
                if let Err(e) = sent {
                    return Err(ExecutionError::Device(e));
                }
            },
            None => {},
        }
        if !self.power {
            return Ok(true);
        }
        let pc = self.register_file.pc;
        let next: u16 = if pc <= 65531 {
            pc + 4
        } else {
            pc - 65532
        };
        self.store(RegisterName::pc, next);
        Ok(false)
    }
}

} // verus!

verus! {

/// `out` is never a source of values and `pc`, `ans` and `out` never take an
/// immediate: `put` into them fails with `CannotPut`; `add`, `sub` and `mul`
/// reading `out` fail with `CannotAdd`; `copy`, `push`, `write` and `read`
/// reading `out` fail with `CannotCpFrom`. None of these failures changes
/// the machine.
pub proof fn lemma_out_is_no_source(s: CoreView, v: u16, r: RegisterName)
    ensures
        put_forbidden(r) ==> put_spec(s, v, r) == (s, Err::<(), ExecutionError>(
            ExecutionError::CannotPut(r),
        )),
        arith_spec(s, Arith::Add, RegisterName::out, r) == (s, Err::<(), ExecutionError>(
            ExecutionError::CannotAdd(RegisterName::out),
        )),
        arith_spec(s, Arith::Sub, RegisterName::out, r) == (s, Err::<(), ExecutionError>(
            ExecutionError::CannotAdd(RegisterName::out),
        )),
        arith_spec(s, Arith::Mul, RegisterName::out, r) == (s, Err::<(), ExecutionError>(
            ExecutionError::CannotAdd(RegisterName::out),
        )),
        arith_spec(s, Arith::Add, r, RegisterName::out).1 == Err::<(), ExecutionError>(
            ExecutionError::CannotAdd(
                if r == RegisterName::out {
                    r
                } else {
                    RegisterName::out
                },
            ),
        ),
        copy_spec(s, RegisterName::out, r) == (s, Err::<Option<DeviceWrite>, ExecutionError>(
            ExecutionError::CannotCpFrom(r),
        )),
        s.regs.sp != 0 ==> push_spec(s, RegisterName::out) == (s, Err::<(), ExecutionError>(
            ExecutionError::CannotCpFrom(RegisterName::out),
        )),
        write_spec(s, RegisterName::out, r) == (s, Err::<(), ExecutionError>(
            ExecutionError::CannotCpFrom(RegisterName::out),
        )),
        write_spec(s, r, RegisterName::out) == (s, Err::<(), ExecutionError>(
            ExecutionError::CannotCpFrom(RegisterName::out),
        )),
        read_spec(s, RegisterName::out, r) == (s, Err::<(), ExecutionError>(
            ExecutionError::CannotCpFrom(RegisterName::out),
        )),
{
}

/// `push` with `sp` at 0 fails with `StackOverflow`, `pop` with `sp` at
/// 65534 fails with `StackUnderflow`, and neither changes the machine.
pub proof fn lemma_stack_bounds(s: CoreView, r: RegisterName)
    ensures
        s.regs.sp == 0 ==> push_spec(s, r) == (s, Err::<(), ExecutionError>(
            ExecutionError::StackOverflow,
        )),
        s.regs.sp == 65534 ==> pop_spec(s, r) == (s, Err::<(), ExecutionError>(
            ExecutionError::StackUnderflow,
        )),
{
}

/// A `pop` right after a successful `push` gives back the pushed value and
/// returns `sp` to where it was, so values leave the stack in the reverse
/// order of their arrival.
pub proof fn lemma_push_then_pop(s: CoreView, src: RegisterName, dst: RegisterName)
    requires
        s.mem.len() == RAM,
        s.regs.sp != 0,
        src != RegisterName::out,
        !put_forbidden(dst),
        dst != RegisterName::sp,
    ensures
        push_spec(s, src).1 is Ok,
        pop_spec(push_spec(s, src).0, dst).1 is Ok,
        pop_spec(push_spec(s, src).0, dst).0.regs.get(dst) == s.regs.get(src),
        pop_spec(push_spec(s, src).0, dst).0.regs.sp == s.regs.sp,
{
    let sp = s.regs.sp;
    let v = s.regs.get(src);
    let s1 = push_spec(s, src).0;
    let below = ((sp + 0x1_0000 - 2) % 0x1_0000) as u16;
    assert(s1.regs.sp == below);
    let top = ((below + 2) % 0x1_0000) as u16;
    assert(top == sp);
    assert(s1.mem == store16(s.mem, sp, v));
    assert(load16(s1.mem, sp) == v);
}

/// `add` stores `x + y` in `ans` when the sum is at most 65535 and otherwise
/// fails with `Overflow` carrying both values; `sub` fails with `Underflow`
/// carrying both values exactly when `y`'s value exceeds `x`'s.
pub proof fn lemma_add_sub(s: CoreView, x: RegisterName, y: RegisterName)
    requires
        x != RegisterName::out,
        y != RegisterName::out,
    ensures
        ({
            let (a, b) = (s.regs.get(x), s.regs.get(y));
            &&& a + b <= 65535 ==> arith_spec(s, Arith::Add, x, y) == (with_regs(
                s,
                s.regs.set(RegisterName::ans, (a + b) as u16),
            ), Ok::<(), ExecutionError>(()))
            &&& a + b > 65535 ==> arith_spec(s, Arith::Add, x, y) == (s, Err::<(), ExecutionError>(
                ExecutionError::Overflow(a, b),
            ))
            &&& b > a ==> arith_spec(s, Arith::Sub, x, y) == (s, Err::<(), ExecutionError>(
                ExecutionError::Underflow(a, b),
            ))
            &&& b <= a ==> arith_spec(s, Arith::Sub, x, y) == (with_regs(
                s,
                s.regs.set(RegisterName::ans, (a - b) as u16),
            ), Ok::<(), ExecutionError>(()))
        }),
{
}

/// A step on `jump addr cond` whose `cond` holds 0 goes on at the value of
/// `addr` aligned down to a multiple of 4 (for a value of at least 4: below
/// that it goes on at 4); with any other `cond` it goes on at the next
/// instruction.
pub proof fn lemma_jump_lands(s: CoreView, addr: RegisterName, cond: RegisterName)
    requires
        addr != RegisterName::out,
        cond != RegisterName::out,
    ensures
        execute_spec(s, Instruction::jump(addr, cond)).1 == Ok::<
            Option<DeviceWrite>,
            ExecutionError,
        >(None),
        s.regs.get(cond) == 0 && s.regs.get(addr) >= 4 ==> advance(
            execute_spec(s, Instruction::jump(addr, cond)).0,
        ).regs.pc == s.regs.get(addr) - s.regs.get(addr) % 4,
        s.regs.get(cond) != 0 ==> advance(
            execute_spec(s, Instruction::jump(addr, cond)).0,
        ).regs.pc == (s.regs.pc + 4) % 0x1_0000,
{
    reveal(execute_spec);
}

} // verus!
