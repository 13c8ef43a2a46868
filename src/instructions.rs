use vstd::prelude::*;

use vstd::arithmetic::div_mod::lemma_fundamental_div_mod_converse;

use crate::registers;
use crate::registers::{lemma_register_id_round_trip, register_id, register_named, register_with_id, RegisterName};
use crate::text::{chars_equal, chars_of, parse_u16, string_of, tokenize, tokens_of, u16_literal, views};

verus! {

/// The operations of the machine, in the order of their opcodes: `halt`
/// comes first, so that a zero-filled word decodes to it.
#[allow(non_camel_case_types)]
#[derive(Debug, PartialEq, Eq, Clone, Copy, Structural)]
pub enum InstructionName {
    halt,
    add,
    copy,
    jump,
    read,
    mul,
    noop,
    put,
    write,
    sub,
    push,
    pop,
}

/// One machine instruction. Operands are registers, but for the 16-bit
/// immediate of `put`.
#[allow(non_camel_case_types)]
#[derive(Debug, PartialEq, Eq, Clone, Copy, Structural)]
pub enum Instruction {
    halt,
    add { x: RegisterName, y: RegisterName },
    copy(RegisterName, RegisterName),
    jump(RegisterName, RegisterName),
    mul { x: RegisterName, y: RegisterName },
    noop,
    put(u16, RegisterName),
    sub { x: RegisterName, y: RegisterName },
    write(RegisterName, RegisterName),
    read(RegisterName, RegisterName),
    push(RegisterName),
    pop(RegisterName),
}

/// Why a line of source text is not an instruction.
#[derive(Debug, PartialEq)]
pub enum ParseError {
    /// The first token is no mnemonic (an empty line has the empty token).
    NoSuchInstruction(String),
    /// An operand that must name a register does not.
    Register(registers::ParseError),
    /// The immediate of `put` is not a decimal `u16`.
    InvalidValue(String),
    /// The mnemonic, given with fewer operands than it takes.
    MissingOperand(String),
}

/// `ParseError` with its texts as character sequences.
pub enum ParseFault {
    NoSuchInstruction(Seq<char>),
    NoSuchRegisterName(Seq<char>),
    InvalidValue(Seq<char>),
    MissingOperand(Seq<char>),
}

impl View for ParseError {
    type V = ParseFault;

    open spec fn view(&self) -> ParseFault {
        match self {
            ParseError::NoSuchInstruction(s) => ParseFault::NoSuchInstruction(s@),
            ParseError::Register(registers::ParseError::NoSuchRegisterName(s)) => {
                ParseFault::NoSuchRegisterName(s@)
            },
            ParseError::InvalidValue(s) => ParseFault::InvalidValue(s@),
            ParseError::MissingOperand(s) => ParseFault::MissingOperand(s@),
        }
    }
}

/// Why a word is not an instruction.
#[derive(Debug, PartialEq, Eq, Clone, Copy, Structural)]
pub enum DecodeError {
    NoSuchInstruction(u8),
    Register(registers::DecodeError),
}

/// The opcode of each instruction.
pub open spec fn opcode(i: Instruction) -> u8 {
    match i {
        Instruction::halt => 0,
        Instruction::add { .. } => 1,
        Instruction::copy(_, _) => 2,
        Instruction::jump(_, _) => 3,
        Instruction::read(_, _) => 4,
        Instruction::mul { .. } => 5,
        Instruction::noop => 6,
        Instruction::put(_, _) => 7,
        Instruction::write(_, _) => 8,
        Instruction::sub { .. } => 9,
        Instruction::push(_) => 10,
        Instruction::pop(_) => 11,
    }
}

/// The four bytes of an encoded instruction, first byte first.
pub open spec fn encode_bytes(i: Instruction) -> (u8, u8, u8, u8) {
    match i {
        Instruction::halt => (0, 0, 0, 0),
        Instruction::noop => (6, 0, 0, 0),
        Instruction::put(v, d) => (7, (v % 256) as u8, (v / 256) as u8, register_id(d)),
        Instruction::push(r) => (10, register_id(r), 0, 0),
        Instruction::pop(r) => (11, register_id(r), 0, 0),
        Instruction::add { x, y } => (1, register_id(x), register_id(y), 0),
        Instruction::copy(x, y) => (2, register_id(x), register_id(y), 0),
        Instruction::jump(x, y) => (3, register_id(x), register_id(y), 0),
        Instruction::read(x, y) => (4, register_id(x), register_id(y), 0),
        Instruction::mul { x, y } => (5, register_id(x), register_id(y), 0),
        Instruction::write(x, y) => (8, register_id(x), register_id(y), 0),
        Instruction::sub { x, y } => (9, register_id(x), register_id(y), 0),
    }
}

/// The word whose bytes, least significant first, are `b`.
pub open spec fn pack(b: (u8, u8, u8, u8)) -> u32 {
    (b.0 as int + b.1 as int * 0x100 + b.2 as int * 0x1_0000 + b.3 as int * 0x100_0000) as u32
}

/// The bytes of `w`, least significant first.
pub open spec fn unpack(w: u32) -> (u8, u8, u8, u8) {
    ((w % 0x100) as u8, ((w / 0x100) % 0x100) as u8, ((w / 0x1_0000) % 0x100) as u8, (w
        / 0x100_0000) as u8)
}

/// The encoding of `i` as a word.
pub open spec fn encode(i: Instruction) -> u32 {
    pack(encode_bytes(i))
}

/// The register that the byte `x` stands for, or the decode error.
pub open spec fn decode_register(x: u8) -> Result<RegisterName, DecodeError> {
    match register_with_id(x) {
        Some(r) => Ok(r),
        None => Err(DecodeError::Register(registers::DecodeError::NoSuchRegisterID(x))),
    }
}

/// The instruction with opcode `op` and register operands `x` and `y`, for
/// the opcodes that take two registers.
pub open spec fn binary(op: u8, x: RegisterName, y: RegisterName) -> Instruction {
    if op == 1 {
        Instruction::add { x, y }
    } else if op == 2 {
        Instruction::copy(x, y)
    } else if op == 3 {
        Instruction::jump(x, y)
    } else if op == 4 {
        Instruction::read(x, y)
    } else if op == 5 {
        Instruction::mul { x, y }
    } else if op == 8 {
        Instruction::write(x, y)
    } else {
        Instruction::sub { x, y }
    }
}

/// The instruction that the bytes `b` encode, first byte first.
pub open spec fn decode_bytes(b: (u8, u8, u8, u8)) -> Result<Instruction, DecodeError> {
    let op = b.0;
    if op == 0 {
        Ok(Instruction::halt)
    } else if op == 6 {
        Ok(Instruction::noop)
    } else if op == 7 {
        match decode_register(b.3) {
            Ok(d) => Ok(Instruction::put((b.1 as int + b.2 as int * 256) as u16, d)),
            Err(e) => Err(e),
        }
    } else if op == 10 || op == 11 {
        match decode_register(b.1) {
            Ok(r) => Ok(
                if op == 10 {
                    Instruction::push(r)
                } else {
                    Instruction::pop(r)
                },
            ),
            Err(e) => Err(e),
        }
    } else if 1 <= op <= 5 || op == 8 || op == 9 {
        match decode_register(b.1) {
            Ok(x) => match decode_register(b.2) {
                Ok(y) => Ok(binary(op, x, y)),
                Err(e) => Err(e),
            },
            Err(e) => Err(e),
        }
    } else {
        Err(DecodeError::NoSuchInstruction(op))
    }
}

/// The instruction that the word `w` encodes.
pub open spec fn decode(w: u32) -> Result<Instruction, DecodeError> {
    decode_bytes(unpack(w))
}

} // verus!

verus! {

/// The mnemonics that take two register operands.
pub open spec fn is_binary_mnemonic(m: Seq<char>) -> bool {
    m == "add"@ || m == "copy"@ || m == "jump"@ || m == "mul"@ || m == "sub"@ || m == "write"@
        || m == "read"@
}

/// The instruction of the two-register mnemonic `m` on `x` and `y`.
pub open spec fn binary_named(m: Seq<char>, x: RegisterName, y: RegisterName) -> Instruction {
    if m == "add"@ {
        Instruction::add { x, y }
    } else if m == "copy"@ {
        Instruction::copy(x, y)
    } else if m == "jump"@ {
        Instruction::jump(x, y)
    } else if m == "mul"@ {
        Instruction::mul { x, y }
    } else if m == "sub"@ {
        Instruction::sub { x, y }
    } else if m == "write"@ {
        Instruction::write(x, y)
    } else {
        Instruction::read(x, y)
    }
}

/// The register named by the operand `t`, or the parse error for it.
pub open spec fn operand(t: Seq<char>) -> Result<RegisterName, ParseFault> {
    match register_named(t) {
        Some(r) => Ok(r),
        None => Err(ParseFault::NoSuchRegisterName(t)),
    }
}

/// The instruction written by the tokens `ts`: the first selects the
/// mnemonic, the next ones are its operands, and any further ones are
/// ignored.
pub open spec fn parse_tokens_spec(ts: Seq<Seq<char>>) -> Result<Instruction, ParseFault> {
    if ts.len() == 0 {
        Err(ParseFault::NoSuchInstruction(Seq::empty()))
    } else {
        let m = ts[0];
        if m == "halt"@ {
            Ok(Instruction::halt)
        } else if m == "noop"@ {
            Ok(Instruction::noop)
        } else if is_binary_mnemonic(m) {
            if ts.len() < 3 {
                Err(ParseFault::MissingOperand(m))
            } else {
                match operand(ts[1]) {
                    Ok(x) => match operand(ts[2]) {
                        Ok(y) => Ok(binary_named(m, x, y)),
                        Err(e) => Err(e),
                    },
                    Err(e) => Err(e),
                }
            }
        } else if m == "push"@ || m == "pop"@ {
            if ts.len() < 2 {
                Err(ParseFault::MissingOperand(m))
            } else {
                match operand(ts[1]) {
                    Ok(r) => Ok(
                        if m == "push"@ {
                            Instruction::push(r)
                        } else {
                            Instruction::pop(r)
                        },
                    ),
                    Err(e) => Err(e),
                }
            }
        } else if m == "put"@ {
            if ts.len() < 3 {
                Err(ParseFault::MissingOperand(m))
            } else {
                match u16_literal(ts[1]) {
                    Some(v) => match operand(ts[2]) {
                        Ok(d) => Ok(Instruction::put(v, d)),
                        Err(e) => Err(e),
                    },
                    None => Err(ParseFault::InvalidValue(ts[1])),
                }
            }
        } else {
            Err(ParseFault::NoSuchInstruction(m))
        }
    }
}

/// Whether the characters of `t` are those of `w`.
fn is_word(t: &Vec<char>, w: &str) -> (r: bool)
    ensures
        r == (t@ == w@),
{
    let v = chars_of(w);
    chars_equal(t, &v)
}

/// The register named by the operand `t`.
fn parse_operand(t: &Vec<char>) -> (r: Result<RegisterName, ParseError>)
    ensures
        match operand(t@) {
            Ok(n) => r == Ok::<RegisterName, ParseError>(n),
            Err(f) => r matches Err(e) && e@ == f,
        },
{
    match RegisterName::from_chars(t) {
        Some(n) => Ok(n),
        None => Err(ParseError::Register(registers::ParseError::NoSuchRegisterName(string_of(t)))),
    }
}

/// The instruction written by the tokens `ts`.
pub fn parse_tokens(ts: &Vec<Vec<char>>) -> (r: Result<Instruction, ParseError>)
    ensures
        match parse_tokens_spec(views(ts@)) {
            Ok(i) => r == Ok::<Instruction, ParseError>(i),
            Err(f) => r matches Err(e) && e@ == f,
        },
{
    let ghost vs = views(ts@);
    if ts.len() == 0 {
        return Err(ParseError::NoSuchInstruction(String::new()));
    }
    let m = &ts[0];
    assert(vs[0] == m@);
    if is_word(m, "halt") {
        Ok(Instruction::halt)
    } else if is_word(m, "noop") {
        Ok(Instruction::noop)
    } else if is_word(m, "add") || is_word(m, "copy") || is_word(m, "jump") || is_word(m, "mul")
        || is_word(m, "sub") || is_word(m, "write") || is_word(m, "read") {
        if ts.len() < 3 {
            return Err(ParseError::MissingOperand(string_of(m)));
        }
        assert(vs[1] == ts@[1]@ && vs[2] == ts@[2]@);
        let x = parse_operand(&ts[1])?;
        let y = parse_operand(&ts[2])?;
        if is_word(m, "add") {
            Ok(Instruction::add { x, y })
        } else if is_word(m, "copy") {
            Ok(Instruction::copy(x, y))
        } else if is_word(m, "jump") {
            Ok(Instruction::jump(x, y))
        } else if is_word(m, "mul") {
            Ok(Instruction::mul { x, y })
        } else if is_word(m, "sub") {
            Ok(Instruction::sub { x, y })
        } else if is_word(m, "write") {
            Ok(Instruction::write(x, y))
        } else {
            Ok(Instruction::read(x, y))
        }
    } else if is_word(m, "push") || is_word(m, "pop") {
        if ts.len() < 2 {
            return Err(ParseError::MissingOperand(string_of(m)));
        }
        assert(vs[1] == ts@[1]@);
        let r = parse_operand(&ts[1])?;
        if is_word(m, "push") {
            Ok(Instruction::push(r))
        } else {
            Ok(Instruction::pop(r))
        }
    } else if is_word(m, "put") {
        if ts.len() < 3 {
            return Err(ParseError::MissingOperand(string_of(m)));
        }
        assert(vs[1] == ts@[1]@ && vs[2] == ts@[2]@);
        match parse_u16(&ts[1]) {
            Some(v) => {
                let d = parse_operand(&ts[2])?;
                Ok(Instruction::put(v, d))
            },
            None => Err(ParseError::InvalidValue(string_of(&ts[1]))),
        }
    } else {
        Err(ParseError::NoSuchInstruction(string_of(m)))
    }
}

impl Instruction {
    /// The instruction written on one line of source text.
    pub fn try_from_str(s: &str) -> (r: Result<Self, ParseError>)
        ensures
            match parse_tokens_spec(tokens_of(s@)) {
                Ok(i) => r == Ok::<Instruction, ParseError>(i),
                Err(f) => r matches Err(e) && e@ == f,
            },
    {
        let cs = chars_of(s);
        let ts = tokenize(&cs);
        parse_tokens(&ts)
    }

    /// The opcode of this instruction.
    pub fn opcode(&self) -> (r: u8)
        ensures
            r == opcode(*self),
    {
        match self {
            Instruction::halt => 0,
            Instruction::add { .. } => 1,
            Instruction::copy(_, _) => 2,
            Instruction::jump(_, _) => 3,
            Instruction::read(_, _) => 4,
            Instruction::mul { .. } => 5,
            Instruction::noop => 6,
            Instruction::put(_, _) => 7,
            Instruction::write(_, _) => 8,
            Instruction::sub { .. } => 9,
            Instruction::push(_) => 10,
            Instruction::pop(_) => 11,
        }
    }

    /// The four bytes of this instruction, first byte first.
    pub fn to_bytes(&self) -> (r: [u8; 4])
        ensures
            (r[0], r[1], r[2], r[3]) == encode_bytes(*self),
    {
        let op = self.opcode();
        match self {
            Instruction::halt => [op, 0, 0, 0],
            Instruction::noop => [op, 0, 0, 0],
            Instruction::put(v, d) => [op, (*v % 256) as u8, (*v / 256) as u8, d.id()],
            Instruction::push(r) => [op, r.id(), 0, 0],
            Instruction::pop(r) => [op, r.id(), 0, 0],
            Instruction::add { x, y } => [op, x.id(), y.id(), 0],
            Instruction::copy(x, y) => [op, x.id(), y.id(), 0],
            Instruction::jump(x, y) => [op, x.id(), y.id(), 0],
            Instruction::read(x, y) => [op, x.id(), y.id(), 0],
            Instruction::mul { x, y } => [op, x.id(), y.id(), 0],
            Instruction::write(x, y) => [op, x.id(), y.id(), 0],
            Instruction::sub { x, y } => [op, x.id(), y.id(), 0],
        }
    }

    /// The encoding of this instruction as a word: its bytes, least
    /// significant first.
    pub fn to_u32(&self) -> (r: u32)
        ensures
            r == encode(*self),
    {
        let b = self.to_bytes();
        b[0] as u32 + b[1] as u32 * 0x100 + b[2] as u32 * 0x1_0000 + b[3] as u32 * 0x100_0000
    }

    /// The instruction that the word `encoded` holds.
    pub fn try_from_u32(encoded: u32) -> (r: Result<Self, DecodeError>)
        ensures
            r == decode(encoded),
    {
        let b0 = (encoded % 0x100) as u8;
        let b1 = ((encoded / 0x100) % 0x100) as u8;
        let b2 = ((encoded / 0x1_0000) % 0x100) as u8;
        let b3 = (encoded / 0x100_0000) as u8;
        Instruction::try_from_bytes(b0, b1, b2, b3)
    }

    fn register(x: u8) -> (r: Result<RegisterName, DecodeError>)
        ensures
            r == decode_register(x),
    {
        match RegisterName::try_decode(x) {
            Ok(n) => Ok(n),
            Err(e) => Err(DecodeError::Register(e)),
        }
    }

    /// The instruction that the bytes hold, first byte first.
    pub fn try_from_bytes(b0: u8, b1: u8, b2: u8, b3: u8) -> (r: Result<Self, DecodeError>)
        ensures
            r == decode_bytes((b0, b1, b2, b3)),
    {
        if b0 == 0 {
            Ok(Instruction::halt)
        } else if b0 == 6 {
            Ok(Instruction::noop)
        } else if b0 == 7 {
            let d = Instruction::register(b3)?;
            Ok(Instruction::put(b1 as u16 + b2 as u16 * 256, d))
        } else if b0 == 10 || b0 == 11 {
            let r = Instruction::register(b1)?;
            if b0 == 10 {
                Ok(Instruction::push(r))
            } else {
                Ok(Instruction::pop(r))
            }
        } else if 1 <= b0 && b0 <= 5 || b0 == 8 || b0 == 9 {
            let x = Instruction::register(b1)?;
            let y = Instruction::register(b2)?;
            if b0 == 1 {
                Ok(Instruction::add { x, y })
            } else if b0 == 2 {
                Ok(Instruction::copy(x, y))
            } else if b0 == 3 {
                Ok(Instruction::jump(x, y))
            } else if b0 == 4 {
                Ok(Instruction::read(x, y))
            } else if b0 == 5 {
                Ok(Instruction::mul { x, y })
            } else if b0 == 8 {
                Ok(Instruction::write(x, y))
            } else {
                Ok(Instruction::sub { x, y })
            }
        } else {
            Err(DecodeError::NoSuchInstruction(b0))
        }
    }
}

} // verus!

verus! {

/// Splitting a word into bytes undoes building it from them.
pub proof fn lemma_unpack_pack(b: (u8, u8, u8, u8))
    ensures
        unpack(pack(b)) == b,
{
    let (b0, b1, b2, b3) = (b.0 as int, b.1 as int, b.2 as int, b.3 as int);
    let w = b0 + b1 * 0x100 + b2 * 0x1_0000 + b3 * 0x100_0000;
    assert(pack(b) as int == w);
    lemma_fundamental_div_mod_converse(w, 0x100, b1 + b2 * 0x100 + b3 * 0x1_0000, b0);
    lemma_fundamental_div_mod_converse(b1 + b2 * 0x100 + b3 * 0x1_0000, 0x100, b2 + b3 * 0x100, b1);
    lemma_fundamental_div_mod_converse(w, 0x1_0000, b2 + b3 * 0x100, b0 + b1 * 0x100);
    lemma_fundamental_div_mod_converse(b2 + b3 * 0x100, 0x100, b3, b2);
    lemma_fundamental_div_mod_converse(w, 0x100_0000, b3, b0 + b1 * 0x100 + b2 * 0x1_0000);
}

/// Decoding the encoding of any instruction gives that instruction back.
pub proof fn lemma_decode_encode(i: Instruction)
    ensures
        decode(encode(i)) == Ok::<Instruction, DecodeError>(i),
{
    lemma_unpack_pack(encode_bytes(i));
    match i {
        Instruction::put(v, d) => {
            assert((v % 256) as u8 as int + (v / 256) as u8 as int * 256 == v as int);
            lemma_register_id_round_trip(d);
        },
        Instruction::push(r) => lemma_register_id_round_trip(r),
        Instruction::pop(r) => lemma_register_id_round_trip(r),
        Instruction::add { x, y } => {
            lemma_register_id_round_trip(x);
            lemma_register_id_round_trip(y);
        },
        Instruction::copy(x, y) => {
            lemma_register_id_round_trip(x);
            lemma_register_id_round_trip(y);
        },
        Instruction::jump(x, y) => {
            lemma_register_id_round_trip(x);
            lemma_register_id_round_trip(y);
        },
        Instruction::read(x, y) => {
            lemma_register_id_round_trip(x);
            lemma_register_id_round_trip(y);
        },
        Instruction::mul { x, y } => {
            lemma_register_id_round_trip(x);
            lemma_register_id_round_trip(y);
        },
        Instruction::write(x, y) => {
            lemma_register_id_round_trip(x);
            lemma_register_id_round_trip(y);
        },
        Instruction::sub { x, y } => {
            lemma_register_id_round_trip(x);
            lemma_register_id_round_trip(y);
        },
        _ => {},
    }
}

/// A word whose first byte is zero decodes to `halt`, whatever its other bytes.
pub proof fn lemma_zero_opcode_halts(w: u32)
    requires
        unpack(w).0 == 0,
    ensures
        decode(w) == Ok::<Instruction, DecodeError>(Instruction::halt),
{
}

} // verus!
