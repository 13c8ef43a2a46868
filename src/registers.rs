use vstd::prelude::*;

use crate::text::chars_of;

verus! {

/// The names a program may use for the machine's storage cells.
///
/// `out` is a pseudo-register: it has no storage and is reachable only as
/// the destination of `copy`.
#[allow(non_camel_case_types)]
#[derive(Debug, PartialEq, Eq, Clone, Copy, Structural)]
pub enum RegisterName {
    gp0,
    gp1,
    gp2,
    gp3,
    gp4,
    gp5,
    gp6,
    gp7,
    ans,
    dvc,
    out,
    pc,
    sp,
}

/// The byte that stands for each register in an encoded instruction.
pub open spec fn register_id(r: RegisterName) -> u8 {
    match r {
        RegisterName::gp0 => 0,
        RegisterName::gp1 => 1,
        RegisterName::gp2 => 2,
        RegisterName::gp3 => 3,
        RegisterName::gp4 => 4,
        RegisterName::gp5 => 5,
        RegisterName::gp6 => 6,
        RegisterName::gp7 => 7,
        RegisterName::ans => 8,
        RegisterName::dvc => 9,
        RegisterName::out => 10,
        RegisterName::pc => 11,
        RegisterName::sp => 12,
    }
}

/// The register that a byte stands for, if any.
pub open spec fn register_with_id(x: u8) -> Option<RegisterName> {
    if x == 0 {
        Some(RegisterName::gp0)
    } else if x == 1 {
        Some(RegisterName::gp1)
    } else if x == 2 {
        Some(RegisterName::gp2)
    } else if x == 3 {
        Some(RegisterName::gp3)
    } else if x == 4 {
        Some(RegisterName::gp4)
    } else if x == 5 {
        Some(RegisterName::gp5)
    } else if x == 6 {
        Some(RegisterName::gp6)
    } else if x == 7 {
        Some(RegisterName::gp7)
    } else if x == 8 {
        Some(RegisterName::ans)
    } else if x == 9 {
        Some(RegisterName::dvc)
    } else if x == 10 {
        Some(RegisterName::out)
    } else if x == 11 {
        Some(RegisterName::pc)
    } else if x == 12 {
        Some(RegisterName::sp)
    } else {
        None
    }
}

/// The register that a source token names, if any.
pub open spec fn register_named(t: Seq<char>) -> Option<RegisterName> {
    if t == seq!['g', 'p', '0'] {
        Some(RegisterName::gp0)
    } else if t == seq!['g', 'p', '1'] {
        Some(RegisterName::gp1)
    } else if t == seq!['g', 'p', '2'] {
        Some(RegisterName::gp2)
    } else if t == seq!['g', 'p', '3'] {
        Some(RegisterName::gp3)
    } else if t == seq!['g', 'p', '4'] {
        Some(RegisterName::gp4)
    } else if t == seq!['g', 'p', '5'] {
        Some(RegisterName::gp5)
    } else if t == seq!['g', 'p', '6'] {
        Some(RegisterName::gp6)
    } else if t == seq!['g', 'p', '7'] {
        Some(RegisterName::gp7)
    } else if t == seq!['a', 'n', 's'] {
        Some(RegisterName::ans)
    } else if t == seq!['d', 'v', 'c'] {
        Some(RegisterName::dvc)
    } else if t == seq!['o', 'u', 't'] {
        Some(RegisterName::out)
    } else if t == seq!['p', 'c'] {
        Some(RegisterName::pc)
    } else if t == seq!['s', 'p'] {
        Some(RegisterName::sp)
    } else {
        None
    }
}

/// Every register's byte decodes back to that register.
pub proof fn lemma_register_id_round_trip(r: RegisterName)
    ensures
        register_with_id(register_id(r)) == Some(r),
{
}

/// The storage of the machine's registers: eight general-purpose cells,
/// the result cell `ans`, the device selector `dvc`, the program counter
/// `pc` and the stack pointer `sp`.
#[allow(non_snake_case)]
#[derive(Debug)]
pub struct RegisterFile {
    pub gp0: u16,
    pub gp1: u16,
    pub gp2: u16,
    pub gp3: u16,
    pub gp4: u16,
    pub gp5: u16,
    pub gp6: u16,
    pub gp7: u16,
    pub ans: u16,
    pub pc: u16,
    pub dvc: u16,
    pub sp: u16,
}

#[derive(Debug, PartialEq)]
pub enum ParseError {
    NoSuchRegisterName(String),
}

#[derive(Debug, PartialEq, Eq, Clone, Copy, Structural)]
pub enum DecodeError {
    NoSuchRegisterID(u8),
}

#[derive(Debug, PartialEq, Eq, Clone, Copy, Structural)]
pub enum AccessError {
    PseudoRegister(RegisterName),
}

impl RegisterFile {
    /// The value held in the cell of `r` (`out` has no cell; it reads as 0 here).
    pub open spec fn get(&self, r: RegisterName) -> u16 {
        match r {
            RegisterName::gp0 => self.gp0,
            RegisterName::gp1 => self.gp1,
            RegisterName::gp2 => self.gp2,
            RegisterName::gp3 => self.gp3,
            RegisterName::gp4 => self.gp4,
            RegisterName::gp5 => self.gp5,
            RegisterName::gp6 => self.gp6,
            RegisterName::gp7 => self.gp7,
            RegisterName::ans => self.ans,
            RegisterName::dvc => self.dvc,
            RegisterName::out => 0,
            RegisterName::pc => self.pc,
            RegisterName::sp => self.sp,
        }
    }

    /// The register file with the cell of `r` set to `v` (unchanged for `out`).
    pub open spec fn set(self, r: RegisterName, v: u16) -> RegisterFile {
        match r {
            RegisterName::gp0 => RegisterFile { gp0: v, ..self },
            RegisterName::gp1 => RegisterFile { gp1: v, ..self },
            RegisterName::gp2 => RegisterFile { gp2: v, ..self },
            RegisterName::gp3 => RegisterFile { gp3: v, ..self },
            RegisterName::gp4 => RegisterFile { gp4: v, ..self },
            RegisterName::gp5 => RegisterFile { gp5: v, ..self },
            RegisterName::gp6 => RegisterFile { gp6: v, ..self },
            RegisterName::gp7 => RegisterFile { gp7: v, ..self },
            RegisterName::ans => RegisterFile { ans: v, ..self },
            RegisterName::dvc => RegisterFile { dvc: v, ..self },
            RegisterName::out => self,
            RegisterName::pc => RegisterFile { pc: v, ..self },
            RegisterName::sp => RegisterFile { sp: v, ..self },
        }
    }

    /// All cells zero but the stack pointer, which starts at the top of memory.
    pub open spec fn initial() -> RegisterFile {
        RegisterFile {
            gp0: 0,
            gp1: 0,
            gp2: 0,
            gp3: 0,
            gp4: 0,
            gp5: 0,
            gp6: 0,
            gp7: 0,
            ans: 0,
            pc: 0,
            dvc: 0,
            sp: 65534,
        }
    }

    pub fn new() -> (r: Self)
        ensures
            r == RegisterFile::initial(),
    {
        RegisterFile {
            gp0: 0,
            gp1: 0,
            gp2: 0,
            gp3: 0,
            gp4: 0,
            gp5: 0,
            gp6: 0,
            gp7: 0,
            ans: 0,
            pc: 0,
            dvc: 0,
            sp: 65534,
        }
    }

    /// Stores `val` in the cell of `name`; `out` has no cell and is refused.
    pub fn write(&mut self, name: RegisterName, val: u16) -> (r: Result<(), AccessError>)
        ensures
            name == RegisterName::out ==> r == Err::<(), AccessError>(
                AccessError::PseudoRegister(name),
            ) && *final(self) == *old(self),
            name != RegisterName::out ==> r == Ok::<(), AccessError>(()) && *final(self) == old(
                self,
            ).set(name, val),
    {
        match name {
            RegisterName::gp0 => { self.gp0 = val },
            RegisterName::gp1 => { self.gp1 = val },
            RegisterName::gp2 => { self.gp2 = val },
            RegisterName::gp3 => { self.gp3 = val },
            RegisterName::gp4 => { self.gp4 = val },
            RegisterName::gp5 => { self.gp5 = val },
            RegisterName::gp6 => { self.gp6 = val },
            RegisterName::gp7 => { self.gp7 = val },
            RegisterName::ans => { self.ans = val },
            RegisterName::dvc => { self.dvc = val },
            RegisterName::out => { return Err(AccessError::PseudoRegister(name)) },
            RegisterName::pc => { self.pc = val },
            RegisterName::sp => { self.sp = val },
        }
        Ok(())
    }

    /// The value in the cell of `name`; `out` has no cell and is refused.
    pub fn read(&mut self, name: RegisterName) -> (r: Result<u16, AccessError>)
        ensures
            *final(self) == *old(self),
            name == RegisterName::out ==> r == Err::<u16, AccessError>(
                AccessError::PseudoRegister(name),
            ),
            name != RegisterName::out ==> r == Ok::<u16, AccessError>(old(self).get(name)),
    {
        let val = match name {
            RegisterName::gp0 => self.gp0,
            RegisterName::gp1 => self.gp1,
            RegisterName::gp2 => self.gp2,
            RegisterName::gp3 => self.gp3,
            RegisterName::gp4 => self.gp4,
            RegisterName::gp5 => self.gp5,
            RegisterName::gp6 => self.gp6,
            RegisterName::gp7 => self.gp7,
            RegisterName::ans => self.ans,
            RegisterName::dvc => self.dvc,
            RegisterName::out => { return Err(AccessError::PseudoRegister(name)) },
            RegisterName::pc => self.pc,
            RegisterName::sp => self.sp,
        };
        Ok(val)
    }
}

impl RegisterName {
    /// The byte that stands for this register in an encoded instruction.
    pub fn id(&self) -> (r: u8)
        ensures
            r == register_id(*self),
    {
        match self {
            RegisterName::gp0 => 0,
            RegisterName::gp1 => 1,
            RegisterName::gp2 => 2,
            RegisterName::gp3 => 3,
            RegisterName::gp4 => 4,
            RegisterName::gp5 => 5,
            RegisterName::gp6 => 6,
            RegisterName::gp7 => 7,
            RegisterName::ans => 8,
            RegisterName::dvc => 9,
            RegisterName::out => 10,
            RegisterName::pc => 11,
            RegisterName::sp => 12,
        }
    }

    /// The register that the token `t` names, if any.
    pub fn from_chars(t: &Vec<char>) -> (r: Option<RegisterName>)
        ensures
            r == register_named(t@),
    {
        if t.len() == 3 {
            let a = t[0];
            let b = t[1];
            let c = t[2];
            if a == 'g' && b == 'p' {
                let r = if c == '0' {
                    Some(RegisterName::gp0)
                } else if c == '1' {
                    Some(RegisterName::gp1)
                } else if c == '2' {
                    Some(RegisterName::gp2)
                } else if c == '3' {
                    Some(RegisterName::gp3)
                } else if c == '4' {
                    Some(RegisterName::gp4)
                } else if c == '5' {
                    Some(RegisterName::gp5)
                } else if c == '6' {
                    Some(RegisterName::gp6)
                } else if c == '7' {
                    Some(RegisterName::gp7)
                } else {
                    None
                };
                assert(t@ =~= seq![a, b, c]);
                r
            } else if a == 'a' && b == 'n' && c == 's' {
                assert(t@ =~= seq!['a', 'n', 's']);
                Some(RegisterName::ans)
            } else if a == 'd' && b == 'v' && c == 'c' {
                assert(t@ =~= seq!['d', 'v', 'c']);
                Some(RegisterName::dvc)
            } else if a == 'o' && b == 'u' && c == 't' {
                assert(t@ =~= seq!['o', 'u', 't']);
                Some(RegisterName::out)
            } else {
                assert(t@ =~= seq![a, b, c]);
                None
            }
        } else if t.len() == 2 {
            let a = t[0];
            let b = t[1];
            assert(t@ =~= seq![a, b]);
            if a == 'p' && b == 'c' {
                Some(RegisterName::pc)
            } else if a == 's' && b == 'p' {
                Some(RegisterName::sp)
            } else {
                None
            }
        } else {
            None
        }
    }

    /// The register that the text `s` names, or the text itself as the error.
    pub fn try_parse(s: &str) -> (r: Result<Self, ParseError>)
        ensures
            register_named(s@) matches Some(n) ==> r == Ok::<RegisterName, ParseError>(n),
            register_named(s@) is None ==> (r matches Err(ParseError::NoSuchRegisterName(t))
                && t@ == s@),
    {
        let t = chars_of(s);
        match RegisterName::from_chars(&t) {
            Some(n) => Ok(n),
            None => Err(ParseError::NoSuchRegisterName(s.to_owned())),
        }
    }

    /// The register that the byte `x` stands for, or the byte itself as the error.
    pub fn try_decode(x: u8) -> (r: Result<Self, DecodeError>)
        ensures
            register_with_id(x) matches Some(n) ==> r == Ok::<RegisterName, DecodeError>(n),
            register_with_id(x) is None ==> r == Err::<RegisterName, DecodeError>(
                DecodeError::NoSuchRegisterID(x),
            ),
    {
        match x {
            0 => Ok(RegisterName::gp0),
            1 => Ok(RegisterName::gp1),
            2 => Ok(RegisterName::gp2),
            3 => Ok(RegisterName::gp3),
            4 => Ok(RegisterName::gp4),
            5 => Ok(RegisterName::gp5),
            6 => Ok(RegisterName::gp6),
            7 => Ok(RegisterName::gp7),
            8 => Ok(RegisterName::ans),
            9 => Ok(RegisterName::dvc),
            10 => Ok(RegisterName::out),
            11 => Ok(RegisterName::pc),
            12 => Ok(RegisterName::sp),
            _ => Err(DecodeError::NoSuchRegisterID(x)),
        }
    }
}

} // verus!
