use vstd::prelude::*;

use std::collections::HashMap;

use crate::instructions;
use crate::registers::{register_named, RegisterName};
use crate::instructions::{encode_bytes, parse_tokens, parse_tokens_spec, Instruction, ParseFault};
use crate::text::{
    u16_literal,
    chars_equal, chars_of, decimal_text, lemma_decimal_text_reads_back, lemma_line_count, lines_of, push_decimal, split_lines, string_of,
    tokenize, tokens_of, views,
};

verus! {

/// The width of every encoded instruction, in bytes.
pub const WIDTH: usize = 4;

/// Lines that hold no instruction: empty ones and comments (`#` or `;`).
pub open spec fn skippable(line: Seq<char>) -> bool {
    line.len() == 0 || line[0] == '#' || line[0] == ';'
}

/// Tokens that define or refer to a label start with `.`.
pub open spec fn is_label_token(t: Seq<char>) -> bool {
    t.len() > 0 && t[0] == '.'
}

/// The number of lines of `lines` that hold an instruction.
pub open spec fn code_count(lines: Seq<Seq<char>>) -> nat
    decreases lines.len(),
{
    if lines.len() == 0 {
        0
    } else {
        code_count(lines.drop_last()) + if skippable(lines.last()) {
            0nat
        } else {
            1nat
        }
    }
}

/// Whether `line` defines the label `t`: its last token is `t`.
pub open spec fn defines(line: Seq<char>, t: Seq<char>) -> bool {
    !skippable(line) && is_label_token(t) && tokens_of(line).len() > 0 && tokens_of(line).last()
        == t
}

/// The address of the label `t` in `lines`: that of the first line that
/// defines it, each instruction taking `WIDTH` bytes from address 0.
pub open spec fn label_of(lines: Seq<Seq<char>>, t: Seq<char>) -> Option<nat>
    decreases lines.len(),
{
    if lines.len() == 0 {
        None
    } else {
        match label_of(lines.drop_last(), t) {
            Some(a) => Some(a),
            None => if defines(lines.last(), t) {
                Some(4 * code_count(lines.drop_last()))
            } else {
                None
            },
        }
    }
}

/// The tokens `ts` with each label reference replaced by the decimal text of
/// its address, or the first reference to a label that `lines` lacks.
pub open spec fn resolve(lines: Seq<Seq<char>>, ts: Seq<Seq<char>>) -> Result<
    Seq<Seq<char>>,
    Seq<char>,
>
    decreases ts.len(),
{
    if ts.len() == 0 {
        Ok(Seq::empty())
    } else {
        match resolve(lines, ts.drop_last()) {
            Err(t) => Err(t),
            Ok(r) => {
                let t = ts.last();
                if is_label_token(t) {
                    match label_of(lines, t) {
                        Some(a) => Ok(r.push(decimal_text(a))),
                        None => Err(t),
                    }
                } else {
                    Ok(r.push(t))
                }
            },
        }
    }
}

/// `CompilationError` with its texts as character sequences.
pub enum CompileFault {
    Parse(ParseFault),
    UndefinedLabel(Seq<char>),
}

/// The instruction on the line `line` of `lines`.
pub open spec fn line_instruction(lines: Seq<Seq<char>>, line: Seq<char>) -> Result<
    Instruction,
    CompileFault,
> {
    match resolve(lines, tokens_of(line)) {
        Err(t) => Err(CompileFault::UndefinedLabel(t)),
        Ok(ts) => match parse_tokens_spec(ts) {
            Ok(i) => Ok(i),
            Err(f) => Err(CompileFault::Parse(f)),
        },
    }
}

/// The instructions of the first `n` lines of `lines`, or the first error.
pub open spec fn compile_upto(lines: Seq<Seq<char>>, n: nat) -> Result<
    Seq<Instruction>,
    CompileFault,
>
    decreases n,
{
    if n == 0 {
        Ok(Seq::empty())
    } else {
        match compile_upto(lines, (n - 1) as nat) {
            Err(e) => Err(e),
            Ok(is) => if skippable(lines[n - 1]) {
                Ok(is)
            } else {
                match line_instruction(lines, lines[n - 1]) {
                    Ok(i) => Ok(is.push(i)),
                    Err(e) => Err(e),
                }
            },
        }
    }
}

/// The program written by `lines`, or the first error in it.
pub open spec fn compile(lines: Seq<Seq<char>>) -> Result<Seq<Instruction>, CompileFault> {
    compile_upto(lines, lines.len())
}

/// For the first `n` lines: the map from each instruction's address (as a
/// 16-bit value) to the index of the line it came from.
pub open spec fn addrs_upto(lines: Seq<Seq<char>>, n: nat) -> Map<u16, usize>
    decreases n,
{
    if n == 0 {
        Map::empty()
    } else {
        let m = addrs_upto(lines, (n - 1) as nat);
        if skippable(lines[n - 1]) {
            m
        } else {
            m.insert(
                (4 * code_count(lines.subrange(0, n - 1))) as u16,
                (n - 1) as usize,
            )
        }
    }
}

/// The byte at `k` of the encoding of `instrs`, instructions one after the
/// other.
pub open spec fn program_byte(instrs: Seq<Instruction>, k: int) -> u8 {
    let b = encode_bytes(instrs[k / 4]);
    if k % 4 == 0 {
        b.0
    } else if k % 4 == 1 {
        b.1
    } else if k % 4 == 2 {
        b.2
    } else {
        b.3
    }
}

/// The encoding of `instrs`, instructions one after the other.
pub open spec fn program_bytes(instrs: Seq<Instruction>) -> Seq<u8> {
    Seq::new(4 * instrs.len(), |k: int| program_byte(instrs, k))
}

} // verus!

verus! {

/// Why source text does not compile.
#[derive(Debug)]
pub enum CompilationError {
    InstructionParseError(instructions::ParseError),
    UndefinedLabel(String),
}

impl View for CompilationError {
    type V = CompileFault;

    open spec fn view(&self) -> CompileFault {
        match self {
            CompilationError::InstructionParseError(e) => CompileFault::Parse(e@),
            CompilationError::UndefinedLabel(s) => CompileFault::UndefinedLabel(s@),
        }
    }
}

/// A compiled program: its instructions, the source lines for display, and
/// for each instruction's address the index of the line it came from.
pub struct Program {
    pub instructions: Vec<Instruction>,
    pub source_lines: Vec<String>,
    pub source_addrs: HashMap<u16, usize>,
}

/// The labels defined so far, each with its address, first definition first.
pub open spec fn assoc(v: Seq<(Vec<char>, usize)>, t: Seq<char>) -> Option<nat>
    decreases v.len(),
{
    if v.len() == 0 {
        None
    } else {
        match assoc(v.drop_last(), t) {
            Some(a) => Some(a),
            None => if v.last().0@ == t {
                Some(v.last().1 as nat)
            } else {
                None
            },
        }
    }
}

/// A label found in a prefix of the table keeps its address in the whole.
proof fn lemma_assoc_prefix(v: Seq<(Vec<char>, usize)>, k: int, t: Seq<char>)
    requires
        0 <= k <= v.len(),
        assoc(v.subrange(0, k), t) is Some,
    ensures
        assoc(v, t) == assoc(v.subrange(0, k), t),
    decreases v.len() - k,
{
    if k < v.len() {
        assert(v.subrange(0, k + 1).drop_last() =~= v.subrange(0, k));
        lemma_assoc_prefix(v, k + 1, t);
    } else {
        assert(v.subrange(0, k) =~= v);
    }
}

/// The character sequences of a list of strings.
pub open spec fn string_views(v: Seq<String>) -> Seq<Seq<char>> {
    v.map_values(|s: String| s@)
}

fn copy_chars(v: &Vec<char>) -> (r: Vec<char>)
    ensures
        r@ == v@,
{
    let mut r: Vec<char> = Vec::new();
    let mut i: usize = 0;
    while i < v.len()
        invariant
            i <= v.len(),
            r@ == v@.subrange(0, i as int),
        decreases v.len() - i,
    {
        r.push(v[i]);
        i = i + 1;
    }
    assert(r@ =~= v@);
    r
}

fn is_skippable(line: &Vec<char>) -> (r: bool)
    ensures
        r == skippable(line@),
{
    line.len() == 0 || line[0] == '#' || line[0] == ';'
}

fn is_label(t: &Vec<char>) -> (r: bool)
    ensures
        r == is_label_token(t@),
{
    t.len() > 0 && t[0] == '.'
}

/// The address of the label `t` in the table.
fn lookup(labels: &Vec<(Vec<char>, usize)>, t: &Vec<char>) -> (r: Option<usize>)
    ensures
        r is Some <==> assoc(labels@, t@) is Some,
        r matches Some(a) ==> assoc(labels@, t@) == Some(a as nat),
{
    let mut k: usize = 0;
    while k < labels.len()
        invariant
            k <= labels.len(),
            assoc(labels@.subrange(0, k as int), t@) is None,
        decreases labels.len() - k,
    {
        let ghost pre = labels@.subrange(0, k as int);
        assert(labels@.subrange(0, k + 1).drop_last() =~= pre);
        if chars_equal(&labels[k].0, t) {
            proof {
                lemma_assoc_prefix(labels@, k + 1, t@);
            }
            return Some(labels[k].1);
        }
        k = k + 1;
    }
    assert(labels@.subrange(0, labels.len() as int) =~= labels@);
    None
}

/// The tokens `ts` with each label reference replaced by the decimal text of
/// its address, or the first reference to an undefined label.
fn resolve_tokens(
    labels: &Vec<(Vec<char>, usize)>,
    ts: &Vec<Vec<char>>,
    Ghost(lines): Ghost<Seq<Seq<char>>>,
) -> (r: Result<Vec<Vec<char>>, Vec<char>>)
    requires
        forall|t: Seq<char>| #[trigger] assoc(labels@, t) == label_of(lines, t),
    ensures
        match resolve(lines, views(ts@)) {
            Ok(rs) => r matches Ok(v) && views(v@) == rs,
            Err(t) => r matches Err(v) && v@ == t,
        },
{
    let mut out: Vec<Vec<char>> = Vec::new();
    let mut i: usize = 0;
    assert(views(out@) =~= Seq::<Seq<char>>::empty());
    assert(views(ts@).subrange(0, 0) =~= Seq::<Seq<char>>::empty());
    while i < ts.len()
        invariant
            i <= ts.len(),
            forall|t: Seq<char>| #[trigger] assoc(labels@, t) == label_of(lines, t),
            resolve(lines, views(ts@).subrange(0, i as int)) == Ok::<
                Seq<Seq<char>>,
                Seq<char>,
            >(views(out@)),
        decreases ts.len() - i,
    {
        let ghost pre = views(ts@).subrange(0, i as int);
        let ghost cur = views(ts@).subrange(0, i + 1);
        assert(cur.drop_last() =~= pre);
        assert(cur.last() == ts@[i as int]@);
        let t = &ts[i];
        let ghost vo = views(out@);
        assert(assoc(labels@, t@) == label_of(lines, t@));
        if is_label(t) {
            match lookup(labels, t) {
                Some(a) => {
                    let mut d: Vec<char> = Vec::new();
                    push_decimal(a, &mut d);
                    assert(d@ =~= decimal_text(a as nat));
                    out.push(d);
                    assert(views(out@) =~= vo.push(decimal_text(a as nat)));
                    assert(resolve(lines, cur) == Ok::<Seq<Seq<char>>, Seq<char>>(views(out@)));
                },
                None => {
                    proof {
                        lemma_resolve_err_extends(lines, views(ts@), i + 1);
                    }
                    return Err(copy_chars(t));
                },
            }
        } else {
            let c = copy_chars(t);
            out.push(c);
            assert(views(out@) =~= vo.push(t@));
            assert(resolve(lines, cur) == Ok::<Seq<Seq<char>>, Seq<char>>(views(out@)));
        }
        i = i + 1;
    }
    assert(views(ts@).subrange(0, ts.len() as int) =~= views(ts@));
    Ok(out)
}

/// An unresolved reference in a prefix of the tokens makes the whole fail
/// on it.
proof fn lemma_resolve_err_extends(lines: Seq<Seq<char>>, ts: Seq<Seq<char>>, k: int)
    requires
        0 <= k <= ts.len(),
        resolve(lines, ts.subrange(0, k)) is Err,
    ensures
        resolve(lines, ts) == resolve(lines, ts.subrange(0, k)),
    decreases ts.len() - k,
{
    if k < ts.len() {
        assert(ts.subrange(0, k + 1).drop_last() =~= ts.subrange(0, k));
        lemma_resolve_err_extends(lines, ts, k + 1);
    } else {
        assert(ts.subrange(0, k) =~= ts);
    }
}

} // verus!

verus! {

/// The label table of `lines` (the first pass).
fn collect_labels(lines: &Vec<Vec<char>>) -> (r: Vec<(Vec<char>, usize)>)
    requires
        4 * lines.len() <= usize::MAX,
    ensures
        forall|t: Seq<char>| #[trigger] assoc(r@, t) == label_of(views(lines@), t),
{
    let ghost all = views(lines@);
    let mut labels: Vec<(Vec<char>, usize)> = Vec::new();
    let mut address: usize = 0;
    let mut i: usize = 0;
    assert(all.subrange(0, 0) =~= Seq::<Seq<char>>::empty());
    while i < lines.len()
        invariant
            i <= lines.len(),
            4 * lines.len() <= usize::MAX,
            all == views(lines@),
            address == 4 * code_count(all.subrange(0, i as int)),
            code_count(all.subrange(0, i as int)) <= i,
            forall|t: Seq<char>| #[trigger]
                assoc(labels@, t) == label_of(all.subrange(0, i as int), t),
        decreases lines.len() - i,
    {
        let ghost pre = all.subrange(0, i as int);
        let ghost cur = all.subrange(0, i + 1);
        assert(cur.drop_last() =~= pre);
        assert(cur.last() == lines@[i as int]@);
        let line = &lines[i];
        let ghost old_labels = labels@;
        if !is_skippable(line) {
            let ts = tokenize(line);
            if ts.len() > 0 && is_label(&ts[ts.len() - 1]) {
                let last = &ts[ts.len() - 1];
                assert(tokens_of(line@).last() == last@);
                if lookup(&labels, last).is_none() {
                    labels.push((copy_chars(last), address));
                }
                assert forall|t: Seq<char>| #[trigger]
                    assoc(labels@, t) == label_of(cur, t) by {
                    if labels@.len() > old_labels.len() {
                        assert(labels@.drop_last() =~= old_labels);
                    }
                    assert(assoc(old_labels, t) == label_of(pre, t));
                }
            } else {
                assert forall|t: Seq<char>| #[trigger]
                    assoc(labels@, t) == label_of(cur, t) by {
                    assert(assoc(old_labels, t) == label_of(pre, t));
                }
            }
            address = address + 4;
        } else {
            assert forall|t: Seq<char>| #[trigger] assoc(labels@, t) == label_of(cur, t) by {
                assert(assoc(old_labels, t) == label_of(pre, t));
            }
        }
        i = i + 1;
    }
    assert(all.subrange(0, lines.len() as int) =~= all);
    labels
}

/// A failure in a prefix of the lines is the failure of the whole.
proof fn lemma_compile_err_extends(lines: Seq<Seq<char>>, k: nat, n: nat)
    requires
        k <= n,
        compile_upto(lines, k) is Err,
    ensures
        compile_upto(lines, n) == compile_upto(lines, k),
    decreases n - k,
{
    if k < n {
        lemma_compile_err_extends(lines, k, (n - 1) as nat);
    }
}

impl Program {
    /// The instructions of the program.
    pub open spec fn instrs(&self) -> Seq<Instruction> {
        self.instructions@
    }

    /// The size of the program in bytes fits in `usize`.
    pub open spec fn wf(&self) -> bool {
        4 * self.instrs().len() <= usize::MAX
    }

    /// Compiles assembly text: a first pass collects the labels, a second
    /// resolves references to them and parses each line that is neither
    /// blank nor a comment. The first error ends the compilation.
    pub fn try_compile(source: &str) -> (r: Result<Self, CompilationError>)
        requires
            4 * source@.len() <= usize::MAX,
        ensures
            match compile(lines_of(source@)) {
                Ok(is) => r matches Ok(p) && p.wf() && p.instrs() == is && string_views(
                    p.source_lines@,
                ) == lines_of(source@) && p.source_addrs@ == addrs_upto(
                    lines_of(source@),
                    lines_of(source@).len(),
                ),
                Err(f) => r matches Err(e) && e@ == f,
            },
    {
        let chars = chars_of(source);
        let lines = split_lines(&chars);
        let ghost all = views(lines@);
        proof {
            lemma_line_count(source@);
        }
        let labels = collect_labels(&lines);
        let mut instructions: Vec<Instruction> = Vec::new();
        let mut source_lines: Vec<String> = Vec::new();
        let mut source_addrs: HashMap<u16, usize> = HashMap::new();
        let mut n: usize = 0;
        assert(all.subrange(0, 0) =~= Seq::<Seq<char>>::empty());
        assert(string_views(source_lines@) =~= Seq::<Seq<char>>::empty());
        assert(source_addrs@ =~= Map::<u16, usize>::empty());
        while n < lines.len()
            invariant
                n <= lines.len(),
                4 * lines.len() <= usize::MAX,
                all == views(lines@),
                all == lines_of(source@),
                forall|t: Seq<char>| #[trigger] assoc(labels@, t) == label_of(all, t),
                string_views(source_lines@) == all.subrange(0, n as int),
                compile_upto(all, n as nat) == Ok::<Seq<Instruction>, CompileFault>(
                    instructions@,
                ),
                instructions.len() == code_count(all.subrange(0, n as int)),
                code_count(all.subrange(0, n as int)) <= n,
                source_addrs@ == addrs_upto(all, n as nat),
            decreases lines.len() - n,
        {
            let ghost pre = all.subrange(0, n as int);
            let ghost cur = all.subrange(0, n + 1);
            assert(cur.drop_last() =~= pre);
            assert(cur.last() == lines@[n as int]@);
            assert(all[n as int] == lines@[n as int]@);
            let line = &lines[n];
            let ghost old_lines = string_views(source_lines@);
            source_lines.push(string_of(line));
            assert(string_views(source_lines@) =~= old_lines.push(line@));
            if !is_skippable(line) {
                let ts = tokenize(line);
                let resolved = match resolve_tokens(&labels, &ts, Ghost(all)) {
                    Ok(v) => v,
                    Err(t) => {
                        proof {
                            lemma_compile_err_extends(all, (n + 1) as nat, all.len());
                        }
                        return Err(CompilationError::UndefinedLabel(string_of(&t)));
                    },
                };
                let instruction = match parse_tokens(&resolved) {
                    Ok(i) => i,
                    Err(e) => {
                        proof {
                            lemma_compile_err_extends(all, (n + 1) as nat, all.len());
                        }
                        return Err(CompilationError::InstructionParseError(e));
                    },
                };
                let address = instructions.len() * WIDTH;
                instructions.push(instruction);
                source_addrs.insert(address as u16, n);
            }
            n = n + 1;
        }
        assert(all.subrange(0, lines.len() as int) =~= all);
        Ok(Program { instructions, source_lines, source_addrs })
    }
}

} // verus!

verus! {

impl Program {
    /// The size of the encoded program, in bytes.
    pub fn size(&self) -> (r: usize)
        requires
            self.wf(),
        ensures
            r == 4 * self.instrs().len(),
    {
        self.instructions.len() * WIDTH
    }

    /// The encoded program, instruction after instruction.
    pub fn bytes(&self) -> (r: Vec<u8>)
        requires
            self.wf(),
        ensures
            r@ == program_bytes(self.instrs()),
    {
        let mut out: Vec<u8> = Vec::new();
        let mut each = EachByte::new(self);
        let ghost total = 4 * self.instrs().len();
        loop
            invariant
                self.wf(),
                each.wf(),
                each.source() == self,
                each.position() <= total,
                total == 4 * self.instrs().len(),
                out@ =~= program_bytes(self.instrs()).subrange(0, each.position() as int),
            ensures
                out@ =~= program_bytes(self.instrs()).subrange(0, total as int),
            decreases total - each.position(),
        {
            match each.next() {
                Some(b) => {
                    out.push(b);
                },
                None => {
                    break ;
                },
            }
        }
        assert(program_bytes(self.instrs()).subrange(0, total as int) =~= program_bytes(
            self.instrs(),
        ));
        out
    }
}

/// A cursor over the bytes of a program's encoding.
pub struct EachByte<'p> {
    program: &'p Program,
    instruction_number: usize,
    offset: usize,
}

impl<'p> EachByte<'p> {
    /// The program whose bytes are read.
    pub closed spec fn source(&self) -> &'p Program {
        self.program
    }

    /// The index of the next byte to read.
    pub closed spec fn position(&self) -> nat {
        (4 * self.instruction_number + self.offset) as nat
    }

    pub closed spec fn wf(&self) -> bool {
        &&& self.offset < 4
        &&& self.instruction_number <= self.program.instrs().len()
        &&& self.instruction_number == self.program.instrs().len() ==> self.offset == 0
        &&& self.program.wf()
    }

    /// A cursor at the first byte of `program`.
    pub fn new(program: &'p Program) -> (r: Self)
        requires
            program.wf(),
        ensures
            r.wf(),
            r.source() == program,
            r.position() == 0,
    {
        EachByte { program, instruction_number: 0, offset: 0 }
    }

    /// The next byte, if any is left; the cursor moves past it.
    pub fn next(&mut self) -> (r: Option<u8>)
        requires
            old(self).wf(),
        ensures
            final(self).wf(),
            final(self).source() == old(self).source(),
            old(self).position() < 4 * old(self).source().instrs().len() ==> r == Some(
                program_byte(old(self).source().instrs(), old(self).position() as int),
            ) && final(self).position() == old(self).position() + 1,
            old(self).position() >= 4 * old(self).source().instrs().len() ==> r is None
                && final(self).position() == old(self).position(),
    {
        if self.instruction_number >= self.program.instructions.len() {
            return None;
        }
        let ghost pos = self.position() as int;
        let bytes = self.program.instructions[self.instruction_number].to_bytes();
        let result = bytes[self.offset];
        assert(pos / 4 == self.instruction_number as int && pos % 4 == self.offset as int);
        self.offset = self.offset + 1;
        if self.offset >= 4 {
            self.offset = 0;
            self.instruction_number = self.instruction_number + 1;
        }
        Some(result)
    }
}

} // verus!

verus! {

/// The instructions compiled from a prefix of the lines are one per line
/// that holds an instruction.
proof fn lemma_compile_len(lines: Seq<Seq<char>>, k: nat)
    requires
        k <= lines.len(),
        compile_upto(lines, k) is Ok,
    ensures
        compile_upto(lines, k)->Ok_0.len() == code_count(lines.subrange(0, k as int)),
    decreases k,
{
    if k > 0 {
        lemma_compile_len(lines, (k - 1) as nat);
        assert(lines.subrange(0, k as int).drop_last() =~= lines.subrange(0, k - 1));
    }
}

/// Compiling more lines only adds instructions after those of fewer lines.
proof fn lemma_compile_prefix(lines: Seq<Seq<char>>, k: nat, m: nat)
    requires
        k <= m <= lines.len(),
        compile_upto(lines, m) is Ok,
    ensures
        compile_upto(lines, k) is Ok,
        compile_upto(lines, k)->Ok_0.len() <= compile_upto(lines, m)->Ok_0.len(),
        compile_upto(lines, m)->Ok_0.subrange(0, compile_upto(lines, k)->Ok_0.len() as int)
            == compile_upto(lines, k)->Ok_0,
    decreases m - k,
{
    if k < m {
        lemma_compile_prefix(lines, k, (m - 1) as nat);
        let a = compile_upto(lines, k)->Ok_0;
        let b = compile_upto(lines, (m - 1) as nat)->Ok_0;
        let c = compile_upto(lines, m)->Ok_0;
        assert(c.subrange(0, b.len() as int) =~= b);
        assert(c.subrange(0, a.len() as int) =~= b.subrange(0, a.len() as int));
    } else {
        let a = compile_upto(lines, k)->Ok_0;
        assert(a.subrange(0, a.len() as int) =~= a);
    }
}

/// A label reference used as the immediate of `put` compiles to the label's
/// address, wherever the label is defined, before or after the reference.
pub proof fn lemma_label_reference_resolves(
    lines: Seq<Seq<char>>,
    n: int,
    label: Seq<char>,
    reg: Seq<char>,
    a: nat,
    d: RegisterName,
)
    requires
        0 <= n < lines.len(),
        !skippable(lines[n]),
        tokens_of(lines[n]) == seq!["put"@, label, reg],
        is_label_token(label),
        label_of(lines, label) == Some(a),
        a <= 65535,
        register_named(reg) == Some(d),
        compile(lines) is Ok,
    ensures
        compile(lines)->Ok_0[code_count(lines.subrange(0, n)) as int] == Instruction::put(
            a as u16,
            d,
        ),
{
    reveal_strlit("put");
    reveal_strlit("halt");
    reveal_strlit("noop");
    reveal_strlit("add");
    reveal_strlit("copy");
    reveal_strlit("jump");
    reveal_strlit("mul");
    reveal_strlit("sub");
    reveal_strlit("write");
    reveal_strlit("read");
    reveal_strlit("push");
    reveal_strlit("pop");
    let p = "put"@;
    let ts = seq![p, label, reg];
    assert(!is_label_token(p));
    assert(!is_label_token(reg));
    assert(ts.drop_last() =~= seq![p, label]);
    assert(seq![p, label].drop_last() =~= seq![p]);
    assert(seq![p].drop_last() =~= Seq::<Seq<char>>::empty());
    let dec = decimal_text(a);
    assert(resolve(lines, Seq::<Seq<char>>::empty()) == Ok::<Seq<Seq<char>>, Seq<char>>(
        Seq::empty(),
    ));
    assert(Seq::<Seq<char>>::empty().push(p) =~= seq![p]);
    assert(resolve(lines, seq![p]) == Ok::<Seq<Seq<char>>, Seq<char>>(seq![p]));
    assert(seq![p].push(dec) =~= seq![p, dec]);
    assert(seq![p, dec].push(reg) =~= seq![p, dec, reg]);
    assert(resolve(lines, seq![p, label]) == Ok::<Seq<Seq<char>>, Seq<char>>(seq![p, dec]));
    assert(resolve(lines, ts) == Ok::<Seq<Seq<char>>, Seq<char>>(seq![p, dec, reg]));
    lemma_decimal_text_reads_back(a);
    let ts2 = seq![p, dec, reg];
    assert(ts2[0] == p && ts2[1] == dec && ts2[2] == reg && ts2.len() == 3);
    assert(p.len() == 3 && p[0] == 'p');
    assert(p != "halt"@ && p != "noop"@) by {
        assert("halt"@.len() == 4 && "noop"@.len() == 4);
    }
    assert(!instructions::is_binary_mnemonic(p)) by {
        assert("add"@[0] == 'a' && "copy"@.len() == 4 && "jump"@.len() == 4);
        assert("mul"@[0] == 'm' && "sub"@[0] == 's' && "write"@.len() == 5);
        assert("read"@.len() == 4);
    }
    assert(p != "push"@ && p != "pop"@) by {
        assert("push"@.len() == 4 && "pop"@[1] == 'o');
    }
    assert(u16_literal(dec) == Some(a as u16));
    assert(instructions::operand(reg) == Ok::<RegisterName, ParseFault>(d));
    assert(parse_tokens_spec(seq![p, dec, reg]) == Ok::<Instruction, ParseFault>(
        Instruction::put(a as u16, d),
    ));
    let instr = Instruction::put(a as u16, d);
    assert(line_instruction(lines, lines[n]) == Ok::<Instruction, CompileFault>(instr));
    lemma_compile_prefix(lines, (n + 1) as nat, lines.len());
    lemma_compile_prefix(lines, n as nat, (n + 1) as nat);
    lemma_compile_len(lines, n as nat);
    let before = compile_upto(lines, n as nat)->Ok_0;
    let upto = compile_upto(lines, (n + 1) as nat)->Ok_0;
    assert(upto == before.push(instr));
    let all = compile(lines)->Ok_0;
    assert(all.subrange(0, upto.len() as int) == upto);
    assert(all[before.len() as int] == all.subrange(0, upto.len() as int)[before.len() as int]);
}

/// Every failure of `resolve` names a label reference that no line defines.
proof fn lemma_resolve_err_is_undefined(lines: Seq<Seq<char>>, ts: Seq<Seq<char>>)
    requires
        resolve(lines, ts) is Err,
    ensures
        is_label_token(resolve(lines, ts)->Err_0),
        label_of(lines, resolve(lines, ts)->Err_0) is None,
    decreases ts.len(),
{
    if resolve(lines, ts.drop_last()) is Err {
        lemma_resolve_err_is_undefined(lines, ts.drop_last());
    }
}

/// A line that refers to a label no line defines fails to resolve.
proof fn lemma_resolve_fails(lines: Seq<Seq<char>>, ts: Seq<Seq<char>>, k: int)
    requires
        0 <= k < ts.len(),
        is_label_token(ts[k]),
        label_of(lines, ts[k]) is None,
    ensures
        resolve(lines, ts) is Err,
    decreases ts.len(),
{
    if k < ts.len() - 1 {
        assert(ts.drop_last()[k] == ts[k]);
        lemma_resolve_fails(lines, ts.drop_last(), k);
    }
}

/// Referring to a label that no line defines makes compilation fail with
/// `UndefinedLabel`, unless an earlier line already failed.
pub proof fn lemma_undefined_label_fails(lines: Seq<Seq<char>>, n: int, k: int)
    requires
        0 <= n < lines.len(),
        compile_upto(lines, n as nat) is Ok,
        !skippable(lines[n]),
        0 <= k < tokens_of(lines[n]).len(),
        is_label_token(tokens_of(lines[n])[k]),
        label_of(lines, tokens_of(lines[n])[k]) is None,
    ensures
        compile(lines) matches Err(CompileFault::UndefinedLabel(t)) && is_label_token(t)
            && label_of(lines, t) is None,
{
    lemma_resolve_fails(lines, tokens_of(lines[n]), k);
    lemma_resolve_err_is_undefined(lines, tokens_of(lines[n]));
    lemma_compile_err_extends(lines, (n + 1) as nat, lines.len());
}

/// Compilation depends on the source text alone: the same text gives the
/// same outcome, and so the same bytes.
pub proof fn lemma_compile_deterministic(a: Seq<char>, b: Seq<char>)
    requires
        a == b,
    ensures
        compile(lines_of(a)) == compile(lines_of(b)),
        compile(lines_of(a)) is Ok ==> program_bytes(compile(lines_of(a))->Ok_0) == program_bytes(
            compile(lines_of(b))->Ok_0,
        ),
{
}

} // verus!
