//! The FUSE Z80 core-test format: `tests.in` cases and `tests.expected`
//! results, parsed from their text, as `coretest.c` reads them.

use vstd::prelude::*;
use vstd::slice::slice_to_vec;
use crate::text::{
    blank, is_blank, lines, number_value, parse_hex16, parse_u64, split_lines, split_whitespace,
    trim, trimmed, well_formed_number, words,
};

verus! {

/// Register order of a FUSE register line.
pub const REGISTER_COUNT: usize = 13;

/// One machine state of the test format: the 13 register words (AF BC DE
/// HL AF' BC' DE' HL' IX IY SP PC MEMPTR), I, R, the flip-flops, IM, the
/// halted flag, the T-state count, and memory bytes by address.
#[derive(Clone, Debug, PartialEq, Eq)]
pub struct Machine {
    pub registers: [u16; 13],
    pub i: u8,
    pub r: u8,
    pub iff1: bool,
    pub iff2: bool,
    pub im: u8,
    pub halted: bool,
    pub t_states: u64,
    pub memory: Vec<(u16, u8)>,
}

/// A named test case and the machine it starts from.
#[derive(Clone, Debug, PartialEq, Eq)]
pub struct Case {
    pub name: Vec<u8>,
    pub before: Machine,
}

/// Why a test file did not parse. Each variant carries the offending text.
#[derive(Clone, Debug, PartialEq, Eq)]
pub enum FuseError {
    /// A token that is not a 16-bit hexadecimal word.
    BadHexWord(Vec<u8>),
    /// A token that is not a decimal number.
    BadNumber(Vec<u8>),
    /// A register line without exactly 13 words.
    RegisterCount(Vec<u8>),
    /// A state line without exactly 7 fields.
    FieldCount(Vec<u8>),
    /// The text ends inside a case.
    Truncated,
}

/// A machine state as values.
pub struct MachineView {
    pub registers: Seq<u16>,
    pub i: u8,
    pub r: u8,
    pub iff1: bool,
    pub iff2: bool,
    pub im: u8,
    pub halted: bool,
    pub t_states: u64,
    pub memory: Seq<(u16, u8)>,
}

/// A parse error as values.
pub enum FuseErrorView {
    BadHexWord(Seq<u8>),
    BadNumber(Seq<u8>),
    RegisterCount(Seq<u8>),
    FieldCount(Seq<u8>),
    Truncated,
}

impl View for Machine {
    type V = MachineView;

    open spec fn view(&self) -> MachineView {
        MachineView {
            registers: self.registers@,
            i: self.i,
            r: self.r,
            iff1: self.iff1,
            iff2: self.iff2,
            im: self.im,
            halted: self.halted,
            t_states: self.t_states,
            memory: self.memory@,
        }
    }
}

impl View for FuseError {
    type V = FuseErrorView;

    open spec fn view(&self) -> FuseErrorView {
        match self {
            FuseError::BadHexWord(t) => FuseErrorView::BadHexWord(t@),
            FuseError::BadNumber(t) => FuseErrorView::BadNumber(t@),
            FuseError::RegisterCount(t) => FuseErrorView::RegisterCount(t@),
            FuseError::FieldCount(t) => FuseErrorView::FieldCount(t@),
            FuseError::Truncated => FuseErrorView::Truncated,
        }
    }
}

/// A `Result` of a parse, as values.
pub open spec fn result_view<T: View>(r: Result<T, FuseError>) -> Result<T::V, FuseErrorView> {
    match r {
        Ok(v) => Ok(v@),
        Err(e) => Err(e@),
    }
}

/// Whether `token` is a 16-bit hexadecimal word.
pub open spec fn is_hex16(token: Seq<u8>) -> bool {
    well_formed_number(token, 16) && number_value(token, 16) <= 0xFFFF
}

/// Whether `token` is a decimal `u64`.
pub open spec fn is_u64(token: Seq<u8>) -> bool {
    well_formed_number(token, 10) && number_value(token, 10) <= u64::MAX
}

/// The words of `ws` as hexadecimal words, or the first one that is not.
pub open spec fn hex_words(ws: Seq<Seq<u8>>) -> Result<Seq<u16>, FuseErrorView>
    decreases ws.len(),
{
    if ws.len() == 0 {
        Ok(seq![])
    } else {
        match hex_words(ws.drop_last()) {
            Err(e) => Err(e),
            Ok(vs) => if is_hex16(ws.last()) {
                Ok(vs.push(number_value(ws.last(), 16) as u16))
            } else {
                Err(FuseErrorView::BadHexWord(ws.last()))
            },
        }
    }
}

/// A register line: 13 hexadecimal words.
pub open spec fn registers_of(line: Seq<u8>) -> Result<Seq<u16>, FuseErrorView> {
    match hex_words(words(line)) {
        Err(e) => Err(e),
        Ok(vs) => if vs.len() == 13 {
            Ok(vs)
        } else {
            Err(FuseErrorView::RegisterCount(line))
        },
    }
}

fn hex_token(token: &Vec<u8>) -> (r: Result<u16, FuseError>)
    ensures
        match r {
            Ok(v) => is_hex16(token@) && v == number_value(token@, 16),
            Err(e) => !is_hex16(token@) && e@ == FuseErrorView::BadHexWord(token@),
        },
{
    match parse_hex16(token.as_slice()) {
        Some(v) => Ok(v),
        None => Err(FuseError::BadHexWord(token.clone())),
    }
}

fn number_token(token: &Vec<u8>) -> (r: Result<u64, FuseError>)
    ensures
        match r {
            Ok(v) => is_u64(token@) && v == number_value(token@, 10),
            Err(e) => !is_u64(token@) && e@ == FuseErrorView::BadNumber(token@),
        },
{
    match parse_u64(token.as_slice()) {
        Some(v) => Ok(v),
        None => Err(FuseError::BadNumber(token.clone())),
    }
}

/// Parse a register line: 13 hexadecimal words.
pub fn parse_registers(line: &[u8]) -> (r: Result<[u16; 13], FuseError>)
    ensures
        match (r, registers_of(line@)) {
            (Ok(regs), Ok(vs)) => regs@ == vs,
            (Err(e), Err(ev)) => e@ == ev,
            _ => false,
        },
{
    let ws = split_whitespace(line);
    let mut values: Vec<u16> = Vec::new();
    let mut i: usize = 0;
    while i < ws.len()
        invariant
            i <= ws.len(),
            ws.deep_view() == words(line@),
            hex_words(ws.deep_view().take(i as int)) == Ok::<Seq<u16>, FuseErrorView>(values@),
        decreases ws.len() - i,
    {
        assert(ws.deep_view().take(i as int + 1).drop_last() =~= ws.deep_view().take(i as int));
        assert(ws[i as int]@ == ws.deep_view()[i as int]);
        match hex_token(&ws[i]) {
            Ok(v) => values.push(v),
            Err(e) => {
                assert(ws.deep_view().take(i as int + 1).last() == ws[i as int]@);
                let ghost prefix = ws.deep_view().take(i as int + 1);
                assert(hex_words(prefix) is Err);
                proof {
                    lemma_hex_words_err_extends(ws.deep_view(), i as int + 1);
                }
                assert(ws.deep_view().take(ws.len() as int) =~= ws.deep_view());
                return Err(e);
            },
        }
        i = i + 1;
    }
    assert(ws.deep_view().take(ws.len() as int) =~= ws.deep_view());
    if values.len() != REGISTER_COUNT {
        return Err(FuseError::RegisterCount(slice_to_vec(line)));
    }
    let regs = [
        values[0],
        values[1],
        values[2],
        values[3],
        values[4],
        values[5],
        values[6],
        values[7],
        values[8],
        values[9],
        values[10],
        values[11],
        values[12],
    ];
    assert(regs@ =~= values@);
    Ok(regs)
}

proof fn lemma_hex_words_err_extends(ws: Seq<Seq<u8>>, k: int)
    requires
        0 <= k <= ws.len(),
        hex_words(ws.take(k)) is Err,
    ensures
        hex_words(ws) == hex_words(ws.take(k)),
    decreases ws.len() - k,
{
    if k < ws.len() {
        assert(ws.take(k + 1).drop_last() =~= ws.take(k));
        lemma_hex_words_err_extends(ws, k + 1);
    } else {
        assert(ws.take(k) =~= ws);
    }
}

/// The token `-1` that ends a memory line and a memory block.
pub open spec fn minus_one() -> Seq<u8> {
    seq![0x2Du8, 0x31u8]
}

fn is_minus_one(token: &Vec<u8>) -> (r: bool)
    ensures
        r == (token@ == minus_one()),
{
    let r = token.len() == 2 && token[0] == 0x2D && token[1] == 0x31;
    if r {
        assert(token@ =~= minus_one());
    }
    r
}

/// A state line: `I R IFF1 IFF2 IM halted tstates`, I and R hexadecimal
/// (their low bytes taken), the rest decimal (IM's low byte taken).
pub open spec fn misc_of(line: Seq<u8>, registers: Seq<u16>, memory: Seq<(u16, u8)>) -> Result<
    MachineView,
    FuseErrorView,
> {
    let p = words(line);
    if p.len() != 7 {
        Err(FuseErrorView::FieldCount(line))
    } else if !is_hex16(p[0]) {
        Err(FuseErrorView::BadHexWord(p[0]))
    } else if !is_hex16(p[1]) {
        Err(FuseErrorView::BadHexWord(p[1]))
    } else if !is_u64(p[2]) {
        Err(FuseErrorView::BadNumber(p[2]))
    } else if !is_u64(p[3]) {
        Err(FuseErrorView::BadNumber(p[3]))
    } else if !is_u64(p[4]) {
        Err(FuseErrorView::BadNumber(p[4]))
    } else if !is_u64(p[5]) {
        Err(FuseErrorView::BadNumber(p[5]))
    } else if !is_u64(p[6]) {
        Err(FuseErrorView::BadNumber(p[6]))
    } else {
        Ok(
            MachineView {
                registers,
                i: (number_value(p[0], 16) as u16) as u8,
                r: (number_value(p[1], 16) as u16) as u8,
                iff1: number_value(p[2], 10) != 0,
                iff2: number_value(p[3], 10) != 0,
                im: (number_value(p[4], 10) as u64) as u8,
                halted: number_value(p[5], 10) != 0,
                t_states: number_value(p[6], 10) as u64,
                memory,
            },
        )
    }
}

/// Parse a state line into a machine with the given registers and memory.
pub fn parse_misc(line: &[u8], registers: [u16; 13], memory: Vec<(u16, u8)>) -> (r: Result<
    Machine,
    FuseError,
>)
    ensures
        result_view(r) == misc_of(line@, registers@, memory@),
{
    let parts = split_whitespace(line);
    if parts.len() != 7 {
        return Err(FuseError::FieldCount(slice_to_vec(line)));
    }
    proof {
        assert(forall|k: int| 0 <= k < 7 ==> parts[k]@ == #[trigger] parts.deep_view()[k]);
    }
    let i = hex_token(&parts[0])?;
    let r = hex_token(&parts[1])?;
    let iff1 = number_token(&parts[2])?;
    let iff2 = number_token(&parts[3])?;
    let im = number_token(&parts[4])?;
    let halted = number_token(&parts[5])?;
    let t_states = number_token(&parts[6])?;
    Ok(
        Machine {
            registers,
            i: i as u8,
            r: r as u8,
            iff1: iff1 != 0,
            iff2: iff2 != 0,
            im: im as u8,
            halted: halted != 0,
            t_states,
            memory,
        },
    )
}

/// The bytes of a memory line after its address: one per hexadecimal word
/// (its low byte), at consecutive addresses, up to a `-1` or the line's end.
pub open spec fn memory_items(address: u16, items: Seq<Seq<u8>>) -> Result<
    Seq<(u16, u8)>,
    FuseErrorView,
>
    decreases items.len(),
{
    if items.len() == 0 || items[0] == minus_one() {
        Ok(seq![])
    } else if !is_hex16(items[0]) {
        Err(FuseErrorView::BadHexWord(items[0]))
    } else {
        match memory_items(address.wrapping_add(1), items.drop_first()) {
            Err(e) => Err(e),
            Ok(rest) => Ok(seq![(address, (number_value(items[0], 16) as u16) as u8)] + rest),
        }
    }
}

/// A memory line: a hexadecimal address, then its bytes.
pub open spec fn memory_line(line: Seq<u8>) -> Result<Seq<(u16, u8)>, FuseErrorView> {
    let ws = words(line);
    if !is_hex16(ws[0]) {
        Err(FuseErrorView::BadHexWord(ws[0]))
    } else {
        memory_items(number_value(ws[0], 16) as u16, ws.drop_first())
    }
}

/// Whether `line` ends a memory block: blank, or the lone token `-1`.
pub open spec fn ends_memory(line: Seq<u8>) -> bool {
    blank(line) || words(line) == seq![minus_one()]
}

/// The memory lines from `index` up to the first line that ends the block
/// (or the end of the text), and the index of that line.
pub open spec fn memory_of(lines: Seq<Seq<u8>>, index: nat) -> Result<
    (Seq<(u16, u8)>, nat),
    FuseErrorView,
>
    decreases lines.len() - index,
{
    if index >= lines.len() || ends_memory(lines[index as int]) {
        Ok((seq![], index))
    } else {
        match memory_line(lines[index as int]) {
            Err(e) => Err(e),
            Ok(items) => match memory_of(lines, index + 1) {
                Err(e) => Err(e),
                Ok((rest, end)) => Ok((items + rest, end)),
            },
        }
    }
}

pub proof fn lemma_memory_end(lines: Seq<Seq<u8>>, index: nat)
    ensures
        memory_of(lines, index) matches Ok((_, end)) ==> index <= end && (index <= lines.len()
            ==> end <= lines.len()),
    decreases lines.len() - index,
{
    if !(index >= lines.len() || ends_memory(lines[index as int])) {
        lemma_memory_end(lines, index + 1);
    }
}

/// `r` with `acc` in front of the bytes it found.
pub open spec fn after_items(acc: Seq<(u16, u8)>, r: Result<Seq<(u16, u8)>, FuseErrorView>) -> Result<
    Seq<(u16, u8)>,
    FuseErrorView,
> {
    match r {
        Err(e) => Err(e),
        Ok(rest) => Ok(acc + rest),
    }
}

proof fn lemma_after_items_assoc(
    acc: Seq<(u16, u8)>,
    items: Seq<(u16, u8)>,
    r: Result<Seq<(u16, u8)>, FuseErrorView>,
)
    ensures
        after_items(acc, after_items(items, r)) == after_items(acc + items, r),
{
    if let Ok(rest) = r {
        assert(acc + (items + rest) =~= (acc + items) + rest);
    }
}

fn memory_items_exec(address: u16, ws: &Vec<Vec<u8>>, out: &mut Vec<(u16, u8)>) -> (r: Result<(), FuseError>)
    requires
        ws.len() >= 1,
    ensures
        match (r, memory_items(address, ws.deep_view().drop_first())) {
            (Ok(_), Ok(items)) => final(out)@ == old(out)@ + items,
            (Err(e), Err(ev)) => e@ == ev,
            _ => false,
        },
{
    let ghost all = ws.deep_view().drop_first();
    let ghost first = address;
    let ghost base = out@;
    let ghost len = out@.len() as int;
    let mut addr = address;
    let mut k: usize = 1;
    assert(all.skip(0) =~= all);
    assert(out@.skip(len) =~= Seq::<(u16, u8)>::empty());
    assert(memory_items(first, all) == after_items(out@.skip(len), memory_items(first, all))) by {
        if let Ok(rest) = memory_items(first, all) {
            assert(out@.skip(len) + rest =~= rest);
        }
    }
    while k < ws.len()
        invariant
            1 <= k <= ws.len(),
            all == ws.deep_view().drop_first(),
            first == address,
            base == old(out)@,
            base.len() == len,
            out@.len() >= len,
            out@.take(len) == base,
            memory_items(first, all) == after_items(out@.skip(len), memory_items(addr, all.skip(k - 1))),
        decreases ws.len() - k,
    {
        let ghost rest = all.skip(k - 1);
        assert(rest[0] == ws[k as int]@);
        assert(rest.drop_first() =~= all.skip(k as int));
        if is_minus_one(&ws[k]) {
            assert(rest.len() > 0);
            assert(rest[0] == minus_one());
            assert(memory_items(addr, rest) == Ok::<Seq<(u16, u8)>, FuseErrorView>(seq![]));
            assert(memory_items(first, all) == Ok::<Seq<(u16, u8)>, FuseErrorView>(out@.skip(len) + seq![]));
            assert(out@ =~= base + (out@.skip(len) + seq![]));
            return Ok(());
        }
        let v = hex_token(&ws[k])?;
        let ghost acc = out@.skip(len);
        out.push((addr, v as u8));
        proof {
            lemma_after_items_assoc(acc, seq![(addr, v as u8)], memory_items(addr.wrapping_add(1), all.skip(k as int)));
            assert(out@.skip(len) =~= acc + seq![(addr, v as u8)]);
            assert(out@.take(len) =~= base);
        }
        addr = addr.wrapping_add(1);
        k = k + 1;
    }
    assert(all.skip(k - 1).len() == 0);
    assert(out@ =~= base + (out@.skip(len) + seq![]));
    Ok(())
}

/// `r` with `acc` in front of the memory it found.
pub open spec fn after_memory(acc: Seq<(u16, u8)>, r: Result<(Seq<(u16, u8)>, nat), FuseErrorView>) -> Result<
    (Seq<(u16, u8)>, nat),
    FuseErrorView,
> {
    match r {
        Err(e) => Err(e),
        Ok((rest, end)) => Ok((acc + rest, end)),
    }
}

proof fn lemma_after_memory_assoc(
    acc: Seq<(u16, u8)>,
    items: Seq<(u16, u8)>,
    r: Result<(Seq<(u16, u8)>, nat), FuseErrorView>,
)
    ensures
        after_memory(acc, after_memory(items, r)) == after_memory(acc + items, r),
{
    if let Ok((rest, end)) = r {
        assert(acc + (items + rest) =~= (acc + items) + rest);
    }
}

/// Read memory lines from `*index` up to the first line that ends the block
/// (or the end of the text), leaving `*index` on that line.
pub fn parse_memory(lines: &Vec<Vec<u8>>, index: &mut usize) -> (r: Result<Vec<(u16, u8)>, FuseError>)
    ensures
        match (r, memory_of(lines.deep_view(), *old(index) as nat)) {
            (Ok(memory), Ok((mv, end))) => memory@ == mv && *final(index) as nat == end,
            (Err(e), Err(ev)) => e@ == ev,
            _ => false,
        },
{
    let ghost ls = lines.deep_view();
    let ghost start = *index as nat;
    let mut memory: Vec<(u16, u8)> = Vec::new();
    assert(memory_of(ls, start) == after_memory(memory@, memory_of(ls, start))) by {
        if let Ok((rest, end)) = memory_of(ls, start) {
            assert(memory@ + rest =~= rest);
        }
    }
    while *index < lines.len()
        invariant
            ls == lines.deep_view(),
            start == *old(index) as nat,
            memory_of(ls, start) == after_memory(memory@, memory_of(ls, *index as nat)),
        decreases lines.len() - *index,
    {
        let i = *index;
        assert(lines[i as int]@ == ls[i as int]);
        if is_blank(lines[i].as_slice()) {
            assert(memory@ + seq![] =~= memory@);
            return Ok(memory);
        }
        let parts = split_whitespace(lines[i].as_slice());
        if parts.len() == 1 && is_minus_one(&parts[0]) {
            assert(parts[0]@ == parts.deep_view()[0]);
            assert(parts.deep_view() =~= seq![minus_one()]);
            assert(memory@ + seq![] =~= memory@);
            return Ok(memory);
        }
        assert(parts.len() >= 1) by {
            if parts.len() == 0 {
                crate::text::lemma_no_words_blank(ls[i as int]);
            }
        }
        assert(!ends_memory(ls[i as int])) by {
            if words(ls[i as int]) == seq![minus_one()] {
                assert(parts.deep_view()[0] == minus_one());
                assert(parts[0]@ == parts.deep_view()[0]);
            }
        }
        assert(parts[0]@ == parts.deep_view()[0]);
        let address = hex_token(&parts[0])?;
        let ghost before = memory@;
        memory_items_exec(address, &parts, &mut memory)?;
        proof {
            let mi = memory_items(address, parts.deep_view().drop_first());
            assert(mi is Ok);
            assert(memory@ == before + mi->Ok_0);
            assert(memory@.skip(before.len() as int) =~= mi->Ok_0);
            let items = memory@.skip(before.len() as int);
            assert(memory@ =~= before + items);
            assert(parts.deep_view() == words(ls[i as int]));
            assert(memory_line(ls[i as int]) == Ok::<Seq<(u16, u8)>, FuseErrorView>(items));
            assert(memory_of(ls, i as nat) == after_memory(items, memory_of(ls, i as nat + 1)));
            lemma_after_memory_assoc(before, items, memory_of(ls, i as nat + 1));
        }
        *index = i + 1;
    }
    assert(memory@ + seq![] =~= memory@);
    Ok(memory)
}

/// A test case as values.
pub struct CaseView {
    pub name: Seq<u8>,
    pub before: MachineView,
}

impl View for Case {
    type V = CaseView;

    open spec fn view(&self) -> CaseView {
        CaseView { name: self.name@, before: self.before@ }
    }
}

/// The case of `tests.in` whose name is on line `index`: a name line, a
/// register line, a state line, memory lines up to a lone `-1`; and the
/// index after that `-1`. A case cut short by the end of the text is
/// `Truncated`.
pub open spec fn case_at(lines: Seq<Seq<u8>>, index: nat) -> Result<(CaseView, nat), FuseErrorView> {
    if index + 1 >= lines.len() {
        Err(FuseErrorView::Truncated)
    } else {
        match registers_of(lines[index as int + 1]) {
            Err(e) => Err(e),
            Ok(registers) => if index + 2 >= lines.len() {
                Err(FuseErrorView::Truncated)
            } else {
                match memory_of(lines, index + 3) {
                    Err(e) => Err(e),
                    Ok((memory, end)) => match misc_of(lines[index as int + 2], registers, memory) {
                        Err(e) => Err(e),
                        Ok(machine) => Ok(
                            (CaseView { name: trim(lines[index as int]), before: machine }, end),
                        ),
                    },
                }
            },
        }
    }
}

pub proof fn lemma_case_at_advances(lines: Seq<Seq<u8>>, index: nat)
    requires
        index < lines.len(),
    ensures
        case_at(lines, index) matches Ok((_, next)) ==> index < next <= lines.len(),
{
    lemma_memory_end(lines, index + 3);
}

/// The cases of `tests.in` from line `index` on; blank lines between cases
/// are skipped.
pub open spec fn cases_in(lines: Seq<Seq<u8>>, index: nat) -> Result<Seq<CaseView>, FuseErrorView>
    decreases lines.len() + 1 - index,
{
    if index >= lines.len() {
        Ok(seq![])
    } else if blank(lines[index as int]) {
        cases_in(lines, index + 1)
    } else {
        match case_at(lines, index) {
            Err(e) => Err(e),
            Ok((case, next)) => {
                proof {
                    lemma_case_at_advances(lines, index);
                }
                match cases_in(lines, next + 1) {
                    Err(e) => Err(e),
                    Ok(rest) => Ok(seq![case] + rest),
                }
            },
        }
    }
}

fn parse_case(lines: &Vec<Vec<u8>>, index: usize) -> (r: Result<(Case, usize), FuseError>)
    requires
        index < lines.len(),
    ensures
        match (r, case_at(lines.deep_view(), index as nat)) {
            (Ok((case, next)), Ok((cv, n))) => case@ == cv && next as nat == n,
            (Err(e), Err(ev)) => e@ == ev,
            _ => false,
        },
{
    let ghost ls = lines.deep_view();
    assert(lines[index as int]@ == ls[index as int]);
    if index + 1 >= lines.len() {
        return Err(FuseError::Truncated);
    }
    assert(lines[index as int + 1]@ == ls[index as int + 1]);
    let name = trimmed(lines[index].as_slice());
    let registers = parse_registers(lines[index + 1].as_slice())?;
    if index + 2 >= lines.len() {
        return Err(FuseError::Truncated);
    }
    assert(lines[index as int + 2]@ == ls[index as int + 2]);
    let mut next = index + 3;
    let memory = parse_memory(lines, &mut next)?;
    proof {
        lemma_memory_end(ls, index as nat + 3);
        assert(memory_of(ls, index as nat + 3) is Ok);
        assert(next as nat == memory_of(ls, index as nat + 3)->Ok_0.1);
    }
    let before = parse_misc(lines[index + 2].as_slice(), registers, memory)?;
    Ok((Case { name, before }, next))
}

/// `r` with `acc` in front of the cases it found.
pub open spec fn after_cases<T>(acc: Seq<T>, r: Result<Seq<T>, FuseErrorView>) -> Result<
    Seq<T>,
    FuseErrorView,
> {
    match r {
        Err(e) => Err(e),
        Ok(rest) => Ok(acc + rest),
    }
}

proof fn lemma_after_cases_assoc<T>(acc: Seq<T>, items: Seq<T>, r: Result<Seq<T>, FuseErrorView>)
    ensures
        after_cases(acc, after_cases(items, r)) == after_cases(acc + items, r),
{
    if let Ok(rest) = r {
        assert(acc + (items + rest) =~= (acc + items) + rest);
    }
}

/// Parse the text of a `tests.in` file.
pub fn parse_tests_in(text: &[u8]) -> (r: Result<Vec<Case>, FuseError>)
    ensures
        match (r, cases_in(lines(text@), 0)) {
            (Ok(cases), Ok(cv)) => cases@.map_values(|c: Case| c@) == cv,
            (Err(e), Err(ev)) => e@ == ev,
            _ => false,
        },
{
    let lines = split_lines(text);
    let ghost ls = lines.deep_view();
    let mut cases: Vec<Case> = Vec::new();
    let mut index: usize = 0;
    assert(cases_in(ls, 0) == after_cases(cases@.map_values(|c: Case| c@), cases_in(ls, 0))) by {
        if let Ok(rest) = cases_in(ls, 0) {
            assert(cases@.map_values(|c: Case| c@) + rest =~= rest);
        }
    }
    while index < lines.len()
        invariant
            ls == lines.deep_view(),
            ls == crate::text::lines(text@),
            cases_in(ls, 0) == after_cases(cases@.map_values(|c: Case| c@), cases_in(ls, index as nat)),
        decreases lines.len() + 1 - index,
    {
        assert(lines[index as int]@ == ls[index as int]);
        if is_blank(lines[index].as_slice()) {
            index = index + 1;
            continue;
        }
        let (case, next) = parse_case(&lines, index)?;
        proof {
            lemma_case_at_advances(ls, index as nat);
        }
        let ghost done = cases@.map_values(|c: Case| c@);
        let ghost cv = case@;
        cases.push(case);
        proof {
            assert(cases@.map_values(|c: Case| c@) =~= done + seq![cv]);
            lemma_after_cases_assoc(done, seq![cv], cases_in(ls, next as nat + 1));
        }
        // the lone -1
        index = if next < lines.len() {
            next + 1
        } else {
            lines.len()
        };
    }
    assert(cases@.map_values(|c: Case| c@) + seq![] =~= cases@.map_values(|c: Case| c@));
    Ok(cases)
}

/// The first line from `k` on that does not start with a space: the end of
/// an expected result's bus events.
pub open spec fn events_end(lines: Seq<Seq<u8>>, k: nat) -> nat
    decreases lines.len() - k,
{
    if k < lines.len() && lines[k as int].len() > 0 && lines[k as int][0] == 0x20 {
        events_end(lines, k + 1)
    } else {
        k
    }
}

proof fn lemma_events_end(lines: Seq<Seq<u8>>, k: nat)
    ensures
        k <= events_end(lines, k),
        k <= lines.len() ==> events_end(lines, k) <= lines.len(),
    decreases lines.len() - k,
{
    if k < lines.len() && lines[k as int].len() > 0 && lines[k as int][0] == 0x20 {
        lemma_events_end(lines, k + 1);
    }
}

/// An expected result as values: its name and machine.
pub open spec fn expected_view(e: (Vec<u8>, Machine)) -> (Seq<u8>, MachineView) {
    (e.0@, e.1@)
}

/// The expected result of `tests.expected` whose name is on line `index`:
/// bus-event lines (starting with a space, not compared) are skipped, then
/// a register line, a state line, and memory lines up to a blank line;
/// and the index where the memory ended.
pub open spec fn expected_at(lines: Seq<Seq<u8>>, index: nat) -> Result<
    ((Seq<u8>, MachineView), nat),
    FuseErrorView,
> {
    let j = events_end(lines, index + 1);
    if j >= lines.len() {
        Err(FuseErrorView::Truncated)
    } else {
        match registers_of(lines[j as int]) {
            Err(e) => Err(e),
            Ok(registers) => if j + 1 >= lines.len() {
                Err(FuseErrorView::Truncated)
            } else {
                match memory_of(lines, j + 2) {
                    Err(e) => Err(e),
                    Ok((memory, end)) => match misc_of(lines[j as int + 1], registers, memory) {
                        Err(e) => Err(e),
                        Ok(machine) => Ok(((trim(lines[index as int]), machine), end)),
                    },
                }
            },
        }
    }
}

pub proof fn lemma_expected_at_advances(lines: Seq<Seq<u8>>, index: nat)
    requires
        index < lines.len(),
    ensures
        expected_at(lines, index) matches Ok((_, next)) ==> index < next <= lines.len(),
{
    lemma_events_end(lines, index + 1);
    let j = events_end(lines, index + 1);
    lemma_memory_end(lines, j + 2);
}

/// The expected results of `tests.expected` from line `index` on; blank
/// lines between them are skipped.
pub open spec fn expected_in(lines: Seq<Seq<u8>>, index: nat) -> Result<
    Seq<(Seq<u8>, MachineView)>,
    FuseErrorView,
>
    decreases lines.len() + 1 - index,
{
    if index >= lines.len() {
        Ok(seq![])
    } else if blank(lines[index as int]) {
        expected_in(lines, index + 1)
    } else {
        match expected_at(lines, index) {
            Err(e) => Err(e),
            Ok((item, next)) => {
                proof {
                    lemma_expected_at_advances(lines, index);
                }
                match expected_in(lines, next) {
                    Err(e) => Err(e),
                    Ok(rest) => Ok(seq![item] + rest),
                }
            },
        }
    }
}

fn parse_expected(lines: &Vec<Vec<u8>>, index: usize) -> (r: Result<((Vec<u8>, Machine), usize), FuseError>)
    requires
        index < lines.len(),
    ensures
        match (r, expected_at(lines.deep_view(), index as nat)) {
            (Ok((item, next)), Ok((iv, n))) => expected_view(item) == iv && next as nat == n,
            (Err(e), Err(ev)) => e@ == ev,
            _ => false,
        },
{
    let ghost ls = lines.deep_view();
    assert(lines[index as int]@ == ls[index as int]);
    let name = trimmed(lines[index].as_slice());
    let mut j = index + 1;
    proof {
        lemma_events_end(ls, j as nat);
    }
    while j < lines.len() && lines[j].len() > 0 && lines[j][0] == 0x20
        invariant
            ls == lines.deep_view(),
            index < j <= lines.len(),
            events_end(ls, index as nat + 1) == events_end(ls, j as nat),
        decreases lines.len() - j,
    {
        assert(lines[j as int]@ == ls[j as int]);
        j = j + 1; // bus events: not compared
    }
    assert(j < lines.len() ==> lines[j as int]@ == ls[j as int]);
    if j >= lines.len() {
        return Err(FuseError::Truncated);
    }
    assert(lines[j as int]@ == ls[j as int]);
    let registers = parse_registers(lines[j].as_slice())?;
    if j + 1 >= lines.len() {
        return Err(FuseError::Truncated);
    }
    assert(lines[j as int + 1]@ == ls[j as int + 1]);
    let mut next = j + 2;
    let memory = parse_memory(lines, &mut next)?;
    let machine = parse_misc(lines[j + 1].as_slice(), registers, memory)?;
    Ok(((name, machine), next))
}

/// Parse the text of a `tests.expected` file into named results.
pub fn parse_tests_expected(text: &[u8]) -> (r: Result<Vec<(Vec<u8>, Machine)>, FuseError>)
    ensures
        match (r, expected_in(lines(text@), 0)) {
            (Ok(items), Ok(ev)) => items@.map_values(|e: (Vec<u8>, Machine)| expected_view(e)) == ev,
            (Err(e), Err(ev)) => e@ == ev,
            _ => false,
        },
{
    let lines = split_lines(text);
    let ghost ls = lines.deep_view();
    let mut expected: Vec<(Vec<u8>, Machine)> = Vec::new();
    let mut index: usize = 0;
    assert(expected_in(ls, 0) == after_cases(
        expected@.map_values(|e: (Vec<u8>, Machine)| expected_view(e)),
        expected_in(ls, 0),
    )) by {
        if let Ok(rest) = expected_in(ls, 0) {
            assert(expected@.map_values(|e: (Vec<u8>, Machine)| expected_view(e)) + rest =~= rest);
        }
    }
    while index < lines.len()
        invariant
            ls == lines.deep_view(),
            ls == crate::text::lines(text@),
            expected_in(ls, 0) == after_cases(
                expected@.map_values(|e: (Vec<u8>, Machine)| expected_view(e)),
                expected_in(ls, index as nat),
            ),
        decreases lines.len() + 1 - index,
    {
        assert(lines[index as int]@ == ls[index as int]);
        if is_blank(lines[index].as_slice()) {
            index = index + 1;
            continue;
        }
        let (item, next) = parse_expected(&lines, index)?;
        proof {
            lemma_expected_at_advances(ls, index as nat);
        }
        let ghost done = expected@.map_values(|e: (Vec<u8>, Machine)| expected_view(e));
        let ghost iv = expected_view(item);
        expected.push(item);
        proof {
            assert(expected@.map_values(|e: (Vec<u8>, Machine)| expected_view(e)) =~= done + seq![iv]);
            lemma_after_cases_assoc(done, seq![iv], expected_in(ls, next as nat));
        }
        index = next;
    }
    assert(expected@.map_values(|e: (Vec<u8>, Machine)| expected_view(e)) + seq![] =~= expected@.map_values(
        |e: (Vec<u8>, Machine)| expected_view(e),
    ));
    Ok(expected)
}

} // verus!
