//! Running raxoft/z80test programs headless: the CODE block of a `.tap` at
//! its load address, the two Spectrum ROM entry points it uses replaced by
//! stubs, and the program run from its load address until it returns to a
//! sentinel address 0.
//!
//! - 0x0010: `OUT (0xFF),A ; RET` captures each printed character on a
//!   private port.
//! - 0x1601: a bare `RET` stands for the channel-open routine.
//!
//! The keyboard guard, `IN A,(0xFE)`, reads 0xBF; every other port 0xFF.

use vstd::prelude::*;
use crate::cpu::{RunPoint, lemma_runs_extend, runs, step_outcome};
use crate::machine::{Bus, Fault, PortAccess, Z80, last_port_input, power_on};
use crate::state::CpuState;
use crate::tap::{TapError, code_block, parse_tap_code_block};

verus! {

/// Address of the stub that stands for the ROM's print routine.
pub const RST10_ADDRESS: u16 = 0x0010;
/// Address of the stub that stands for the ROM's channel-open routine.
pub const CHANOPEN_ADDRESS: u16 = 0x1601;
/// The return address the program finishes on.
pub const SENTINEL_RETURN: u16 = 0x0000;
/// The most instructions a program may run.
pub const MAX_INSTRUCTIONS: u64 = 2_000_000_000;

/// The bytes written to ports whose low byte is 0xFF, in order: what a
/// program printed through the print stub.
pub open spec fn printed(log: Seq<PortAccess>) -> Seq<u8>
    decreases log.len(),
{
    if log.len() == 0 {
        seq![]
    } else {
        match log.last() {
            PortAccess::Write { port, value } => if port & 0xFF == 0xFF {
                printed(log.drop_last()).push(value)
            } else {
                printed(log.drop_last())
            },
            PortAccess::Read { .. } => printed(log.drop_last()),
        }
    }
}

/// Whether every port read in `log` answered as a z80test machine does.
pub open spec fn spectrum_answers(log: Seq<PortAccess>) -> bool {
    forall|i: int|
        0 <= i < log.len() ==> (#[trigger] log[i] matches PortAccess::Read { port, value } ==> value
            == spectrum_port(port))
}

/// The port accesses so far and the characters they printed.
struct Printer {
    chars: Vec<u8>,
    log: Ghost<Seq<PortAccess>>,
}

impl Printer {
    #[verifier::type_invariant]
    spec fn printed_from_log(self) -> bool {
        &&& self.chars@ == printed(self.log@)
        &&& spectrum_answers(self.log@)
    }

    fn new() -> (p: Printer)
        ensures
            p.log@ == Seq::<PortAccess>::empty(),
    {
        Printer { chars: Vec::new(), log: Ghost(Seq::empty()) }
    }

    /// Record one more access.
    fn record(self, access: PortAccess) -> (p: Printer)
        requires
            access matches PortAccess::Read { port, value } ==> value == spectrum_port(port),
        ensures
            p.log@ == self.log@.push(access),
    {
        proof {
            use_type_invariant(&self);
        }
        let Printer { mut chars, log } = self;
        let ghost after = log@.push(access);
        assert(after.drop_last() =~= log@);
        if let PortAccess::Write { port, value } = access {
            if port & 0xFF == 0xFF {
                chars.push(value);
            }
        }
        Printer { chars, log: Ghost(after) }
    }
}

/// A bare Spectrum: 64 KiB of RAM, a keyboard that reads 0xBF on port
/// 0xFE and 0xFF elsewhere, and a capture of what is written to port 0xFF.
pub struct SpectrumHost {
    memory: [u8; 0x10000],
    printer: Printer,
}

/// The byte a z80test port read answers.
pub open spec fn spectrum_port(addr: u16) -> u8 {
    if addr & 0xFF == 0xFE {
        0xBF
    } else {
        0xFF
    }
}

/// RAM with `code` at `load_addr`, the stubs, and the sentinel return
/// address on the stack at 0xFFFC.
pub open spec fn spectrum_memory(code: Seq<u8>, load_addr: u16) -> Map<u16, u8> {
    Map::new(
        |a: u16| true,
        |a: u16|
            if a == 0x0010 {
                0xD3u8
            } else if a == 0x0011 {
                0xFFu8
            } else if a == 0x0012 {
                0xC9u8
            } else if a == 0x1601 {
                0xC9u8
            } else if a == 0xFFFC || a == 0xFFFD {
                0u8
            } else if load_addr <= a < load_addr + code.len() {
                code[a - load_addr]
            } else {
                0u8
            },
    )
}

impl SpectrumHost {
    /// The machine loaded with `code` at `load_addr`.
    pub fn load(code: &Vec<u8>, load_addr: u16) -> (host: SpectrumHost)
        requires
            load_addr + code.len() <= 0x10000,
        ensures
            host.memory() == spectrum_memory(code@, load_addr),
            host.port_log() == Seq::<PortAccess>::empty(),
    {
        let mut memory = [0u8; 0x10000];
        let mut i: usize = 0;
        while i < code.len()
            invariant
                i <= code.len(),
                load_addr + code.len() <= 0x10000,
                forall|a: int|
                    0 <= a < 0x10000 ==> memory@[a] == if load_addr <= a < load_addr + i {
                        code@[a - load_addr]
                    } else {
                        0u8
                    },
            decreases code.len() - i,
        {
            memory[load_addr as usize + i] = code[i];
            i = i + 1;
        }
        memory[0x0010] = 0xD3;
        memory[0x0011] = 0xFF;
        memory[0x0012] = 0xC9;
        memory[0x1601] = 0xC9;
        memory[0xFFFC] = 0;
        memory[0xFFFD] = 0;
        let printer = Printer::new();
        proof {
            use_type_invariant(&printer);
        }
        let host = SpectrumHost { memory, printer };
        assert(host.memory() =~= spectrum_memory(code@, load_addr));
        host
    }

    /// The characters printed so far.
    pub fn output(&self) -> (out: &Vec<u8>)
        ensures
            out@ == printed(self.port_log()),
    {
        proof {
            use_type_invariant(&self.printer);
        }
        &self.printer.chars
    }
}

impl Bus for SpectrumHost {
    closed spec fn memory(&self) -> Map<u16, u8> {
        Map::new(|a: u16| true, |a: u16| self.memory@[a as int])
    }

    closed spec fn port_log(&self) -> Seq<PortAccess> {
        self.printer.log@
    }

    /// This host answers port reads by a fixed rule, not from a queue.
    closed spec fn port_queue(&self) -> Seq<(u16, u8)> {
        Seq::empty()
    }

    fn read_byte(&mut self, addr: u16) -> (value: u8) {
        self.memory[addr as usize]
    }

    fn write_byte(&mut self, addr: u16, value: u8) {
        self.memory[addr as usize] = value;
        assert(self.memory() =~= old(self).memory().insert(addr, value));
    }

    fn read_port(&mut self, addr: u16) -> (value: u8) {
        let value = if (addr & 0xFF) == 0xFE {
            0xBF
        } else {
            0xFF
        };
        let mut p = Printer::new();
        std::mem::swap(&mut p, &mut self.printer);
        self.printer = p.record(PortAccess::Read { port: addr, value });
        value
    }

    fn write_port(&mut self, addr: u16, value: u8) {
        let mut p = Printer::new();
        std::mem::swap(&mut p, &mut self.printer);
        self.printer = p.record(PortAccess::Write { port: addr, value });
    }
}

/// Why a z80test program did not run to completion.
#[derive(Clone, Copy, Debug, PartialEq, Eq, Structural)]
pub enum Z80testError {
    Tap(TapError),
    Fault(Fault),
    /// The program ran `MAX_INSTRUCTIONS` without returning.
    DidNotTerminate,
}

/// What a finished program printed and how many instructions it ran.
pub struct Outcome {
    pub output: Vec<u8>,
    pub instructions: u64,
}

/// Where a program loaded at `load_addr` starts: the power-on state with
/// SP at 0xFFFC and PC at the load address, the loaded memory, no port
/// access yet.
pub open spec fn start_point(code: Seq<u8>, load_addr: u16) -> RunPoint {
    (
        CpuState { sp: 0xFFFC, pc: load_addr, ..power_on() },
        spectrum_memory(code, load_addr),
        Seq::<PortAccess>::empty(),
    )
}

/// `trace` is a run of the program from its start, by boundaries taking
/// `times`, with PC away from the sentinel at every point but possibly the
/// last.
pub open spec fn is_run(trace: Seq<RunPoint>, times: Seq<u32>, code: Seq<u8>, load_addr: u16) -> bool {
    &&& runs(trace, times)
    &&& trace[0] == start_point(code, load_addr)
    &&& forall|i: int| 0 <= i < times.len() ==> (#[trigger] trace[i]).0.pc != SENTINEL_RETURN
}

/// Run a z80test `.tap` from its load address until it returns to address
/// 0, capturing what it prints.
///
/// A program that ends did so after `instructions` boundaries, which
/// printed its output; one that faults did so at the boundary after a run;
/// one that does not end within `MAX_INSTRUCTIONS` boundaries is stopped.
pub fn run_program(tap: &[u8]) -> (r: Result<Outcome, Z80testError>)
    requires
        tap.len() <= usize::MAX - 0x20000,
        code_block(tap@) matches Ok((code, addr)) ==> addr + code.len() <= 0x10000,
    ensures
        code_block(tap@) matches Err(e) ==> r == Err::<Outcome, Z80testError>(Z80testError::Tap(e)),
        code_block(tap@) matches Ok((code, addr)) ==> match r {
            Ok(o) => exists|trace: Seq<RunPoint>, times: Seq<u32>|
                #![trigger is_run(trace, times, code, addr)]
                {
                    &&& is_run(trace, times, code, addr)
                    &&& trace.len() == o.instructions + 1
                    &&& o.instructions < MAX_INSTRUCTIONS
                    &&& trace.last().0.pc == SENTINEL_RETURN
                    &&& o.output@ == printed(trace.last().2)
                    &&& spectrum_answers(trace.last().2)
                },
            Err(Z80testError::Fault(f)) => exists|trace: Seq<RunPoint>, times: Seq<u32>, pin: u8|
                #![trigger is_run(trace, times, code, addr), step_outcome(trace.last().0, trace.last().1, pin)]
                {
                    &&& is_run(trace, times, code, addr)
                    &&& spectrum_answers(trace.last().2)
                    &&& trace.last().0.pc != SENTINEL_RETURN
                    &&& step_outcome(trace.last().0, trace.last().1, pin).result == Err::<
                        u32,
                        Fault,
                    >(f)
                },
            Err(Z80testError::DidNotTerminate) => exists|trace: Seq<RunPoint>, times: Seq<u32>|
                #![trigger is_run(trace, times, code, addr)]
                is_run(trace, times, code, addr) && spectrum_answers(trace.last().2) && trace.len()
                    == MAX_INSTRUCTIONS + 1,
            Err(Z80testError::Tap(_)) => false,
        },
{
    let (code, load_addr) = match parse_tap_code_block(tap) {
        Ok(block) => block,
        Err(e) => return Err(Z80testError::Tap(e)),
    };
    let host = SpectrumHost::load(&code, load_addr);
    let mut cpu = Z80::new(host);
    cpu.sp = 0xFFFC;
    cpu.pc = load_addr;
    let ghost gcode = code_block(tap@)->Ok_0.0;
    let ghost gaddr = code_block(tap@)->Ok_0.1;
    let ghost mut trace: Seq<RunPoint> = seq![cpu.point()];
    let ghost mut times: Seq<u32> = Seq::empty();
    assert(trace[0] == start_point(gcode, gaddr));
    let mut instructions: u64 = 0;
    while cpu.pc != SENTINEL_RETURN
        invariant
            code_block(tap@) == Ok::<(Seq<u8>, u16), TapError>((code@, load_addr)),
            gcode == code_block(tap@)->Ok_0.0,
            gaddr == code_block(tap@)->Ok_0.1,
            instructions < MAX_INSTRUCTIONS,
            is_run(trace, times, gcode, gaddr),
            trace.len() == instructions + 1,
            trace.last() == cpu.point(),
            spectrum_answers(cpu.log()),
        decreases MAX_INSTRUCTIONS - instructions,
    {
        let ghost s_before = cpu@;
        let ghost m_before = cpu.mem();
        let r = cpu.step_traced();
        proof {
            use_type_invariant(&cpu.bus.printer);
        }
        match r {
            Ok(t) => {
                proof {
                    lemma_runs_extend(trace, times, cpu.point(), t);
                    let old_trace = trace;
                    trace = trace.push(cpu.point());
                    times = times.push(t);
                    assert forall|i: int| 0 <= i < times.len() implies (#[trigger] trace[i]).0.pc
                        != SENTINEL_RETURN by {
                        if i < times.len() - 1 {
                            assert(trace[i] == old_trace[i]);
                        }
                    }
                }
            },
            Err(fault) => {
                proof {
                    let pin = choose|pin: u8|
                        #[trigger] step_outcome(s_before, m_before, pin).result == Err::<u32, Fault>(fault);
                    assert(is_run(trace, times, gcode, gaddr) && trace.last().0.pc != SENTINEL_RETURN
                        && step_outcome(trace.last().0, trace.last().1, pin).result == Err::<u32, Fault>(fault));
                }
                return Err(Z80testError::Fault(fault));
            },
        }
        instructions += 1;
        if instructions >= MAX_INSTRUCTIONS {
            assert(is_run(trace, times, gcode, gaddr) && trace.len() == MAX_INSTRUCTIONS + 1);
            return Err(Z80testError::DidNotTerminate);
        }
    }
    let output = cpu.bus.output().clone();
    assert(output@ =~= printed(cpu.log()));
    assert(is_run(trace, times, gcode, gaddr) && trace.len() == instructions + 1 && trace.last().0.pc
        == SENTINEL_RETURN && output@ == printed(trace.last().2));
    Ok(Outcome { output, instructions })
}

/// The line separators of z80test output: the Spectrum's 0x0D and 0x0A.
pub open spec fn is_separator(b: u8) -> bool {
    b == 0x0D || b == 0x0A
}

/// The pieces of `out` between separators, in order; there is one more
/// piece than there are separators, empty ones included.
pub open spec fn pieces(out: Seq<u8>) -> Seq<Seq<u8>>
    decreases out.len(),
{
    if out.len() == 0 {
        seq![seq![]]
    } else {
        let earlier = pieces(out.drop_last());
        if is_separator(out.last()) {
            earlier.push(seq![])
        } else {
            earlier.update(earlier.len() - 1, earlier.last().push(out.last()))
        }
    }
}

/// "Result:", the start of z80test's summary line.
pub open spec fn result_prefix() -> Seq<u8> {
    seq![0x52u8, 0x65u8, 0x73u8, 0x75u8, 0x6Cu8, 0x74u8, 0x3Au8]
}

/// "Result: all tests passed.", the summary of a program that passed.
pub open spec fn pass_message() -> Seq<u8> {
    result_prefix() + seq![
        0x20u8, 0x61u8, 0x6Cu8, 0x6Cu8, 0x20u8, 0x74u8, 0x65u8, 0x73u8, 0x74u8, 0x73u8,
        0x20u8, 0x70u8, 0x61u8, 0x73u8, 0x73u8, 0x65u8, 0x64u8, 0x2Eu8,
    ]
}

/// Whether `pat` occurs in `out` at offset `i`.
pub open spec fn occurs_at(out: Seq<u8>, pat: Seq<u8>, i: int) -> bool {
    0 <= i && i + pat.len() <= out.len() && out.subrange(i, i + pat.len()) == pat
}

/// Whether a program's output reports that all its tests passed.
pub open spec fn reports_pass(out: Seq<u8>) -> bool {
    exists|i: int| occurs_at(out, pass_message(), i)
}

fn pass_bytes() -> (pat: Vec<u8>)
    ensures
        pat@ == pass_message(),
{
    let pat = vec![
        0x52u8, 0x65u8, 0x73u8, 0x75u8, 0x6Cu8, 0x74u8, 0x3Au8, 0x20u8, 0x61u8, 0x6Cu8, 0x6Cu8,
        0x20u8, 0x74u8, 0x65u8, 0x73u8, 0x74u8, 0x73u8, 0x20u8, 0x70u8, 0x61u8, 0x73u8, 0x73u8,
        0x65u8, 0x64u8, 0x2Eu8,
    ];
    assert(pat@ =~= pass_message());
    pat
}

fn matches_at(out: &[u8], pat: &Vec<u8>, i: usize) -> (found: bool)
    requires
        i + pat.len() <= out.len(),
    ensures
        found == occurs_at(out@, pat@, i as int),
{
    let mut k: usize = 0;
    while k < pat.len()
        invariant
            k <= pat.len(),
            i + pat.len() <= out.len(),
            forall|j: int| 0 <= j < k ==> out@[i + j] == pat@[j],
        decreases pat.len() - k,
    {
        if out[i + k] != pat[k] {
            assert(out@.subrange(i as int, i + pat.len())[k as int] != pat@[k as int]);
            return false;
        }
        k = k + 1;
    }
    assert(out@.subrange(i as int, i + pat.len()) =~= pat@);
    true
}

/// Whether the output reports "Result: all tests passed." anywhere.
pub fn passed(out: &[u8]) -> (ok: bool)
    ensures
        ok == reports_pass(out@),
{
    let pat = pass_bytes();
    if out.len() < pat.len() {
        return false;
    }
    let last = out.len() - pat.len();
    let mut i: usize = 0;
    while i < last + 1
        invariant
            i <= last + 1,
            pat@ == pass_message(),
            last + pat.len() == out.len(),
            forall|j: int| 0 <= j < i ==> !occurs_at(out@, pass_message(), j),
        decreases last + 1 - i,
    {
        if matches_at(out, &pat, i) {
            return true;
        }
        i = i + 1;
    }
    assert forall|j: int| !occurs_at(out@, pass_message(), j) by {
        if 0 <= j && j + pass_message().len() <= out@.len() {
            assert(j <= last);
        }
    }
    false
}

/// Whether `line` starts with "Result:".
pub open spec fn is_result_line(line: Seq<u8>) -> bool {
    line.len() >= 7 && line.subrange(0, 7) == result_prefix()
}

/// The first of `ps` from index `k` on that is a result line.
pub open spec fn first_result(ps: Seq<Seq<u8>>, k: nat) -> Option<Seq<u8>>
    decreases ps.len() - k,
{
    if k >= ps.len() {
        None
    } else if is_result_line(ps[k as int]) {
        Some(ps[k as int])
    } else {
        first_result(ps, k + 1)
    }
}

fn starts_with_result(line: &Vec<u8>) -> (r: bool)
    ensures
        r == is_result_line(line@),
{
    if line.len() < 7 {
        return false;
    }
    let r = line[0] == 0x52 && line[1] == 0x65 && line[2] == 0x73 && line[3] == 0x75 && line[4]
        == 0x6C && line[5] == 0x74 && line[6] == 0x3A;
    if r {
        assert(line@.subrange(0, 7) =~= result_prefix());
    } else {
        assert(line@.subrange(0, 7) != result_prefix()) by {
            if line@.subrange(0, 7) == result_prefix() {
                assert(line@.subrange(0, 7)[0] == line@[0]);
                assert(line@.subrange(0, 7)[1] == line@[1]);
                assert(line@.subrange(0, 7)[2] == line@[2]);
                assert(line@.subrange(0, 7)[3] == line@[3]);
                assert(line@.subrange(0, 7)[4] == line@[4]);
                assert(line@.subrange(0, 7)[5] == line@[5]);
                assert(line@.subrange(0, 7)[6] == line@[6]);
            }
        }
    }
    r
}

proof fn lemma_first_result_extend(ps: Seq<Seq<u8>>, n: nat)
    requires
        n <= ps.len(),
        forall|j: int| 0 <= j < n ==> !is_result_line(#[trigger] ps[j]),
    ensures
        first_result(ps, 0) == first_result(ps, n),
    decreases n,
{
    if n > 0 {
        lemma_first_result_extend(ps, (n - 1) as nat);
        assert(!is_result_line(ps[n - 1]));
    }
}

proof fn lemma_pieces_nonempty(out: Seq<u8>)
    ensures
        pieces(out).len() >= 1,
    decreases out.len(),
{
    if out.len() > 0 {
        lemma_pieces_nonempty(out.drop_last());
    }
}

/// Reading more of the output only adds to its last piece or starts new
/// ones: the finished pieces of a prefix stay.
proof fn lemma_pieces_grow(out: Seq<u8>, n: nat, m: nat)
    requires
        n <= m <= out.len(),
    ensures
        pieces(out.take(m as int)).len() >= pieces(out.take(n as int)).len(),
        forall|j: int|
            0 <= j < pieces(out.take(n as int)).len() - 1 ==> pieces(out.take(m as int))[j]
                == #[trigger] pieces(out.take(n as int))[j],
    decreases m - n,
{
    if m > n {
        lemma_pieces_grow(out, n, (m - 1) as nat);
        let t = out.take(m as int);
        assert(t.drop_last() =~= out.take(m - 1));
        lemma_pieces_nonempty(out.take(m - 1));
    }
}

/// The output's first line that starts with "Result:", lines ending at
/// 0x0D or 0x0A.
pub fn result_line(out: &[u8]) -> (line: Option<Vec<u8>>)
    ensures
        match line {
            Some(l) => first_result(pieces(out@), 0) == Some(l@),
            None => first_result(pieces(out@), 0) is None,
        },
{
    let mut current: Vec<u8> = Vec::new();
    let mut i: usize = 0;
    assert(out@.take(0) =~= Seq::<u8>::empty());
    while i < out.len()
        invariant
            i <= out.len(),
            pieces(out@.take(i as int)).len() >= 1,
            current@ == pieces(out@.take(i as int)).last(),
            forall|j: int|
                0 <= j < pieces(out@.take(i as int)).len() - 1 ==> !is_result_line(
                    #[trigger] pieces(out@.take(i as int))[j],
                ),
        decreases out.len() - i,
    {
        let ghost p = pieces(out@.take(i as int));
        assert(out@.take(i as int + 1).drop_last() =~= out@.take(i as int));
        let b = out[i];
        if b == 0x0D || b == 0x0A {
            if starts_with_result(&current) {
                proof {
                    let q = pieces(out@.take(i as int + 1));
                    assert(q == p.push(seq![]));
                    lemma_pieces_grow(out@, (i + 1) as nat, out.len() as nat);
                    assert(out@.take(out.len() as int) =~= out@);
                    let ps = pieces(out@);
                    assert forall|j: int| 0 <= j < p.len() - 1 implies !is_result_line(#[trigger] ps[j]) by {
                        assert(ps[j] == q[j]);
                        assert(q[j] == p[j]);
                    }
                    lemma_first_result_extend(ps, (p.len() - 1) as nat);
                    assert(ps[p.len() - 1] == q[p.len() - 1]);
                }
                return Some(current);
            }
            current = Vec::new();
            proof {
                let q = pieces(out@.take(i as int + 1));
                assert(q == p.push(seq![]));
                assert(current@ =~= q.last());
            }
        } else {
            current.push(b);
        }
        i = i + 1;
    }
    assert(out@.take(out.len() as int) =~= out@);
    let ghost ps = pieces(out@);
    proof {
        lemma_first_result_extend(ps, (ps.len() - 1) as nat);
        assert(ps[ps.len() - 1] == ps.last());
        assert(first_result(ps, ps.len() as nat) is None);
    }
    if starts_with_result(&current) {
        Some(current)
    } else {
        None
    }
}

} // verus!
