//! Running one FUSE core-test case: the machine `coretest.c` builds (RAM
//! patterned `DE AD BE EF`, ports that read back the high byte of their
//! address), whole instructions until the requested T-states have elapsed,
//! and the comparison with the expected machine.

use vstd::prelude::*;
use crate::cpu::{RunPoint, lemma_runs_extend, runs, step_outcome, total_time};
use crate::fuse::{Case, Machine};
use crate::laws::{MAX_BOUNDARY_T_STATES, law_boundary_time};
use crate::machine::{Bus, Fault, PortAccess, Z80, last_port_input, power_on};
use crate::state::{CpuState, high, low, pair};

verus! {

/// The byte `coretest.c` fills RAM with at `addr`.
pub open spec fn pattern_byte(addr: u16) -> u8 {
    if addr % 4 == 0 {
        0xDE
    } else if addr % 4 == 1 {
        0xAD
    } else if addr % 4 == 2 {
        0xBE
    } else {
        0xEF
    }
}

/// Patterned RAM with `writes` applied in order.
pub open spec fn patterned_memory(writes: Seq<(u16, u8)>) -> Map<u16, u8>
    decreases writes.len(),
{
    if writes.len() == 0 {
        Map::new(|a: u16| true, |a: u16| pattern_byte(a))
    } else {
        patterned_memory(writes.drop_last()).insert(writes.last().0, writes.last().1)
    }
}

/// Whether every port read in `log` answered the high byte of its
/// address, as `coretest.c`'s machine does.
pub open spec fn fuse_answers(log: Seq<PortAccess>) -> bool {
    forall|i: int|
        0 <= i < log.len() ==> (#[trigger] log[i] matches PortAccess::Read { port, value } ==> value
            == high(port))
}

/// `coretest.c`'s machine: 64 KiB of RAM and ports that read back the high
/// byte of their address and ignore writes.
pub struct FuseHost {
    memory: [u8; 0x10000],
    log: Ghost<Seq<PortAccess>>,
}

impl FuseHost {
    #[verifier::type_invariant]
    spec fn reads_answer_high_byte(self) -> bool {
        fuse_answers(self.log@)
    }

    /// Patterned RAM with the listed bytes written over it, in order.
    pub fn new(writes: &Vec<(u16, u8)>) -> (host: FuseHost)
        ensures
            host.memory() == patterned_memory(writes@),
            host.port_log() == Seq::<PortAccess>::empty(),
    {
        let mut memory = [0u8; 0x10000];
        let mut i: usize = 0;
        while i < 0x10000
            invariant
                i <= 0x10000,
                forall|a: int| 0 <= a < i ==> memory@[a] == pattern_byte(a as u16),
            decreases 0x10000 - i,
        {
            let a = i as u16;
            let b = if a % 4 == 0 {
                0xDE
            } else if a % 4 == 1 {
                0xAD
            } else if a % 4 == 2 {
                0xBE
            } else {
                0xEF
            };
            memory[i] = b;
            i = i + 1;
        }
        assert(Map::new(|a: u16| true, |a: u16| memory@[a as int]) =~= patterned_memory(seq![]));
        let mut k: usize = 0;
        while k < writes.len()
            invariant
                k <= writes.len(),
                Map::new(|a: u16| true, |a: u16| memory@[a as int]) == patterned_memory(
                    writes@.take(k as int),
                ),
            decreases writes.len() - k,
        {
            let (addr, value) = writes[k];
            memory[addr as usize] = value;
            assert(writes@.take(k as int + 1).drop_last() =~= writes@.take(k as int));
            assert(Map::new(|a: u16| true, |a: u16| memory@[a as int]) =~= patterned_memory(
                writes@.take(k as int),
            ).insert(addr, value));
            k = k + 1;
        }
        assert(writes@.take(writes.len() as int) =~= writes@);
        FuseHost { memory, log: Ghost(Seq::empty()) }
    }

    /// The byte at `addr`.
    pub fn peek(&self, addr: u16) -> (value: u8)
        ensures
            value == self.memory()[addr],
    {
        self.memory[addr as usize]
    }
}

impl Bus for FuseHost {
    closed spec fn memory(&self) -> Map<u16, u8> {
        Map::new(|a: u16| true, |a: u16| self.memory@[a as int])
    }

    closed spec fn port_log(&self) -> Seq<PortAccess> {
        self.log@
    }

    /// This host answers port reads by a fixed rule, not from a queue.
    closed spec fn port_queue(&self) -> Seq<(u16, u8)> {
        Seq::empty()
    }

    fn read_byte(&mut self, addr: u16) -> (value: u8) {
        self.memory[addr as usize]
    }

    fn write_byte(&mut self, addr: u16, value: u8) {
        proof {
            use_type_invariant(&*self);
        }
        self.memory[addr as usize] = value;
        assert(self.memory() =~= old(self).memory().insert(addr, value));
    }

    fn read_port(&mut self, addr: u16) -> (value: u8) {
        proof {
            use_type_invariant(&*self);
        }
        let value = (addr >> 8u16) as u8;
        self.log = Ghost(self.log@.push(PortAccess::Read { port: addr, value }));
        value
    }

    fn write_port(&mut self, addr: u16, value: u8) {
        proof {
            use_type_invariant(&*self);
        }
        self.log = Ghost(self.log@.push(PortAccess::Write { port: addr, value }));
    }
}

/// The CPU state a test machine starts from: its register words split into
/// the 8-bit registers, I, R, the flip-flops, IM and the halted flag; the
/// rest as at power-on.
pub open spec fn fuse_state(start: CpuState, m: Machine) -> CpuState {
    let regs = m.registers@;
    CpuState {
        a: high(regs[0]),
        f: low(regs[0]),
        b: high(regs[1]),
        c: low(regs[1]),
        d: high(regs[2]),
        e: low(regs[2]),
        h: high(regs[3]),
        l: low(regs[3]),
        af_alt: regs[4],
        bc_alt: regs[5],
        de_alt: regs[6],
        hl_alt: regs[7],
        ix: regs[8],
        iy: regs[9],
        sp: regs[10],
        pc: regs[11],
        wz: regs[12],
        i: m.i,
        r: m.r,
        im: m.im,
        iff1: m.iff1,
        iff2: m.iff2,
        halted: m.halted,
        ..start
    }
}

/// A CPU on `coretest.c`'s machine, set up as `case` says.
pub fn setup_fuse_cpu(case: &Case) -> (cpu: Z80<FuseHost>)
    ensures
        cpu.mem() == patterned_memory(case.before.memory@),
        cpu.log() == Seq::<PortAccess>::empty(),
        cpu@ == fuse_state(power_on(), case.before),
{
    let host = FuseHost::new(&case.before.memory);
    let mut cpu = Z80::new(host);
    let before = &case.before;
    let af = before.registers[0];
    let bc = before.registers[1];
    let de = before.registers[2];
    let hl = before.registers[3];
    cpu.a = (af >> 8u16) as u8;
    cpu.f.set_byte(af as u8);
    cpu.b = (bc >> 8u16) as u8;
    cpu.c = bc as u8;
    cpu.d = (de >> 8u16) as u8;
    cpu.e = de as u8;
    cpu.h = (hl >> 8u16) as u8;
    cpu.l = hl as u8;
    cpu.af_ = before.registers[4];
    cpu.bc_ = before.registers[5];
    cpu.de_ = before.registers[6];
    cpu.hl_ = before.registers[7];
    cpu.ix = before.registers[8];
    cpu.iy = before.registers[9];
    cpu.sp = before.registers[10];
    cpu.pc = before.registers[11];
    cpu.wz = before.registers[12];
    cpu.i = before.i;
    cpu.r = before.r;
    cpu.im = before.im;
    cpu.iff1 = before.iff1;
    cpu.iff2 = before.iff2;
    cpu.halted = before.halted;
    cpu
}

/// `trace` is a run from `start` by boundaries taking `times` that
/// reaches `target` T-states with its last boundary and not before.
pub open spec fn runs_until(trace: Seq<RunPoint>, times: Seq<u32>, start: RunPoint, target: u64) -> bool {
    &&& runs(trace, times)
    &&& trace[0] == start
    &&& total_time(times) >= target
    &&& times.len() > 0 ==> total_time(times.drop_last()) < target
}

/// Run whole boundaries until at least `target` T-states have elapsed and
/// return the total; a fault stops the run.
pub fn run_until<B: Bus>(cpu: &mut Z80<B>, target: u64) -> (r: Result<u64, Fault>)
    requires
        target <= u64::MAX - MAX_BOUNDARY_T_STATES,
    ensures
        r matches Ok(total) ==> exists|trace: Seq<RunPoint>, times: Seq<u32>|
            #![trigger runs_until(trace, times, old(cpu).point(), target)]
            {
                &&& runs_until(trace, times, old(cpu).point(), target)
                &&& trace.last() == final(cpu).point()
                &&& total == total_time(times)
            },
        r matches Err(f) ==> exists|trace: Seq<RunPoint>, times: Seq<u32>, pin: u8|
            #![trigger runs(trace, times), step_outcome(trace.last().0, trace.last().1, pin)]
            {
                &&& runs(trace, times)
                &&& trace[0] == old(cpu).point()
                &&& total_time(times) < target
                &&& step_outcome(trace.last().0, trace.last().1, pin).result == Err::<u32, Fault>(f)
            },
{
    let ghost start = cpu.point();
    let ghost mut trace: Seq<RunPoint> = seq![cpu.point()];
    let ghost mut times: Seq<u32> = Seq::empty();
    let mut total: u64 = 0;
    while total < target
        invariant
            target <= u64::MAX - MAX_BOUNDARY_T_STATES,
            runs(trace, times),
            start == old(cpu).point(),
            trace[0] == start,
            trace.last() == cpu.point(),
            total == total_time(times),
            times.len() > 0 ==> total_time(times.drop_last()) < target,
            total < target + MAX_BOUNDARY_T_STATES,
        decreases target + MAX_BOUNDARY_T_STATES - total,
    {
        let ghost s_before = cpu@;
        let ghost m_before = cpu.mem();
        match cpu.step_traced() {
            Ok(t) => {
                proof {
                    lemma_runs_extend(trace, times, cpu.point(), t);
                    assert(times.push(t).drop_last() =~= times);
                    trace = trace.push(cpu.point());
                    times = times.push(t);
                }
                total = total + t as u64;
            },
            Err(e) => {
                proof {
                    let pin = choose|pin: u8|
                        #[trigger] step_outcome(s_before, m_before, pin).result == Err::<u32, Fault>(e);
                    assert(step_outcome(trace.last().0, trace.last().1, pin).result == Err::<u32, Fault>(e));
                }
                return Err(e);
            },
        }
    }
    assert(runs_until(trace, times, start, target));
    Ok(total)
}

/// Where a case's run starts: its machine, `coretest.c`'s patterned RAM
/// with the case's bytes, no port access yet.
pub open spec fn fuse_start(case: Case) -> RunPoint {
    (fuse_state(power_on(), case.before), patterned_memory(case.before.memory@), Seq::<PortAccess>::empty())
}

/// A test machine field that is not a register word.
#[derive(Clone, Copy, Debug, PartialEq, Eq, Structural)]
pub enum Field {
    I,
    R,
    Iff1,
    Iff2,
    Im,
    Halted,
    TStates,
}

/// One way the machine after a run differs from the expected one.
#[derive(Clone, Copy, Debug, PartialEq, Eq, Structural)]
pub enum Difference {
    /// Register word `index` (AF BC DE HL AF' BC' DE' HL' IX IY SP PC MEMPTR).
    Register { index: usize, got: u16, want: u16 },
    /// Another field.
    Scalar { field: Field, got: u64, want: u64 },
    /// A memory byte the expected machine lists.
    Memory { address: u16, got: u8, want: u8 },
}

/// The register words a CPU state shows, in the test format's order.
pub open spec fn register_words(s: CpuState) -> Seq<u16> {
    seq![
        s.af(),
        s.bc(),
        s.de(),
        s.hl(),
        s.af_alt,
        s.bc_alt,
        s.de_alt,
        s.hl_alt,
        s.ix,
        s.iy,
        s.sp,
        s.pc,
        s.wz,
    ]
}

/// The register words among the first `n` that differ, in order.
pub open spec fn register_diffs(got: Seq<u16>, want: Seq<u16>, n: nat) -> Seq<Difference>
    decreases n,
{
    if n == 0 {
        seq![]
    } else {
        let earlier = register_diffs(got, want, (n - 1) as nat);
        let i = n - 1;
        if got[i] != want[i] {
            earlier.push(Difference::Register { index: i as usize, got: got[i], want: want[i] })
        } else {
            earlier
        }
    }
}

/// The differing fields among `(field, got, want)` triples, in order.
pub open spec fn scalar_diffs(fields: Seq<(Field, u64, u64)>) -> Seq<Difference>
    decreases fields.len(),
{
    if fields.len() == 0 {
        seq![]
    } else {
        let earlier = scalar_diffs(fields.drop_last());
        let (field, got, want) = fields.last();
        if got != want {
            earlier.push(Difference::Scalar { field, got, want })
        } else {
            earlier
        }
    }
}

/// The listed memory bytes that `mem` does not hold, in list order.
pub open spec fn memory_diffs(mem: Map<u16, u8>, want: Seq<(u16, u8)>) -> Seq<Difference>
    decreases want.len(),
{
    if want.len() == 0 {
        seq![]
    } else {
        let earlier = memory_diffs(mem, want.drop_last());
        let (address, value) = want.last();
        if mem[address] != value {
            earlier.push(Difference::Memory { address, got: mem[address], want: value })
        } else {
            earlier
        }
    }
}

/// The fields compared after a run of `total` T-states.
pub open spec fn compared_fields(s: CpuState, total: u64, expected: Machine) -> Seq<(Field, u64, u64)> {
    seq![
        (Field::I, s.i as u64, expected.i as u64),
        (Field::R, s.r as u64, expected.r as u64),
        (Field::Iff1, if s.iff1 { 1u64 } else { 0u64 }, if expected.iff1 { 1u64 } else { 0u64 }),
        (Field::Iff2, if s.iff2 { 1u64 } else { 0u64 }, if expected.iff2 { 1u64 } else { 0u64 }),
        (Field::Im, s.im as u64, expected.im as u64),
        (Field::Halted, if s.halted { 1u64 } else { 0u64 }, if expected.halted { 1u64 } else { 0u64 }),
        (Field::TStates, total, expected.t_states),
    ]
}

/// Every difference between a machine after a run and the expected one:
/// register words, then the other fields, then the listed memory bytes.
pub open spec fn differences(s: CpuState, mem: Map<u16, u8>, total: u64, expected: Machine) -> Seq<
    Difference,
> {
    register_diffs(register_words(s), expected.registers@, 13) + scalar_diffs(
        compared_fields(s, total, expected),
    ) + memory_diffs(mem, expected.memory@)
}

fn push_scalar(out: &mut Vec<Difference>, field: Field, got: u64, want: u64)
    ensures
        final(out)@ == if got != want {
            old(out)@.push(Difference::Scalar { field, got, want })
        } else {
            old(out)@
        },
{
    if got != want {
        out.push(Difference::Scalar { field, got, want });
    }
}

proof fn lemma_scalar_step(f: Seq<(Field, u64, u64)>, k: int)
    requires
        0 <= k < f.len(),
    ensures
        scalar_diffs(f.take(k + 1)) == if f[k].1 != f[k].2 {
            scalar_diffs(f.take(k)).push(Difference::Scalar { field: f[k].0, got: f[k].1, want: f[k].2 })
        } else {
            scalar_diffs(f.take(k))
        },
{
    assert(f.take(k + 1).drop_last() =~= f.take(k));
}

fn push_scalars(diffs: &mut Vec<Difference>, cpu: &Z80<FuseHost>, total: u64, expected: &Machine)
    ensures
        final(diffs)@ == old(diffs)@ + scalar_diffs(compared_fields(cpu@, total, *expected)),
{
    let ghost start = diffs@;
    let ghost f = compared_fields(cpu@, total, *expected);
    let iff1: u64 = if cpu.iff1 {
        1
    } else {
        0
    };
    let want_iff1: u64 = if expected.iff1 {
        1
    } else {
        0
    };
    let iff2: u64 = if cpu.iff2 {
        1
    } else {
        0
    };
    let want_iff2: u64 = if expected.iff2 {
        1
    } else {
        0
    };
    let halted: u64 = if cpu.halted {
        1
    } else {
        0
    };
    let want_halted: u64 = if expected.halted {
        1
    } else {
        0
    };
    assert(f.take(0) =~= seq![]);
    assert(diffs@ =~= start + scalar_diffs(f.take(0)));
    push_scalar(diffs, Field::I, cpu.i as u64, expected.i as u64);
    proof {
        lemma_scalar_step(f, 0);
        assert(diffs@ =~= start + scalar_diffs(f.take(1)));
    }
    push_scalar(diffs, Field::R, cpu.r as u64, expected.r as u64);
    proof {
        lemma_scalar_step(f, 1);
        assert(diffs@ =~= start + scalar_diffs(f.take(2)));
    }
    push_scalar(diffs, Field::Iff1, iff1, want_iff1);
    proof {
        lemma_scalar_step(f, 2);
        assert(diffs@ =~= start + scalar_diffs(f.take(3)));
    }
    push_scalar(diffs, Field::Iff2, iff2, want_iff2);
    proof {
        lemma_scalar_step(f, 3);
        assert(diffs@ =~= start + scalar_diffs(f.take(4)));
    }
    push_scalar(diffs, Field::Im, cpu.im as u64, expected.im as u64);
    proof {
        lemma_scalar_step(f, 4);
        assert(diffs@ =~= start + scalar_diffs(f.take(5)));
    }
    push_scalar(diffs, Field::Halted, halted, want_halted);
    proof {
        lemma_scalar_step(f, 5);
        assert(diffs@ =~= start + scalar_diffs(f.take(6)));
    }
    push_scalar(diffs, Field::TStates, total, expected.t_states);
    proof {
        lemma_scalar_step(f, 6);
        assert(diffs@ =~= start + scalar_diffs(f.take(7)));
        assert(f.take(7) =~= f);
    }
}

/// Compare a CPU after a run of `total` T-states with the expected machine.
pub fn compare(cpu: &Z80<FuseHost>, total: u64, expected: &Machine) -> (diffs: Vec<Difference>)
    ensures
        diffs@ == differences(cpu@, cpu.mem(), total, *expected),
{
    let actual: [u16; 13] = [
        ((cpu.a as u16) << 8u16) | (cpu.f.byte() as u16),
        cpu.bc(),
        cpu.de(),
        cpu.hl(),
        cpu.af_,
        cpu.bc_,
        cpu.de_,
        cpu.hl_,
        cpu.ix,
        cpu.iy,
        cpu.sp,
        cpu.pc,
        cpu.wz,
    ];
    assert(actual@ =~= register_words(cpu@));
    let mut diffs: Vec<Difference> = Vec::new();
    let mut i: usize = 0;
    while i < 13
        invariant
            i <= 13,
            actual@ == register_words(cpu@),
            diffs@ == register_diffs(actual@, expected.registers@, i as nat),
        decreases 13 - i,
    {
        if actual[i] != expected.registers[i] {
            diffs.push(Difference::Register { index: i, got: actual[i], want: expected.registers[i] });
        }
        i = i + 1;
    }
    push_scalars(&mut diffs, cpu, total, expected);
    let ghost before_memory = diffs@;
    let mut k: usize = 0;
    while k < expected.memory.len()
        invariant
            k <= expected.memory.len(),
            diffs@ == before_memory + memory_diffs(cpu.mem(), expected.memory@.take(k as int)),
        decreases expected.memory.len() - k,
    {
        let (address, value) = expected.memory[k];
        let got = cpu.bus.peek(address);
        assert(expected.memory@.take(k as int + 1).drop_last() =~= expected.memory@.take(k as int));
        if got != value {
            diffs.push(Difference::Memory { address, got, want: value });
        }
        assert(diffs@ =~= before_memory + memory_diffs(cpu.mem(), expected.memory@.take(k as int + 1)));
        k = k + 1;
    }
    assert(expected.memory@.take(expected.memory.len() as int) =~= expected.memory@);
    assert(diffs@ =~= differences(cpu@, cpu.mem(), total, *expected));
    diffs
}

/// Run one case and compare the result with the expected machine.
///
/// The result lists every difference between the expected machine and the
/// one a run from the case's start ended in, a run of whole boundaries
/// that reached the case's T-state target with its last boundary.
pub fn run_case(case: &Case, expected: &Machine) -> (r: Result<Vec<Difference>, Fault>)
    requires
        case.before.t_states <= u64::MAX - MAX_BOUNDARY_T_STATES,
    ensures
        r matches Ok(diffs) ==> exists|trace: Seq<RunPoint>, times: Seq<u32>|
            #![trigger runs_until(trace, times, fuse_start(*case), case.before.t_states)]
            {
                &&& runs_until(trace, times, fuse_start(*case), case.before.t_states)
                &&& fuse_answers(trace.last().2)
                &&& diffs@ == differences(
                    trace.last().0,
                    trace.last().1,
                    total_time(times) as u64,
                    *expected,
                )
            },
        r matches Err(f) ==> exists|trace: Seq<RunPoint>, times: Seq<u32>, pin: u8|
            #![trigger runs(trace, times), step_outcome(trace.last().0, trace.last().1, pin)]
            {
                &&& runs(trace, times)
                &&& trace[0] == fuse_start(*case)
                &&& step_outcome(trace.last().0, trace.last().1, pin).result == Err::<u32, Fault>(f)
            },
{
    let mut cpu = setup_fuse_cpu(case);
    let ghost start = cpu.point();
    assert(start == fuse_start(*case));
    let total = run_until(&mut cpu, case.before.t_states)?;
    proof {
        use_type_invariant(&cpu.bus);
    }
    let diffs = compare(&cpu, total, expected);
    assert(diffs@ == differences(cpu@, cpu.mem(), total, *expected));
    Ok(diffs)
}

/// The number of cases FUSE 1.6.0's test set holds.
pub const EXPECTED_CASES: usize = 1356;

/// The number of cases on which FUSE's expectations and the hardware
/// findings this core follows disagree.
pub const KNOWN_DIVERGENCE_COUNT: usize = 6;

/// The names of the cases on which FUSE's expectations and the hardware
/// findings this core follows disagree.
pub open spec fn known_divergences() -> Seq<Seq<u8>> {
    seq![
        seq![0x37u8, 0x36u8],
        seq![0x65u8, 0x64u8, 0x62u8, 0x32u8, 0x5Fu8, 0x31u8],
        seq![0x65u8, 0x64u8, 0x62u8, 0x33u8, 0x5Fu8, 0x31u8],
        seq![0x65u8, 0x64u8, 0x62u8, 0x39u8, 0x5Fu8, 0x32u8],
        seq![0x65u8, 0x64u8, 0x62u8, 0x61u8, 0x5Fu8, 0x31u8],
        seq![0x65u8, 0x64u8, 0x62u8, 0x62u8, 0x5Fu8, 0x31u8],
    ]
}

/// The name of known divergence `k`: "76", "edb2_1", "edb3_1", "edb9_2",
/// "edba_1", "edbb_1".
fn divergence_name(k: usize) -> (name: Vec<u8>)
    requires
        k < KNOWN_DIVERGENCE_COUNT,
    ensures
        name@ == known_divergences()[k as int],
{
    let name = if k == 0 {
        vec![0x37u8, 0x36u8]
    } else if k == 1 {
        vec![0x65u8, 0x64u8, 0x62u8, 0x32u8, 0x5Fu8, 0x31u8]
    } else if k == 2 {
        vec![0x65u8, 0x64u8, 0x62u8, 0x33u8, 0x5Fu8, 0x31u8]
    } else if k == 3 {
        vec![0x65u8, 0x64u8, 0x62u8, 0x39u8, 0x5Fu8, 0x32u8]
    } else if k == 4 {
        vec![0x65u8, 0x64u8, 0x62u8, 0x61u8, 0x5Fu8, 0x31u8]
    } else {
        vec![0x65u8, 0x64u8, 0x62u8, 0x62u8, 0x5Fu8, 0x31u8]
    };
    assert(name@ =~= known_divergences()[k as int]);
    name
}

fn same_bytes(x: &[u8], y: &Vec<u8>) -> (same: bool)
    ensures
        same == (x@ == y@),
{
    if x.len() != y.len() {
        return false;
    }
    let mut k: usize = 0;
    while k < x.len()
        invariant
            k <= x.len(),
            x.len() == y.len(),
            forall|j: int| 0 <= j < k ==> x@[j] == y@[j],
        decreases x.len() - k,
    {
        if x[k] != y[k] {
            return false;
        }
        k = k + 1;
    }
    assert(x@ =~= y@);
    true
}

/// Where `name` stands among the known divergences, if it is one.
pub fn known_divergence(name: &[u8]) -> (k: Option<usize>)
    ensures
        match k {
            Some(k) => k < KNOWN_DIVERGENCE_COUNT && known_divergences()[k as int] == name@,
            None => !known_divergences().contains(name@),
        },
{
    let mut k: usize = 0;
    while k < KNOWN_DIVERGENCE_COUNT
        invariant
            k <= KNOWN_DIVERGENCE_COUNT,
            forall|j: int| 0 <= j < k ==> known_divergences()[j] != name@,
        decreases KNOWN_DIVERGENCE_COUNT - k,
    {
        let candidate = divergence_name(k);
        if same_bytes(name, &candidate) {
            return Some(k);
        }
        k = k + 1;
    }
    None
}

/// Why FUSE disagrees on known divergence `k`, as text.
pub open spec fn reason_text(k: int) -> Seq<char> {
    if k == 0 {
        "FUSE keeps PC on the HALT opcode; SingleStepTests 76.json advances it"@
    } else if k == 1 {
        "interrupted INIR: FUSE 1.6.0 predates the MEMPTR = PC+1 and flag findings"@
    } else if k == 2 {
        "interrupted OTIR: FUSE 1.6.0 predates the MEMPTR = PC+1 and flag findings"@
    } else if k == 3 {
        "interrupted CPDR: FUSE 1.6.0 does not take X/Y from the rewound PC"@
    } else if k == 4 {
        "interrupted INDR: FUSE 1.6.0 predates the MEMPTR = PC+1 and flag findings"@
    } else {
        "interrupted OTDR: FUSE 1.6.0 predates the MEMPTR = PC+1 and flag findings"@
    }
}

/// Why FUSE disagrees on known divergence `k`.
pub fn divergence_reason(k: usize) -> (reason: &'static str)
    requires
        k < KNOWN_DIVERGENCE_COUNT,
    ensures
        reason@ == reason_text(k as int),
{
    if k == 0 {
        "FUSE keeps PC on the HALT opcode; SingleStepTests 76.json advances it"
    } else if k == 1 {
        "interrupted INIR: FUSE 1.6.0 predates the MEMPTR = PC+1 and flag findings"
    } else if k == 2 {
        "interrupted OTIR: FUSE 1.6.0 predates the MEMPTR = PC+1 and flag findings"
    } else if k == 3 {
        "interrupted CPDR: FUSE 1.6.0 does not take X/Y from the rewound PC"
    } else if k == 4 {
        "interrupted INDR: FUSE 1.6.0 predates the MEMPTR = PC+1 and flag findings"
    } else {
        "interrupted OTDR: FUSE 1.6.0 predates the MEMPTR = PC+1 and flag findings"
    }
}

/// How one case came out against FUSE's expectation.
#[derive(Clone, Copy, Debug, PartialEq, Eq, Structural)]
pub enum CaseOutcome {
    /// No difference, as expected.
    Agreed,
    /// A known divergence that still diverges.
    ExpectedDivergence,
    /// A known divergence that no longer diverges.
    UnexpectedAgreement,
    /// A difference on a case not known to diverge.
    Divergence,
}

/// The outcome of a case from whether it showed any difference and whether
/// it is a known divergence.
pub fn classify(agrees: bool, known: bool) -> (outcome: CaseOutcome)
    ensures
        outcome == if agrees {
            if known { CaseOutcome::UnexpectedAgreement } else { CaseOutcome::Agreed }
        } else {
            if known { CaseOutcome::ExpectedDivergence } else { CaseOutcome::Divergence }
        },
{
    if agrees {
        if known {
            CaseOutcome::UnexpectedAgreement
        } else {
            CaseOutcome::Agreed
        }
    } else {
        if known {
            CaseOutcome::ExpectedDivergence
        } else {
            CaseOutcome::Divergence
        }
    }
}

/// The outcomes of a run of the suite, counted.
#[derive(Clone, Copy, Debug, PartialEq, Eq, Structural)]
pub struct SuiteTally {
    pub agreed: usize,
    pub expected_divergences: usize,
    pub unexpected: usize,
}

impl SuiteTally {
    /// No case counted yet.
    pub fn new() -> (t: SuiteTally)
        ensures
            t == (SuiteTally { agreed: 0, expected_divergences: 0, unexpected: 0 }),
    {
        SuiteTally { agreed: 0, expected_divergences: 0, unexpected: 0 }
    }

    /// The cases counted.
    pub open spec fn total(self) -> int {
        self.agreed + self.expected_divergences + self.unexpected
    }

    /// Count one more case: an unexpected agreement and a divergence both
    /// count as unexpected.
    pub fn record(&mut self, outcome: CaseOutcome)
        requires
            old(self).total() < usize::MAX,
        ensures
            final(self).total() == old(self).total() + 1,
            final(self).agreed == old(self).agreed + if outcome == CaseOutcome::Agreed {
                1int
            } else {
                0int
            },
            final(self).expected_divergences == old(self).expected_divergences + if outcome
                == CaseOutcome::ExpectedDivergence {
                1int
            } else {
                0int
            },
    {
        match outcome {
            CaseOutcome::Agreed => self.agreed = self.agreed + 1,
            CaseOutcome::ExpectedDivergence => self.expected_divergences = self.expected_divergences
                + 1,
            _ => self.unexpected = self.unexpected + 1,
        }
    }

    /// The run passes when nothing was unexpected and every known
    /// divergence still diverges.
    pub fn passed(&self) -> (ok: bool)
        ensures
            ok == (self.unexpected == 0 && self.expected_divergences == KNOWN_DIVERGENCE_COUNT),
    {
        self.unexpected == 0 && self.expected_divergences == KNOWN_DIVERGENCE_COUNT
    }
}

} // verus!
