//! Running one SingleStepTests/z80 case: load the initial state and RAM,
//! queue the port reads the case supplies, take one `step`, and compare the
//! result with the final state: every register field, the RAM bytes the
//! final state lists, the port writes in order, every supplied port read
//! consumed, and the cycle count against the T-states `step` returned.

use vstd::prelude::*;
use crate::cpu::step_outcome;
use crate::machine::{Bus, Fault, Outcome, PortAccess, Z80, last_port_input, power_on};
use crate::state::CpuState;

verus! {

/// A processor state as a test case lists it.
#[derive(Clone, Debug, PartialEq, Eq)]
pub struct VectorState {
    pub a: u8,
    pub b: u8,
    pub c: u8,
    pub d: u8,
    pub e: u8,
    pub f: u8,
    pub h: u8,
    pub l: u8,
    pub i: u8,
    pub r: u8,
    pub ix: u16,
    pub iy: u16,
    pub sp: u16,
    pub pc: u16,
    pub wz: u16,
    pub af_: u16,
    pub bc_: u16,
    pub de_: u16,
    pub hl_: u16,
    pub im: u8,
    pub iff1: u8,
    pub iff2: u8,
    pub q: u8,
    /// RAM bytes as (address, value) pairs.
    pub ram: Vec<(u16, u8)>,
}

/// Which way a scripted port access goes.
#[derive(Clone, Copy, Debug, PartialEq, Eq, Structural)]
pub enum Direction {
    Read,
    Write,
    /// Any other direction tag: neither queued nor expected.
    Other,
}

/// One port access the case lists.
#[derive(Clone, Copy, Debug, PartialEq, Eq, Structural)]
pub struct PortEvent {
    pub port: u16,
    pub value: u8,
    pub direction: Direction,
}

/// One test case: states before and after, the number of bus cycles it
/// lists (0 when it lists none), and its port script.
#[derive(Clone, Debug, PartialEq, Eq)]
pub struct VectorCase {
    pub initial: VectorState,
    pub expected: VectorState,
    pub cycles: usize,
    pub ports: Vec<PortEvent>,
}

/// A field the comparison checks.
#[derive(Clone, Copy, Debug, PartialEq, Eq, Structural)]
pub enum Register {
    A,
    B,
    C,
    D,
    E,
    F,
    H,
    L,
    I,
    R,
    Ix,
    Iy,
    Sp,
    Pc,
    Wz,
    AfAlt,
    BcAlt,
    DeAlt,
    HlAlt,
    Im,
    Iff1,
    Iff2,
    Q,
}

/// One way a case's outcome differs from what it expects.
#[derive(Clone, Debug, PartialEq, Eq)]
pub enum VectorDiff {
    /// The step stopped on an opcode the core has no handler for.
    NotImplemented(Fault),
    /// The step stopped on another fault.
    Fault(Fault),
    Register { register: Register, got: u16, want: u16 },
    Ram { address: u16, got: u8, want: u8 },
    /// The port writes, in order, are not the ones the case lists.
    PortWrites { want: Vec<(u16, u8)>, got: Vec<(u16, u8)> },
    /// A supplied port read that the step never made.
    MissingPortRead { port: u16 },
    /// A port read beyond the supplied ones.
    UnexpectedPortRead { port: u16 },
    /// A port read at another address than the supplied one in its place.
    PortReadMismatch { want: u16, got: u16 },
    TStates { want: u32, got: u32 },
}

/// A difference as the contracts state it: the port-write lists as
/// sequences.
pub enum DiffView {
    NotImplemented(Fault),
    Fault(Fault),
    Register { register: Register, got: u16, want: u16 },
    Ram { address: u16, got: u8, want: u8 },
    PortWrites { want: Seq<(u16, u8)>, got: Seq<(u16, u8)> },
    MissingPortRead { port: u16 },
    UnexpectedPortRead { port: u16 },
    PortReadMismatch { want: u16, got: u16 },
    TStates { want: u32, got: u32 },
}

impl View for VectorDiff {
    type V = DiffView;

    open spec fn view(&self) -> DiffView {
        match *self {
            VectorDiff::NotImplemented(f) => DiffView::NotImplemented(f),
            VectorDiff::Fault(f) => DiffView::Fault(f),
            VectorDiff::Register { register, got, want } => DiffView::Register { register, got, want },
            VectorDiff::Ram { address, got, want } => DiffView::Ram { address, got, want },
            VectorDiff::PortWrites { want, got } => DiffView::PortWrites { want: want@, got: got@ },
            VectorDiff::MissingPortRead { port } => DiffView::MissingPortRead { port },
            VectorDiff::UnexpectedPortRead { port } => DiffView::UnexpectedPortRead { port },
            VectorDiff::PortReadMismatch { want, got } => DiffView::PortReadMismatch { want, got },
            VectorDiff::TStates { want, got } => DiffView::TStates { want, got },
        }
    }
}

/// The views of a list of differences.
pub open spec fn diff_views(diffs: Seq<VectorDiff>) -> Seq<DiffView> {
    diffs.map_values(|d: VectorDiff| d@)
}

/// The (port, value) pairs of a port script that go in direction `dir`,
/// in order.
pub open spec fn scripted(ports: Seq<PortEvent>, dir: Direction) -> Seq<(u16, u8)>
    decreases ports.len(),
{
    if ports.len() == 0 {
        seq![]
    } else if ports.last().direction == dir {
        scripted(ports.drop_last(), dir).push((ports.last().port, ports.last().value))
    } else {
        scripted(ports.drop_last(), dir)
    }
}

/// The writes among port accesses, in order.
pub open spec fn logged_writes(log: Seq<PortAccess>) -> Seq<(u16, u8)>
    decreases log.len(),
{
    if log.len() == 0 {
        seq![]
    } else {
        match log.last() {
            PortAccess::Write { port, value } => logged_writes(log.drop_last()).push((port, value)),
            PortAccess::Read { .. } => logged_writes(log.drop_last()),
        }
    }
}

/// The addresses of the reads among port accesses, in order.
pub open spec fn logged_reads(log: Seq<PortAccess>) -> Seq<u16>
    decreases log.len(),
{
    if log.len() == 0 {
        seq![]
    } else {
        match log.last() {
            PortAccess::Read { port, .. } => logged_reads(log.drop_last()).push(port),
            PortAccess::Write { .. } => logged_reads(log.drop_last()),
        }
    }
}

/// The complaints about the reads `reads`, each held against the supplied
/// input in its place: another address, or no input left.
pub open spec fn read_errors(inputs: Seq<(u16, u8)>, reads: Seq<u16>) -> Seq<DiffView>
    decreases reads.len(),
{
    if reads.len() == 0 {
        seq![]
    } else {
        let earlier = read_errors(inputs, reads.drop_last());
        let j = reads.len() - 1;
        if j < inputs.len() {
            if inputs[j].0 != reads[j] {
                earlier.push(DiffView::PortReadMismatch { want: inputs[j].0, got: reads[j] })
            } else {
                earlier
            }
        } else {
            earlier.push(DiffView::UnexpectedPortRead { port: reads[j] })
        }
    }
}

/// Zeroed RAM with `writes` applied in order.
pub open spec fn vector_memory(writes: Seq<(u16, u8)>) -> Map<u16, u8>
    decreases writes.len(),
{
    if writes.len() == 0 {
        Map::new(|a: u16| true, |a: u16| 0u8)
    } else {
        vector_memory(writes.drop_last()).insert(writes.last().0, writes.last().1)
    }
}

/// `start` with the registers a case lists.
pub open spec fn vector_state(start: CpuState, v: VectorState) -> CpuState {
    CpuState {
        a: v.a,
        f: v.f,
        b: v.b,
        c: v.c,
        d: v.d,
        e: v.e,
        h: v.h,
        l: v.l,
        i: v.i,
        r: v.r,
        ix: v.ix,
        iy: v.iy,
        sp: v.sp,
        pc: v.pc,
        wz: v.wz,
        af_alt: v.af_,
        bc_alt: v.bc_,
        de_alt: v.de_,
        hl_alt: v.hl_,
        im: v.im,
        iff1: v.iff1 != 0,
        iff2: v.iff2 != 0,
        q: v.q,
        ..start
    }
}

/// The compared fields of a state, each with the value the case wants.
pub open spec fn compared_registers(s: CpuState, want: VectorState) -> Seq<(Register, u16, u16)> {
    seq![
        (Register::A, s.a as u16, want.a as u16),
        (Register::B, s.b as u16, want.b as u16),
        (Register::C, s.c as u16, want.c as u16),
        (Register::D, s.d as u16, want.d as u16),
        (Register::E, s.e as u16, want.e as u16),
        (Register::F, s.f as u16, want.f as u16),
        (Register::H, s.h as u16, want.h as u16),
        (Register::L, s.l as u16, want.l as u16),
        (Register::I, s.i as u16, want.i as u16),
        (Register::R, s.r as u16, want.r as u16),
        (Register::Ix, s.ix, want.ix),
        (Register::Iy, s.iy, want.iy),
        (Register::Sp, s.sp, want.sp),
        (Register::Pc, s.pc, want.pc),
        (Register::Wz, s.wz, want.wz),
        (Register::AfAlt, s.af_alt, want.af_),
        (Register::BcAlt, s.bc_alt, want.bc_),
        (Register::DeAlt, s.de_alt, want.de_),
        (Register::HlAlt, s.hl_alt, want.hl_),
        (Register::Im, s.im as u16, want.im as u16),
        (Register::Iff1, if s.iff1 { 1u16 } else { 0u16 }, want.iff1 as u16),
        (Register::Iff2, if s.iff2 { 1u16 } else { 0u16 }, want.iff2 as u16),
        (Register::Q, s.q as u16, want.q as u16),
    ]
}

/// The differing fields among `(register, got, want)` triples, in order.
pub open spec fn register_diffs(fields: Seq<(Register, u16, u16)>) -> Seq<DiffView>
    decreases fields.len(),
{
    if fields.len() == 0 {
        seq![]
    } else {
        let earlier = register_diffs(fields.drop_last());
        let (register, got, want) = fields.last();
        if got != want {
            earlier.push(DiffView::Register { register, got, want })
        } else {
            earlier
        }
    }
}

/// The listed RAM bytes that `mem` does not hold, in list order.
pub open spec fn ram_diffs(mem: Map<u16, u8>, want: Seq<(u16, u8)>) -> Seq<DiffView>
    decreases want.len(),
{
    if want.len() == 0 {
        seq![]
    } else {
        let earlier = ram_diffs(mem, want.drop_last());
        let (address, value) = want.last();
        if mem[address] != value {
            earlier.push(DiffView::Ram { address, got: mem[address], want: value })
        } else {
            earlier
        }
    }
}

/// The complaints about the port accesses `io` against the case's script:
/// the writes, a supplied read never made, then each read's own complaint.
pub open spec fn port_diffs(case: VectorCase, io: Seq<PortAccess>) -> Seq<DiffView> {
    let inputs = scripted(case.ports@, Direction::Read);
    let reads = logged_reads(io);
    let writes = if logged_writes(io) != scripted(case.ports@, Direction::Write) {
        seq![DiffView::PortWrites { want: scripted(case.ports@, Direction::Write), got: logged_writes(io) }]
    } else {
        seq![]
    };
    let missing = if reads.len() < inputs.len() {
        seq![DiffView::MissingPortRead { port: inputs[reads.len() as int].0 }]
    } else {
        seq![]
    };
    writes + missing + read_errors(inputs, reads)
}

/// Every difference between a completed step, which ended in state `s`
/// and memory `mem` after the port accesses `io` and took `t` T-states, and
/// what the case expects: the fields, the listed RAM bytes, the port
/// accesses, then the T-states when the case lists cycles.
pub open spec fn step_diffs(case: VectorCase, s: CpuState, mem: Map<u16, u8>, io: Seq<PortAccess>, t: u32) -> Seq<DiffView> {
    let timing = if case.cycles > 0 && t != case.cycles as u32 {
        seq![DiffView::TStates { want: case.cycles as u32, got: t }]
    } else {
        seq![]
    };
    register_diffs(compared_registers(s, case.expected)) + ram_diffs(mem, case.expected.ram@)
        + port_diffs(case, io) + timing
}

/// The one difference a fault makes: opcodes with no handler are not
/// implemented, anything else is a fault.
pub open spec fn fault_diff(f: Fault) -> DiffView {
    match f {
        Fault::UnhandledOpcode { .. } => DiffView::NotImplemented(f),
        Fault::UnhandledIndexOpcode { .. } => DiffView::NotImplemented(f),
        _ => DiffView::Fault(f),
    }
}

/// The step a case takes from its initial state and RAM, the port reads
/// answering `pin`.
pub open spec fn case_step(case: VectorCase, pin: u8) -> Outcome {
    step_outcome(vector_state(power_on(), case.initial), vector_memory(case.initial.ram@), pin)
}

/// The differences a case's step `out` shows.
pub open spec fn case_diffs(case: VectorCase, out: Outcome) -> Seq<DiffView> {
    match out.result {
        Ok(t) => step_diffs(case, out.state, out.memory, out.io, t),
        Err(f) => seq![fault_diff(f)],
    }
}

/// The byte the `j`-th port read of a step answers: the `j`-th queued
/// input, or 0xFF past the queue.
pub open spec fn queued_answer(inputs: Seq<(u16, u8)>, j: int) -> u8 {
    if 0 <= j < inputs.len() {
        inputs[j].1
    } else {
        0xFF
    }
}

/// Whether every port read in `log` answered its place in the queue
/// `inputs`: the first read the first input, and so on, 0xFF past the end.
pub open spec fn reads_answer(log: Seq<PortAccess>, inputs: Seq<(u16, u8)>) -> bool
    decreases log.len(),
{
    if log.len() == 0 {
        true
    } else {
        &&& reads_answer(log.drop_last(), inputs)
        &&& log.last() matches PortAccess::Read { value, .. } ==> value == queued_answer(
            inputs,
            logged_reads(log.drop_last()).len() as int,
        )
    }
}

/// The queue, how far it has been read, and every access so far.
struct PortScript {
    inputs: Vec<(u16, u8)>,
    next: usize,
    accesses: Vec<PortAccess>,
}

impl PortScript {
    /// The queue has been read once per logged read, up to its end, each
    /// read answered from its place.
    #[verifier::type_invariant]
    spec fn follows_queue(self) -> bool {
        &&& self.next as int == if logged_reads(self.accesses@).len() < self.inputs@.len() {
            logged_reads(self.accesses@).len() as int
        } else {
            self.inputs@.len() as int
        }
        &&& reads_answer(self.accesses@, self.inputs@)
    }

    fn new(inputs: Vec<(u16, u8)>) -> (p: PortScript)
        ensures
            p.inputs@ == inputs@,
            p.next == 0,
            p.accesses@ == Seq::<PortAccess>::empty(),
    {
        PortScript { inputs, next: 0, accesses: Vec::new() }
    }

    /// Answer a read at `port` from the queue.
    fn read(self, port: u16) -> (r: (PortScript, u8))
        ensures
            r.0.inputs@ == self.inputs@,
            r.0.accesses@ == self.accesses@.push(PortAccess::Read { port, value: r.1 }),
            self.next < self.inputs.len() ==> r.1 == self.inputs@[self.next as int].1 && r.0.next
                == self.next + 1,
            self.next >= self.inputs.len() ==> r.1 == 0xFF && r.0.next == self.next,
    {
        proof {
            use_type_invariant(&self);
        }
        let PortScript { inputs, next, mut accesses } = self;
        let ghost before = accesses@;
        let (value, next) = if next < inputs.len() {
            (inputs[next].1, next + 1)
        } else {
            (0xFF, next)
        };
        accesses.push(PortAccess::Read { port, value });
        proof {
            assert(accesses@.drop_last() =~= before);
            assert(logged_reads(accesses@) == logged_reads(before).push(port));
        }
        (PortScript { inputs, next, accesses }, value)
    }

    /// Record a write.
    fn write(self, port: u16, value: u8) -> (p: PortScript)
        ensures
            p.inputs@ == self.inputs@,
            p.next == self.next,
            p.accesses@ == self.accesses@.push(PortAccess::Write { port, value }),
    {
        proof {
            use_type_invariant(&self);
        }
        let PortScript { inputs, next, mut accesses } = self;
        let ghost before = accesses@;
        accesses.push(PortAccess::Write { port, value });
        proof {
            assert(accesses@.drop_last() =~= before);
            assert(logged_reads(accesses@) == logged_reads(before));
        }
        PortScript { inputs, next, accesses }
    }
}

/// A flat 64 KiB RAM and the case's queued port reads, answered in order;
/// a read past the queue answers 0xFF.
pub struct VectorBus {
    memory: [u8; 0x10000],
    script: PortScript,
}

impl VectorBus {
    /// How far the queue has been read.
    pub closed spec fn next_input(&self) -> nat {
        self.script.next as nat
    }

    /// Zeroed RAM with `ram` written over it in order, and `inputs` queued.
    pub fn new(ram: &Vec<(u16, u8)>, inputs: Vec<(u16, u8)>) -> (bus: VectorBus)
        ensures
            bus.memory() == vector_memory(ram@),
            bus.port_log() == Seq::<PortAccess>::empty(),
            bus.port_queue() == inputs@,
            bus.next_input() == 0,
    {
        let mut memory = [0u8; 0x10000];
        assert(Map::new(|a: u16| true, |a: u16| memory@[a as int]) =~= vector_memory(seq![]));
        let mut k: usize = 0;
        while k < ram.len()
            invariant
                k <= ram.len(),
                Map::new(|a: u16| true, |a: u16| memory@[a as int]) == vector_memory(
                    ram@.take(k as int),
                ),
            decreases ram.len() - k,
        {
            let (addr, value) = ram[k];
            memory[addr as usize] = value;
            assert(ram@.take(k as int + 1).drop_last() =~= ram@.take(k as int));
            assert(Map::new(|a: u16| true, |a: u16| memory@[a as int]) =~= vector_memory(
                ram@.take(k as int),
            ).insert(addr, value));
            k = k + 1;
        }
        assert(ram@.take(ram.len() as int) =~= ram@);
        VectorBus { memory, script: PortScript::new(inputs) }
    }

    /// The byte at `addr`.
    pub fn peek(&self, addr: u16) -> (value: u8)
        ensures
            value == self.memory()[addr],
    {
        self.memory[addr as usize]
    }

    /// Every port access so far, oldest first.
    pub fn accesses(&self) -> (log: &Vec<PortAccess>)
        ensures
            log@ == self.port_log(),
    {
        &self.script.accesses
    }

    /// Every port read so far answered its place in the queue.
    pub fn reads_follow_queue(&self)
        ensures
            reads_answer(self.port_log(), self.port_queue()),
    {
        proof {
            use_type_invariant(&self.script);
        }
    }
}

impl Bus for VectorBus {
    closed spec fn memory(&self) -> Map<u16, u8> {
        Map::new(|a: u16| true, |a: u16| self.memory@[a as int])
    }

    closed spec fn port_log(&self) -> Seq<PortAccess> {
        self.script.accesses@
    }

    closed spec fn port_queue(&self) -> Seq<(u16, u8)> {
        self.script.inputs@
    }

    fn read_byte(&mut self, addr: u16) -> (value: u8) {
        self.memory[addr as usize]
    }

    fn write_byte(&mut self, addr: u16, value: u8) {
        self.memory[addr as usize] = value;
        assert(self.memory() =~= old(self).memory().insert(addr, value));
    }

    /// The next queued input answers, and the queue advances; past the
    /// queue the read answers 0xFF and the queue stays where it is.
    fn read_port(&mut self, addr: u16) -> (value: u8)
        ensures
            old(self).next_input() < old(self).port_queue().len() ==> value == old(self).port_queue()[old(self).next_input() as int].1
                && final(self).next_input() == old(self).next_input() + 1,
            old(self).next_input() >= old(self).port_queue().len() ==> value == 0xFF
                && final(self).next_input() == old(self).next_input(),
    {
        let mut p = PortScript::new(Vec::new());
        std::mem::swap(&mut p, &mut self.script);
        let (p, value) = p.read(addr);
        self.script = p;
        value
    }

    fn write_port(&mut self, addr: u16, value: u8) {
        let mut p = PortScript::new(Vec::new());
        std::mem::swap(&mut p, &mut self.script);
        self.script = p.write(addr, value);
    }
}

/// The (port, value) pairs of `ports` that go in direction `dir`.
fn collect_script(ports: &Vec<PortEvent>, dir: Direction) -> (out: Vec<(u16, u8)>)
    ensures
        out@ == scripted(ports@, dir),
{
    let mut out: Vec<(u16, u8)> = Vec::new();
    let mut k: usize = 0;
    while k < ports.len()
        invariant
            k <= ports.len(),
            out@ == scripted(ports@.take(k as int), dir),
        decreases ports.len() - k,
    {
        let event = ports[k];
        assert(ports@.take(k as int + 1).drop_last() =~= ports@.take(k as int));
        if event.direction == dir {
            out.push((event.port, event.value));
        }
        k = k + 1;
    }
    assert(ports@.take(ports.len() as int) =~= ports@);
    out
}

/// The writes and the read addresses among port accesses, in order.
fn split_log(log: &Vec<PortAccess>) -> (out: (Vec<(u16, u8)>, Vec<u16>))
    ensures
        out.0@ == logged_writes(log@),
        out.1@ == logged_reads(log@),
{
    let mut writes: Vec<(u16, u8)> = Vec::new();
    let mut reads: Vec<u16> = Vec::new();
    let mut k: usize = 0;
    while k < log.len()
        invariant
            k <= log.len(),
            writes@ == logged_writes(log@.take(k as int)),
            reads@ == logged_reads(log@.take(k as int)),
        decreases log.len() - k,
    {
        assert(log@.take(k as int + 1).drop_last() =~= log@.take(k as int));
        match log[k] {
            PortAccess::Read { port, .. } => reads.push(port),
            PortAccess::Write { port, value } => writes.push((port, value)),
        }
        k = k + 1;
    }
    assert(log@.take(log.len() as int) =~= log@);
    (writes, reads)
}

fn same_pairs(x: &Vec<(u16, u8)>, y: &Vec<(u16, u8)>) -> (same: bool)
    ensures
        same == (x@ == y@),
{
    if x.len() != y.len() {
        return false;
    }
    let mut k: usize = 0;
    while k < x.len()
        invariant
            k <= x.len(),
            x.len() == y.len(),
            forall|j: int| 0 <= j < k ==> x@[j] == y@[j],
        decreases x.len() - k,
    {
        let (xp, xv) = x[k];
        let (yp, yv) = y[k];
        if xp != yp || xv != yv {
            return false;
        }
        k = k + 1;
    }
    assert(x@ =~= y@);
    true
}

fn push_diff(diffs: &mut Vec<VectorDiff>, d: VectorDiff)
    ensures
        diff_views(final(diffs)@) == diff_views(old(diffs)@).push(d@),
{
    let ghost before = diffs@;
    diffs.push(d);
    assert(diff_views(diffs@) =~= diff_views(before).push(d@));
}

/// A CPU loaded with a case's initial state and RAM, its port reads queued.
pub fn setup_cpu(initial: &VectorState, ports: &Vec<PortEvent>) -> (cpu: Z80<VectorBus>)
    ensures
        cpu@ == vector_state(power_on(), *initial),
        cpu.mem() == vector_memory(initial.ram@),
        cpu.log() == Seq::<PortAccess>::empty(),
        cpu.queue() == scripted(ports@, Direction::Read),
        cpu.bus.next_input() == 0,
{
    let bus = VectorBus::new(&initial.ram, collect_script(ports, Direction::Read));
    let mut cpu = Z80::new(bus);
    cpu.a = initial.a;
    cpu.b = initial.b;
    cpu.c = initial.c;
    cpu.d = initial.d;
    cpu.e = initial.e;
    cpu.f.set_byte(initial.f);
    cpu.h = initial.h;
    cpu.l = initial.l;
    cpu.i = initial.i;
    cpu.r = initial.r;
    cpu.ix = initial.ix;
    cpu.iy = initial.iy;
    cpu.sp = initial.sp;
    cpu.pc = initial.pc;
    cpu.wz = initial.wz;
    cpu.af_ = initial.af_;
    cpu.bc_ = initial.bc_;
    cpu.de_ = initial.de_;
    cpu.hl_ = initial.hl_;
    cpu.im = initial.im;
    cpu.iff1 = initial.iff1 != 0;
    cpu.iff2 = initial.iff2 != 0;
    cpu.q = initial.q;
    cpu
}

proof fn lemma_register_step(f: Seq<(Register, u16, u16)>, k: int)
    requires
        0 <= k < f.len(),
    ensures
        register_diffs(f.take(k + 1)) == if f[k].1 != f[k].2 {
            register_diffs(f.take(k)).push(DiffView::Register { register: f[k].0, got: f[k].1, want: f[k].2 })
        } else {
            register_diffs(f.take(k))
        },
{
    assert(f.take(k + 1).drop_last() =~= f.take(k));
}

fn push_register_diffs(diffs: &mut Vec<VectorDiff>, cpu: &Z80<VectorBus>, want: &VectorState)
    ensures
        diff_views(final(diffs)@) == diff_views(old(diffs)@) + register_diffs(compared_registers(cpu@, *want)),
{
    let iff1: u16 = if cpu.iff1 {
        1
    } else {
        0
    };
    let iff2: u16 = if cpu.iff2 {
        1
    } else {
        0
    };
    let fields: [(Register, u16, u16); 23] = [
        (Register::A, cpu.a as u16, want.a as u16),
        (Register::B, cpu.b as u16, want.b as u16),
        (Register::C, cpu.c as u16, want.c as u16),
        (Register::D, cpu.d as u16, want.d as u16),
        (Register::E, cpu.e as u16, want.e as u16),
        (Register::F, cpu.f.byte() as u16, want.f as u16),
        (Register::H, cpu.h as u16, want.h as u16),
        (Register::L, cpu.l as u16, want.l as u16),
        (Register::I, cpu.i as u16, want.i as u16),
        (Register::R, cpu.r as u16, want.r as u16),
        (Register::Ix, cpu.ix, want.ix),
        (Register::Iy, cpu.iy, want.iy),
        (Register::Sp, cpu.sp, want.sp),
        (Register::Pc, cpu.pc, want.pc),
        (Register::Wz, cpu.wz, want.wz),
        (Register::AfAlt, cpu.af_, want.af_),
        (Register::BcAlt, cpu.bc_, want.bc_),
        (Register::DeAlt, cpu.de_, want.de_),
        (Register::HlAlt, cpu.hl_, want.hl_),
        (Register::Im, cpu.im as u16, want.im as u16),
        (Register::Iff1, iff1, want.iff1 as u16),
        (Register::Iff2, iff2, want.iff2 as u16),
        (Register::Q, cpu.q as u16, want.q as u16),
    ];
    let ghost f = compared_registers(cpu@, *want);
    assert(fields@ =~= f);
    let ghost start = diff_views(diffs@);
    assert(f.take(0) =~= seq![]);
    let mut i: usize = 0;
    while i < 23
        invariant
            i <= 23,
            fields@ == f,
            f.len() == 23,
            diff_views(diffs@) == start + register_diffs(f.take(i as int)),
        decreases 23 - i,
    {
        let (register, got, w) = fields[i];
        proof {
            lemma_register_step(f, i as int);
        }
        if got != w {
            push_diff(diffs, VectorDiff::Register { register, got, want: w });
        }
        assert(diff_views(diffs@) =~= start + register_diffs(f.take(i as int + 1)));
        i = i + 1;
    }
    assert(f.take(23) =~= f);
}

fn push_ram_diffs(diffs: &mut Vec<VectorDiff>, bus: &VectorBus, want: &Vec<(u16, u8)>)
    ensures
        diff_views(final(diffs)@) == diff_views(old(diffs)@) + ram_diffs(bus.memory(), want@),
{
    let ghost start = diff_views(diffs@);
    let mut k: usize = 0;
    assert(want@.take(0) =~= seq![]);
    while k < want.len()
        invariant
            k <= want.len(),
            diff_views(diffs@) == start + ram_diffs(bus.memory(), want@.take(k as int)),
        decreases want.len() - k,
    {
        let (address, value) = want[k];
        let got = bus.peek(address);
        assert(want@.take(k as int + 1).drop_last() =~= want@.take(k as int));
        if got != value {
            push_diff(diffs, VectorDiff::Ram { address, got, want: value });
        }
        assert(diff_views(diffs@) =~= start + ram_diffs(bus.memory(), want@.take(k as int + 1)));
        k = k + 1;
    }
    assert(want@.take(want.len() as int) =~= want@);
}

fn push_read_errors(diffs: &mut Vec<VectorDiff>, inputs: &Vec<(u16, u8)>, reads: &Vec<u16>)
    ensures
        diff_views(final(diffs)@) == diff_views(old(diffs)@) + read_errors(inputs@, reads@),
{
    let ghost start = diff_views(diffs@);
    let mut j: usize = 0;
    assert(reads@.take(0) =~= seq![]);
    while j < reads.len()
        invariant
            j <= reads.len(),
            diff_views(diffs@) == start + read_errors(inputs@, reads@.take(j as int)),
        decreases reads.len() - j,
    {
        let ghost prefix = reads@.take(j as int + 1);
        assert(prefix.drop_last() =~= reads@.take(j as int));
        assert(prefix[j as int] == reads@[j as int]);
        if j < inputs.len() {
            if inputs[j].0 != reads[j] {
                push_diff(diffs, VectorDiff::PortReadMismatch { want: inputs[j].0, got: reads[j] });
            }
        } else {
            push_diff(diffs, VectorDiff::UnexpectedPortRead { port: reads[j] });
        }
        assert(diff_views(diffs@) =~= start + read_errors(inputs@, prefix));
        j = j + 1;
    }
    assert(reads@.take(reads.len() as int) =~= reads@);
}

/// Compare a completed step, which took `t_states`, with what the case
/// expects.
pub fn compare(cpu: &Z80<VectorBus>, t_states: u32, case: &VectorCase) -> (diffs: Vec<VectorDiff>)
    ensures
        diff_views(diffs@) == step_diffs(*case, cpu@, cpu.mem(), cpu.log(), t_states),
{
    let mut diffs: Vec<VectorDiff> = Vec::new();
    assert(diff_views(diffs@) =~= Seq::<DiffView>::empty());
    push_register_diffs(&mut diffs, cpu, &case.expected);
    push_ram_diffs(&mut diffs, &cpu.bus, &case.expected.ram);
    let ghost before_ports = diff_views(diffs@);
    let want_writes = collect_script(&case.ports, Direction::Write);
    let inputs = collect_script(&case.ports, Direction::Read);
    let (writes, reads) = split_log(cpu.bus.accesses());
    if !same_pairs(&writes, &want_writes) {
        push_diff(&mut diffs, VectorDiff::PortWrites { want: want_writes, got: writes });
    }
    if reads.len() < inputs.len() {
        push_diff(&mut diffs, VectorDiff::MissingPortRead { port: inputs[reads.len()].0 });
    }
    push_read_errors(&mut diffs, &inputs, &reads);
    assert(diff_views(diffs@) =~= before_ports + port_diffs(*case, cpu.log()));
    if case.cycles > 0 {
        let want_t = case.cycles as u32;
        if t_states != want_t {
            push_diff(&mut diffs, VectorDiff::TStates { want: want_t, got: t_states });
        }
    }
    assert(diff_views(diffs@) =~= step_diffs(*case, cpu@, cpu.mem(), cpu.log(), t_states));
    diffs
}

/// Run one case and list how its outcome differs from what it expects; an
/// empty list is a pass.
///
/// The step is the one the instruction set defines from the case's initial
/// state and RAM, each port read answering the case's scripted reads in
/// order (0xFF past them), the last read's answer being `pin`.
pub fn run_case(case: &VectorCase) -> (diffs: Vec<VectorDiff>)
    ensures
        exists|pin: u8|
            #![trigger case_step(*case, pin)]
            {
                &&& pin == last_port_input(case_step(*case, pin).io)
                &&& reads_answer(case_step(*case, pin).io, scripted(case.ports@, Direction::Read))
                &&& diff_views(diffs@) == case_diffs(*case, case_step(*case, pin))
            },
{
    let mut cpu = setup_cpu(&case.initial, &case.ports);
    let ghost s0 = cpu@;
    let ghost m0 = cpu.mem();
    let r = cpu.step();
    cpu.bus.reads_follow_queue();
    let ghost pin = last_port_input(cpu.log());
    assert(cpu.log() =~= case_step(*case, pin).io);
    match r {
        Ok(t_states) => {
            let diffs = compare(&cpu, t_states, case);
            diffs
        },
        Err(fault) => {
            let mut diffs: Vec<VectorDiff> = Vec::new();
            let d = match fault {
                Fault::UnhandledOpcode { .. } => VectorDiff::NotImplemented(fault),
                Fault::UnhandledIndexOpcode { .. } => VectorDiff::NotImplemented(fault),
                _ => VectorDiff::Fault(fault),
            };
            push_diff(&mut diffs, d);
            assert(diff_views(diffs@) =~= seq![fault_diff(fault)]);
            diffs
        },
    }
}

/// How one case went.
#[derive(Clone, Copy, Debug, PartialEq, Eq, Structural)]
pub enum Verdict {
    Passed,
    /// It stopped on an opcode the core has no handler for.
    NotImplemented,
    Failed,
}

/// A case passes with no difference, is not implemented when one of its
/// differences says so, and fails otherwise.
pub open spec fn verdict_of(diffs: Seq<DiffView>) -> Verdict {
    if diffs.len() == 0 {
        Verdict::Passed
    } else if exists|k: int| 0 <= k < diffs.len() && #[trigger] diffs[k] is NotImplemented {
        Verdict::NotImplemented
    } else {
        Verdict::Failed
    }
}

/// The verdict on a case from its differences.
pub fn verdict(diffs: &Vec<VectorDiff>) -> (v: Verdict)
    ensures
        v == verdict_of(diff_views(diffs@)),
{
    let ghost views = diff_views(diffs@);
    if diffs.len() == 0 {
        return Verdict::Passed;
    }
    let mut k: usize = 0;
    while k < diffs.len()
        invariant
            k <= diffs.len(),
            views == diff_views(diffs@),
            forall|j: int| 0 <= j < k ==> !(#[trigger] views[j] is NotImplemented),
        decreases diffs.len() - k,
    {
        assert(views[k as int] == diffs@[k as int]@);
        if let VectorDiff::NotImplemented(_) = diffs[k] {
            return Verdict::NotImplemented;
        }
        k = k + 1;
    }
    Verdict::Failed
}

/// How a file of cases went, as a whole.
#[derive(Clone, Copy, Debug, PartialEq, Eq, Structural)]
pub enum FileStatus {
    Passed,
    /// No case failed, but some were not implemented.
    Skipped,
    Failed,
}

/// The verdicts on one file's cases, counted.
#[derive(Clone, Copy, Debug, PartialEq, Eq, Structural)]
pub struct FileResult {
    pub passed: usize,
    pub failed: usize,
    pub not_implemented: usize,
}

impl FileResult {
    /// No case counted yet.
    pub fn new() -> (r: FileResult)
        ensures
            r == (FileResult { passed: 0, failed: 0, not_implemented: 0 }),
    {
        FileResult { passed: 0, failed: 0, not_implemented: 0 }
    }

    /// The cases counted.
    pub open spec fn total(self) -> int {
        self.passed + self.failed + self.not_implemented
    }

    /// Count one more case.
    pub fn record(&mut self, v: Verdict)
        requires
            old(self).total() < usize::MAX,
        ensures
            final(self).total() == old(self).total() + 1,
            final(self).passed == old(self).passed + if v == Verdict::Passed { 1int } else { 0int },
            final(self).failed == old(self).failed + if v == Verdict::Failed { 1int } else { 0int },
            final(self).not_implemented == old(self).not_implemented + if v
                == Verdict::NotImplemented {
                1int
            } else {
                0int
            },
    {
        match v {
            Verdict::Passed => self.passed = self.passed + 1,
            Verdict::Failed => self.failed = self.failed + 1,
            Verdict::NotImplemented => self.not_implemented = self.not_implemented + 1,
        }
    }

    /// A file fails when a case failed, is skipped when a case was not
    /// implemented, and passes otherwise.
    pub fn status(&self) -> (status: FileStatus)
        ensures
            status == if self.failed > 0 {
                FileStatus::Failed
            } else if self.not_implemented > 0 {
                FileStatus::Skipped
            } else {
                FileStatus::Passed
            },
    {
        if self.failed > 0 {
            FileStatus::Failed
        } else if self.not_implemented > 0 {
            FileStatus::Skipped
        } else {
            FileStatus::Passed
        }
    }
}

} // verus!
