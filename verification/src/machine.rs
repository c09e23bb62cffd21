//! The CPU structure, the bus it drives, and the fetch and register plumbing
//! every instruction shares.

use vstd::prelude::*;
use crate::flags::{Flags, FLAG_S, FLAG_Z, with_flag};
use crate::state::{CpuState, pair, high, low};

verus! {

/// One access a bus device saw on its I/O ports.
#[derive(Clone, Copy, Debug, PartialEq, Eq, Structural)]
pub enum PortAccess {
    /// A port read and the byte the device answered.
    Read { port: u16, value: u8 },
    /// A port write and the byte written.
    Write { port: u16, value: u8 },
}

/// The memory and I/O space the CPU drives, implemented by the host.
///
/// The contract is the host's promise: a memory read answers with the byte
/// the bus's memory view holds and changes nothing; a memory write updates
/// that one byte; port accesses leave memory as it is and are recorded, in
/// order, in the bus's port log; no access changes the port queue. Verified
/// code relies on exactly this; the value a port read answers is the
/// device's own business, which a host may pin down through its queue.
///
/// The three views have empty defaults so that an unverified host written
/// in plain Rust compiles. Such a host cannot meet this contract (a write
/// would have to change an empty memory view), so it gets none of the
/// guarantees proved here; only a host that defines the views and is
/// verified against the contract does.
pub trait Bus {
    /// The byte that a memory read at each address answers with.
    closed spec fn memory(&self) -> Map<u16, u8> {
        Map::empty()
    }

    /// Every port access so far, oldest first.
    closed spec fn port_log(&self) -> Seq<PortAccess> {
        Seq::empty()
    }

    /// The (port, value) inputs the host was set up to answer port reads
    /// with, in order; accesses leave it as it is.
    closed spec fn port_queue(&self) -> Seq<(u16, u8)> {
        Seq::empty()
    }

    fn read_byte(&mut self, addr: u16) -> (value: u8)
        ensures
            value == old(self).memory()[addr],
            final(self).memory() == old(self).memory(),
            final(self).port_log() == old(self).port_log(),
            final(self).port_queue() == old(self).port_queue(),
    ;

    fn write_byte(&mut self, addr: u16, value: u8)
        ensures
            final(self).memory() == old(self).memory().insert(addr, value),
            final(self).port_log() == old(self).port_log(),
            final(self).port_queue() == old(self).port_queue(),
    ;

    fn read_port(&mut self, addr: u16) -> (value: u8)
        ensures
            final(self).memory() == old(self).memory(),
            final(self).port_log() == old(self).port_log().push(
                PortAccess::Read { port: addr, value },
            ),
            final(self).port_queue() == old(self).port_queue(),
    ;

    fn write_port(&mut self, addr: u16, value: u8)
        ensures
            final(self).memory() == old(self).memory(),
            final(self).port_log() == old(self).port_log().push(
                PortAccess::Write { port: addr, value },
            ),
            final(self).port_queue() == old(self).port_queue(),
    ;
}

/// Why the CPU stopped short of completing a boundary.
#[derive(Clone, Copy, Debug, PartialEq, Eq, Structural)]
pub enum Fault {
    /// An unprefixed opcode with no handler. Every opcode has one, so no
    /// step returns it; it guards the dispatch table's completeness.
    UnhandledOpcode { opcode: u8, pc: u16 },
    /// A run of DD and FD prefixes that covers all of memory and so never
    /// reaches an instruction: `prefix` and `opcode` are its last two, `pc`
    /// the address of `prefix`.
    UnhandledIndexOpcode { prefix: u8, opcode: u8, pc: u16 },
    /// An interrupt-mode-0 acknowledge byte that is not an RST opcode.
    UnsupportedInterruptVector { vector: u8, pc: u16 },
}

/// The effect of one operation, as the instruction set defines it: the CPU
/// state and memory after it, its result, the instruction bytes it read
/// through the program counter, and the port accesses it made.
pub struct Outcome {
    pub state: CpuState,
    pub memory: Map<u16, u8>,
    pub result: Result<u32, Fault>,
    pub bytes: Seq<u8>,
    pub io: Seq<PortAccess>,
}

/// `out` with `prefix` in front of the instruction bytes it read.
pub open spec fn with_bytes(prefix: Seq<u8>, out: Outcome) -> Outcome {
    Outcome { bytes: prefix + out.bytes, ..out }
}

/// `out` with 4 more T-states: the cost of an index prefix that a handler
/// does not count itself.
pub open spec fn plus4(out: Outcome) -> Outcome {
    Outcome {
        result: match out.result {
            Ok(t) => Ok((t + 4) as u32),
            Err(e) => Err(e),
        },
        ..out
    }
}

/// `out` with `k` more T-states.
pub open spec fn plus_t(out: Outcome, k: int) -> Outcome {
    Outcome {
        result: match out.result {
            Ok(t) => Ok((t + k) as u32),
            Err(e) => Err(e),
        },
        ..out
    }
}

/// The byte the last port read in `log` answered, or 0 when the log does
/// not end with a read.
pub open spec fn last_port_input(log: Seq<PortAccess>) -> u8 {
    if log.len() > 0 {
        match log.last() {
            PortAccess::Read { value, .. } => value,
            PortAccess::Write { .. } => 0,
        }
    } else {
        0
    }
}

/// R after one opcode fetch: the low seven bits count, bit 7 is kept.
pub open spec fn inc_r(r: u8) -> u8 {
    (r & 0x80) | (r.wrapping_add(1) & 0x7F)
}

/// The state after an M1 opcode fetch.
pub open spec fn after_fetch(s: CpuState) -> CpuState {
    CpuState { pc: s.pc.wrapping_add(1), r: inc_r(s.r), ..s }
}

/// The state after an operand byte is read through the program counter.
pub open spec fn after_operand(s: CpuState) -> CpuState {
    CpuState { pc: s.pc.wrapping_add(1), ..s }
}

/// Q after an instruction: F when it wrote the flags, else 0.
pub open spec fn with_q(s: CpuState, changed: bool) -> CpuState {
    CpuState { q: if changed { s.f } else { 0 }, ..s }
}

/// S and Z taken from `value`, the other flags of `f` kept.
pub open spec fn sz_flags(f: u8, value: u8) -> u8 {
    with_flag(with_flag(f, FLAG_S, value & 0x80 != 0), FLAG_Z, value == 0)
}

/// The operand word of little-endian bytes.
pub open spec fn word(lo: u8, hi: u8) -> u16 {
    pair(hi, lo)
}

/// An outcome that touched no port.
pub open spec fn quiet(state: CpuState, memory: Map<u16, u8>, t: u32, bytes: Seq<u8>) -> Outcome {
    Outcome { state, memory, result: Ok(t), bytes, io: Seq::empty() }
}

/// 8-bit register `idx` in opcode order (B, C, D, E, H, L, (HL), A); index
/// 6 reads memory at HL.
pub open spec fn reg8(s: CpuState, m: Map<u16, u8>, idx: u8) -> u8 {
    if idx == 0 {
        s.b
    } else if idx == 1 {
        s.c
    } else if idx == 2 {
        s.d
    } else if idx == 3 {
        s.e
    } else if idx == 4 {
        s.h
    } else if idx == 5 {
        s.l
    } else if idx == 6 {
        m[s.hl()]
    } else {
        s.a
    }
}

/// `s` with 8-bit register `idx` set to `v` (index 6, memory, leaves `s`).
pub open spec fn set_reg8(s: CpuState, idx: u8, v: u8) -> CpuState {
    if idx == 0 {
        CpuState { b: v, ..s }
    } else if idx == 1 {
        CpuState { c: v, ..s }
    } else if idx == 2 {
        CpuState { d: v, ..s }
    } else if idx == 3 {
        CpuState { e: v, ..s }
    } else if idx == 4 {
        CpuState { h: v, ..s }
    } else if idx == 5 {
        CpuState { l: v, ..s }
    } else if idx == 6 {
        s
    } else {
        CpuState { a: v, ..s }
    }
}

/// Register pair `k` in opcode order (BC, DE, HL, SP).
pub open spec fn reg16(s: CpuState, k: u8) -> u16 {
    if k == 0 {
        s.bc()
    } else if k == 1 {
        s.de()
    } else if k == 2 {
        s.hl()
    } else {
        s.sp
    }
}

/// `s` with register pair `k` (BC, DE, HL, SP) set to `v`.
pub open spec fn set_reg16(s: CpuState, k: u8, v: u16) -> CpuState {
    if k == 0 {
        s.with_bc(v)
    } else if k == 1 {
        s.with_de(v)
    } else if k == 2 {
        s.with_hl(v)
    } else {
        CpuState { sp: v, ..s }
    }
}

/// The index register a prefix selects: IX for DD, IY otherwise.
pub open spec fn index_reg(s: CpuState, prefix: u8) -> u16 {
    if prefix == 0xDD {
        s.ix
    } else {
        s.iy
    }
}

/// `s` with the index register of `prefix` set to `v`.
pub open spec fn set_index_reg(s: CpuState, prefix: u8, v: u16) -> CpuState {
    if prefix == 0xDD {
        CpuState { ix: v, ..s }
    } else {
        CpuState { iy: v, ..s }
    }
}

/// 8-bit register `idx` under an index prefix: H and L name the halves of
/// the index register (never used with index 6).
pub open spec fn ireg8(s: CpuState, prefix: u8, idx: u8) -> u8 {
    if idx == 4 {
        high(index_reg(s, prefix))
    } else if idx == 5 {
        low(index_reg(s, prefix))
    } else {
        reg8(s, Map::empty(), idx)
    }
}

/// `s` with 8-bit register `idx` under an index prefix set to `v`.
pub open spec fn set_ireg8(s: CpuState, prefix: u8, idx: u8, v: u8) -> CpuState {
    if idx == 4 {
        set_index_reg(s, prefix, pair(v, low(index_reg(s, prefix))))
    } else if idx == 5 {
        set_index_reg(s, prefix, pair(high(index_reg(s, prefix)), v))
    } else {
        set_reg8(s, idx, v)
    }
}

/// Condition `cc` (NZ, Z, NC, C, PO, PE, P, M) on flags `f`.
pub open spec fn condition(f: u8, cc: u8) -> bool {
    if cc == 0 {
        f & 0x40 == 0
    } else if cc == 1 {
        f & 0x40 != 0
    } else if cc == 2 {
        f & 0x01 == 0
    } else if cc == 3 {
        f & 0x01 != 0
    } else if cc == 4 {
        f & 0x04 == 0
    } else if cc == 5 {
        f & 0x04 != 0
    } else if cc == 6 {
        f & 0x80 == 0
    } else {
        f & 0x80 != 0
    }
}

/// Memory after pushing `v` below SP: high byte first, at SP-1, then low.
pub open spec fn push_mem(s: CpuState, m: Map<u16, u8>, v: u16) -> Map<u16, u8> {
    m.insert(s.sp.wrapping_sub(1), high(v)).insert(s.sp.wrapping_sub(2), low(v))
}

/// The word on top of the stack.
pub open spec fn top_word(s: CpuState, m: Map<u16, u8>) -> u16 {
    word(m[s.sp], m[s.sp.wrapping_add(1)])
}

/// The CPU state at power-on: AF and SP all ones, every other register
/// zero, interrupts disabled in mode 0, nothing pending.
pub open spec fn power_on() -> CpuState {
    CpuState {
        a: 0xFF,
        f: 0xFF,
        b: 0,
        c: 0,
        d: 0,
        e: 0,
        h: 0,
        l: 0,
        ix: 0,
        iy: 0,
        sp: 0xFFFF,
        pc: 0,
        wz: 0,
        i: 0,
        r: 0,
        iff1: false,
        iff2: false,
        im: 0,
        af_alt: 0,
        bc_alt: 0,
        de_alt: 0,
        hl_alt: 0,
        q: 0,
        halted: false,
        ei_delay: 0,
        reset_pending: false,
        maskable_interrupt_vector: None,
        non_maskable_interrupt_pending: false,
    }
}

/// The Z80 CPU and the bus it owns.
pub struct Z80<B> {
    pub a: u8,
    pub f: Flags,
    pub b: u8,
    pub c: u8,
    pub d: u8,
    pub e: u8,
    pub h: u8,
    pub l: u8,
    pub ix: u16,
    pub iy: u16,
    pub sp: u16,
    pub pc: u16,
    pub wz: u16,
    pub i: u8,
    pub r: u8,
    pub iff1: bool,
    pub iff2: bool,
    pub im: u8,
    pub af_: u16,
    pub bc_: u16,
    pub de_: u16,
    pub hl_: u16,
    pub q: u8,
    pub halted: bool,
    pub ei_delay: u8,
    pub reset_pending: bool,
    pub pending_maskable_interrupt: Option<u8>,
    pub non_maskable_interrupt_pending: bool,
    pub bus: B,
    pub fetched: Vec<u8>,
}

impl<B: Bus> View for Z80<B> {
    type V = CpuState;

    open spec fn view(&self) -> CpuState {
        CpuState {
            a: self.a,
            f: self.f.bits,
            b: self.b,
            c: self.c,
            d: self.d,
            e: self.e,
            h: self.h,
            l: self.l,
            ix: self.ix,
            iy: self.iy,
            sp: self.sp,
            pc: self.pc,
            wz: self.wz,
            i: self.i,
            r: self.r,
            iff1: self.iff1,
            iff2: self.iff2,
            im: self.im,
            af_alt: self.af_,
            bc_alt: self.bc_,
            de_alt: self.de_,
            hl_alt: self.hl_,
            q: self.q,
            halted: self.halted,
            ei_delay: self.ei_delay,
            reset_pending: self.reset_pending,
            maskable_interrupt_vector: self.pending_maskable_interrupt,
            non_maskable_interrupt_pending: self.non_maskable_interrupt_pending,
        }
    }
}

impl<B: Bus> Z80<B> {
    /// The bus's memory view.
    pub open spec fn mem(&self) -> Map<u16, u8> {
        self.bus.memory()
    }

    /// The bus's port log.
    pub open spec fn log(&self) -> Seq<PortAccess> {
        self.bus.port_log()
    }

    /// The bus's port queue.
    pub open spec fn queue(&self) -> Seq<(u16, u8)> {
        self.bus.port_queue()
    }

    /// `self` is what `before` becomes through `out`: its state and memory,
    /// the instruction bytes appended, the port accesses logged, and the
    /// port queue kept.
    pub open spec fn follows(self, before: Self, out: Outcome) -> bool {
        &&& self@ == out.state
        &&& self.mem() == out.memory
        &&& self.fetched@ =~= before.fetched@ + out.bytes
        &&& self.log() =~= before.log() + out.io
        &&& self.queue() == before.queue()
    }

    /// `self` follows `before` through `out`, whose result was `r`.
    pub open spec fn ran_result(self, before: Self, out: Outcome, r: Result<u32, Fault>) -> bool {
        &&& self.follows(before, out)
        &&& out.result == r
    }

    /// `self` follows `before` through `out`, which completed in `t` T-states.
    pub open spec fn ran(self, before: Self, out: Outcome, t: u32) -> bool {
        &&& self.follows(before, out)
        &&& out.result == Ok::<u32, Fault>(t)
    }

    /// Power-on state: AF and SP all ones, every other register zero,
    /// interrupts disabled in mode 0, nothing pending.
    pub fn new(bus: B) -> (cpu: Self)
        ensures
            cpu@ == power_on(),
            cpu.bus == bus,
            cpu.fetched@ == Seq::<u8>::empty(),
    {
        Z80 {
            a: 0xFF,
            f: Flags::new(0xFF),
            b: 0,
            c: 0,
            d: 0,
            e: 0,
            h: 0,
            l: 0,
            ix: 0,
            iy: 0,
            sp: 0xFFFF,
            pc: 0,
            wz: 0,
            i: 0,
            r: 0,
            iff1: false,
            iff2: false,
            im: 0,
            af_: 0,
            bc_: 0,
            de_: 0,
            hl_: 0,
            q: 0,
            halted: false,
            ei_delay: 0,
            reset_pending: false,
            pending_maskable_interrupt: None,
            non_maskable_interrupt_pending: false,
            bus,
            fetched: Vec::new(),
        }
    }

    /// The bytes the last instruction occupied, prefixes and operands included.
    pub fn last_instruction_bytes(&self) -> (bytes: &[u8])
        ensures
            bytes@ == self.fetched@,
    {
        self.fetched.as_slice()
    }

    pub fn bc(&self) -> (v: u16)
        ensures
            v == self@.bc(),
    {
        ((self.b as u16) << 8u16) | (self.c as u16)
    }

    pub fn de(&self) -> (v: u16)
        ensures
            v == self@.de(),
    {
        ((self.d as u16) << 8u16) | (self.e as u16)
    }

    pub fn hl(&self) -> (v: u16)
        ensures
            v == self@.hl(),
    {
        ((self.h as u16) << 8u16) | (self.l as u16)
    }

    pub(crate) fn set_bc(&mut self, v: u16)
        ensures
            final(self)@ == old(self)@.with_bc(v),
            final(self).bus == old(self).bus,
            final(self).fetched@ == old(self).fetched@,
    {
        self.b = (v >> 8u16) as u8;
        self.c = v as u8;
    }

    pub(crate) fn set_de(&mut self, v: u16)
        ensures
            final(self)@ == old(self)@.with_de(v),
            final(self).bus == old(self).bus,
            final(self).fetched@ == old(self).fetched@,
    {
        self.d = (v >> 8u16) as u8;
        self.e = v as u8;
    }

    pub(crate) fn set_hl(&mut self, v: u16)
        ensures
            final(self)@ == old(self)@.with_hl(v),
            final(self).bus == old(self).bus,
            final(self).fetched@ == old(self).fetched@,
    {
        self.h = (v >> 8u16) as u8;
        self.l = v as u8;
    }

    /// Advance the refresh counter by one M1 cycle.
    pub(crate) fn inc_r(&mut self)
        ensures
            final(self)@ == (CpuState { r: inc_r(old(self)@.r), ..old(self)@ }),
            final(self).bus == old(self).bus,
            final(self).fetched@ == old(self).fetched@,
    {
        self.r = (self.r & 0x80) | (self.r.wrapping_add(1) & 0x7F);
    }

    /// Record whether the instruction just executed wrote the flags.
    pub(crate) fn update_q(&mut self, changed: bool)
        ensures
            final(self)@ == with_q(old(self)@, changed),
            final(self).bus == old(self).bus,
            final(self).fetched@ == old(self).fetched@,
    {
        self.q = if changed {
            self.f.byte()
        } else {
            0
        };
    }

    /// Set S and Z from `value`.
    pub(crate) fn set_sz(&mut self, value: u8)
        ensures
            final(self)@ == (CpuState { f: sz_flags(old(self)@.f, value), ..old(self)@ }),
            final(self).bus == old(self).bus,
            final(self).fetched@ == old(self).fetched@,
    {
        self.f.set_s(value & 0x80);
        self.f.set_z(if value == 0 {
            1
        } else {
            0
        });
    }

    /// Read a data byte from memory.
    pub(crate) fn read_mem(&mut self, addr: u16) -> (value: u8)
        ensures
            value == old(self).mem()[addr],
            final(self)@ == old(self)@,
            final(self).mem() == old(self).mem(),
            final(self).log() == old(self).log(),
            final(self).queue() == old(self).queue(),
            final(self).fetched@ == old(self).fetched@,
    {
        self.bus.read_byte(addr)
    }

    /// Write a data byte to memory.
    pub(crate) fn write_mem(&mut self, addr: u16, value: u8)
        ensures
            final(self)@ == old(self)@,
            final(self).mem() == old(self).mem().insert(addr, value),
            final(self).log() == old(self).log(),
            final(self).queue() == old(self).queue(),
            final(self).fetched@ == old(self).fetched@,
    {
        self.bus.write_byte(addr, value)
    }

    /// Read a port.
    pub(crate) fn read_io(&mut self, port: u16) -> (value: u8)
        ensures
            final(self)@ == old(self)@,
            final(self).mem() == old(self).mem(),
            final(self).log() == old(self).log().push(PortAccess::Read { port, value }),
            final(self).queue() == old(self).queue(),
            final(self).fetched@ == old(self).fetched@,
    {
        self.bus.read_port(port)
    }

    /// Write a port.
    pub(crate) fn write_io(&mut self, port: u16, value: u8)
        ensures
            final(self)@ == old(self)@,
            final(self).mem() == old(self).mem(),
            final(self).log() == old(self).log().push(PortAccess::Write { port, value }),
            final(self).queue() == old(self).queue(),
            final(self).fetched@ == old(self).fetched@,
    {
        self.bus.write_port(port, value)
    }

    /// Condition `cc` on the current flags.
    pub(crate) fn condition(&self, cc: u8) -> (holds: bool)
        ensures
            holds == condition(self@.f, cc),
    {
        let f = self.f.byte();
        if cc == 0 {
            f & 0x40 == 0
        } else if cc == 1 {
            f & 0x40 != 0
        } else if cc == 2 {
            f & 0x01 == 0
        } else if cc == 3 {
            f & 0x01 != 0
        } else if cc == 4 {
            f & 0x04 == 0
        } else if cc == 5 {
            f & 0x04 != 0
        } else if cc == 6 {
            f & 0x80 == 0
        } else {
            f & 0x80 != 0
        }
    }

    /// 8-bit register `idx`, reading memory at HL for index 6.
    pub(crate) fn read_reg(&mut self, idx: u8) -> (v: u8)
        ensures
            v == reg8(old(self)@, old(self).mem(), idx),
            final(self)@ == old(self)@,
            final(self).mem() == old(self).mem(),
            final(self).log() == old(self).log(),
            final(self).queue() == old(self).queue(),
            final(self).fetched@ == old(self).fetched@,
    {
        if idx == 0 {
            self.b
        } else if idx == 1 {
            self.c
        } else if idx == 2 {
            self.d
        } else if idx == 3 {
            self.e
        } else if idx == 4 {
            self.h
        } else if idx == 5 {
            self.l
        } else if idx == 6 {
            let hl = self.hl();
            self.read_mem(hl)
        } else {
            self.a
        }
    }

    /// Set 8-bit register `idx`; index 6 writes memory at HL.
    pub(crate) fn write_reg(&mut self, idx: u8, v: u8)
        ensures
            final(self)@ == set_reg8(old(self)@, idx, v),
            final(self).mem() == if idx == 6 {
                old(self).mem().insert(old(self)@.hl(), v)
            } else {
                old(self).mem()
            },
            final(self).log() == old(self).log(),
            final(self).queue() == old(self).queue(),
            final(self).fetched@ == old(self).fetched@,
    {
        if idx == 0 {
            self.b = v;
        } else if idx == 1 {
            self.c = v;
        } else if idx == 2 {
            self.d = v;
        } else if idx == 3 {
            self.e = v;
        } else if idx == 4 {
            self.h = v;
        } else if idx == 5 {
            self.l = v;
        } else if idx == 6 {
            let hl = self.hl();
            self.write_mem(hl, v);
        } else {
            self.a = v;
        }
    }

    /// Register pair `k` (BC, DE, HL, SP).
    pub(crate) fn get_rr(&self, k: u8) -> (v: u16)
        ensures
            v == reg16(self@, k),
    {
        if k == 0 {
            self.bc()
        } else if k == 1 {
            self.de()
        } else if k == 2 {
            self.hl()
        } else {
            self.sp
        }
    }

    /// Set register pair `k` (BC, DE, HL, SP).
    pub(crate) fn set_rr(&mut self, k: u8, v: u16)
        ensures
            final(self)@ == set_reg16(old(self)@, k, v),
            final(self).bus == old(self).bus,
            final(self).fetched@ == old(self).fetched@,
    {
        if k == 0 {
            self.set_bc(v);
        } else if k == 1 {
            self.set_de(v);
        } else if k == 2 {
            self.set_hl(v);
        } else {
            self.sp = v;
        }
    }

    /// The index register of `prefix`.
    pub(crate) fn get_index(&self, prefix: u8) -> (v: u16)
        ensures
            v == index_reg(self@, prefix),
    {
        if prefix == 0xDD {
            self.ix
        } else {
            self.iy
        }
    }

    /// Set the index register of `prefix`.
    pub(crate) fn set_index(&mut self, prefix: u8, v: u16)
        ensures
            final(self)@ == set_index_reg(old(self)@, prefix, v),
            final(self).bus == old(self).bus,
            final(self).fetched@ == old(self).fetched@,
    {
        if prefix == 0xDD {
            self.ix = v;
        } else {
            self.iy = v;
        }
    }

    /// 8-bit register `idx` under an index prefix (not index 6).
    pub(crate) fn get_ireg(&self, prefix: u8, idx: u8) -> (v: u8)
        requires
            idx != 6,
        ensures
            v == ireg8(self@, prefix, idx),
    {
        if idx == 4 {
            (self.get_index(prefix) >> 8u16) as u8
        } else if idx == 5 {
            self.get_index(prefix) as u8
        } else if idx == 0 {
            self.b
        } else if idx == 1 {
            self.c
        } else if idx == 2 {
            self.d
        } else if idx == 3 {
            self.e
        } else {
            self.a
        }
    }

    /// Set 8-bit register `idx` under an index prefix (not index 6).
    pub(crate) fn set_ireg(&mut self, prefix: u8, idx: u8, v: u8)
        requires
            idx != 6,
        ensures
            final(self)@ == set_ireg8(old(self)@, prefix, idx, v),
            final(self).bus == old(self).bus,
            final(self).fetched@ == old(self).fetched@,
    {
        if idx == 4 {
            let x = self.get_index(prefix);
            self.set_index(prefix, ((v as u16) << 8u16) | ((x as u8) as u16));
        } else if idx == 5 {
            let x = self.get_index(prefix);
            self.set_index(prefix, ((((x >> 8u16) as u8) as u16) << 8u16) | (v as u16));
        } else if idx == 0 {
            self.b = v;
        } else if idx == 1 {
            self.c = v;
        } else if idx == 2 {
            self.d = v;
        } else if idx == 3 {
            self.e = v;
        } else {
            self.a = v;
        }
    }

    /// Push a word: SP decreases by two, high byte at the higher address.
    pub(crate) fn push_word(&mut self, v: u16)
        ensures
            final(self)@ == (CpuState { sp: old(self)@.sp.wrapping_sub(2), ..old(self)@ }),
            final(self).mem() == push_mem(old(self)@, old(self).mem(), v),
            final(self).log() == old(self).log(),
            final(self).queue() == old(self).queue(),
            final(self).fetched@ == old(self).fetched@,
    {
        self.sp = self.sp.wrapping_sub(1);
        let sp = self.sp;
        self.write_mem(sp, (v >> 8u16) as u8);
        self.sp = self.sp.wrapping_sub(1);
        let sp = self.sp;
        self.write_mem(sp, v as u8);
        assert(old(self)@.sp.wrapping_sub(1).wrapping_sub(1) == old(self)@.sp.wrapping_sub(2));
    }

    /// Pop a word: low byte at SP, high byte above it; SP increases by two.
    pub(crate) fn pop_word(&mut self) -> (v: u16)
        ensures
            v == top_word(old(self)@, old(self).mem()),
            final(self)@ == (CpuState { sp: old(self)@.sp.wrapping_add(2), ..old(self)@ }),
            final(self).mem() == old(self).mem(),
            final(self).log() == old(self).log(),
            final(self).queue() == old(self).queue(),
            final(self).fetched@ == old(self).fetched@,
    {
        let sp = self.sp;
        let lo = self.read_mem(sp);
        let sp1 = sp.wrapping_add(1);
        let hi = self.read_mem(sp1);
        self.sp = sp1.wrapping_add(1);
        ((hi as u16) << 8u16) | (lo as u16)
    }

    /// An operand word, low byte first.
    pub(crate) fn read_operand_word(&mut self) -> (v: u16)
        ensures
            v == word(old(self).mem()[old(self)@.pc], old(self).mem()[old(self)@.pc.wrapping_add(1)]),
            final(self)@ == after_operand(after_operand(old(self)@)),
            final(self).mem() == old(self).mem(),
            final(self).log() == old(self).log(),
            final(self).queue() == old(self).queue(),
            final(self).fetched@ == old(self).fetched@.push(old(self).mem()[old(self)@.pc]).push(
                old(self).mem()[old(self)@.pc.wrapping_add(1)],
            ),
    {
        let lo = self.read_operand_byte();
        let hi = self.read_operand_byte();
        ((hi as u16) << 8u16) | (lo as u16)
    }

    /// An M1 opcode fetch: read at PC, advance PC and R, record the byte.
    pub(crate) fn fetch_byte(&mut self) -> (value: u8)
        ensures
            value == old(self).mem()[old(self)@.pc],
            final(self)@ == after_fetch(old(self)@),
            final(self).mem() == old(self).mem(),
            final(self).log() == old(self).log(),
            final(self).queue() == old(self).queue(),
            final(self).fetched@ == old(self).fetched@.push(value),
    {
        let value = self.bus.read_byte(self.pc);
        self.pc = self.pc.wrapping_add(1);
        self.inc_r();
        self.fetched.push(value);
        value
    }

    /// An operand read through PC: no refresh cycle.
    pub(crate) fn read_operand_byte(&mut self) -> (value: u8)
        ensures
            value == old(self).mem()[old(self)@.pc],
            final(self)@ == after_operand(old(self)@),
            final(self).mem() == old(self).mem(),
            final(self).log() == old(self).log(),
            final(self).queue() == old(self).queue(),
            final(self).fetched@ == old(self).fetched@.push(value),
    {
        let value = self.bus.read_byte(self.pc);
        self.pc = self.pc.wrapping_add(1);
        self.fetched.push(value);
        value
    }
}

} // verus!
