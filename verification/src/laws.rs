//! Properties of the instruction core that span several operations.

use vstd::prelude::*;
use crate::blocks::ld_block;
use crate::flags::{FLAG_H, FLAG_N, FLAG_PV, FLAG_X, FLAG_Y, flag_value, with_flag};
use crate::control::{accept_nmi, accept_reset};
use crate::cpu::{halt_idle, step_outcome};
use crate::loads::{ex_de_hl, exx, pop_rr, push_rr};
use crate::machine::{inc_r, reg16};
use crate::state::{CpuState, high, low, pair};
use crate::trace::{BoundaryKind, boundary, kind_name};
use crate::dispatch::{cb_op, decode, ed_op, main_op};
use crate::index_dispatch::{MAX_STRAY_PREFIXES, index_cb_op, index_op, index_table, lemma_prefix_run_time, prefix_run};
use crate::machine::{Fault, after_fetch, plus4, with_bytes};

verus! {

/// A word split into its bytes and joined again is unchanged.
pub proof fn lemma_pair_high_low(v: u16)
    ensures
        pair(high(v), low(v)) == v,
{
    assert(((((v >> 8u16) as u8) as u16) << 8u16) | ((v as u8) as u16) == v) by (bit_vector);
}

/// A word joined from two bytes splits back into them.
pub proof fn lemma_split_pair(h: u8, l: u8)
    ensures
        high(pair(h, l)) == h,
        low(pair(h, l)) == l,
{
    assert((((((h as u16) << 8u16) | (l as u16)) >> 8u16) as u8) == h) by (bit_vector);
    assert(((((h as u16) << 8u16) | (l as u16)) as u8) == l) by (bit_vector);
}

/// RESET outranks every other request: whatever else is pending, a CPU
/// with RESET asserted services it, in 3 T-states, at PC 0.
pub proof fn law_reset_first(s: CpuState, m: Map<u16, u8>, pin: u8)
    requires
        s.reset_pending,
    ensures
        boundary(s) == BoundaryKind::Reset,
        step_outcome(s, m, pin) == accept_reset(s, m),
        step_outcome(s, m, pin).state.pc == 0,
        !step_outcome(s, m, pin).state.reset_pending,
        step_outcome(s, m, pin).result == Ok::<u32, crate::machine::Fault>(3),
{
}

/// A maskable interrupt is taken only when one is requested, IFF1 is set,
/// no EI delay is running, and neither RESET nor NMI is pending.
pub proof fn law_maskable_needs_enable(s: CpuState)
    ensures
        boundary(s) == BoundaryKind::MaskableInterrupt <==> (!s.reset_pending
            && !s.non_maskable_interrupt_pending && s.maskable_interrupt_vector is Some && s.iff1
            && s.ei_delay == 0),
{
}

/// A halted CPU with nothing to service idles: 4 T-states, PC, memory and
/// every register but R and Q unchanged.
pub proof fn law_halt_idles(s: CpuState, m: Map<u16, u8>, pin: u8)
    requires
        boundary(s) == BoundaryKind::HaltIdle,
        s.ei_delay == 0,
    ensures
        step_outcome(s, m, pin) == halt_idle(s, m),
        step_outcome(s, m, pin).state == (CpuState { r: inc_r(s.r), q: 0, ..s }),
        step_outcome(s, m, pin).memory == m,
        step_outcome(s, m, pin).result == Ok::<u32, crate::machine::Fault>(4),
{
}

/// The refresh counter counts in its low seven bits; bit 7 is kept.
pub proof fn law_refresh_keeps_bit7(r: u8)
    ensures
        inc_r(r) & 0x80 == r & 0x80,
        inc_r(r) & 0x7F == ((r & 0x7F) + 1) % 128,
{
    assert(((r & 0x80) | (r.wrapping_add(1) & 0x7F)) & 0x80 == r & 0x80) by (bit_vector);
    assert(((r & 0x80) | (r.wrapping_add(1) & 0x7F)) & 0x7F == ((r & 0x7F) + 1) % 128) by (bit_vector);
}

/// POP reads back what PUSH wrote: pushing pair `k` and popping into pair
/// `j` puts the pushed value in `j` and leaves SP where it started.
pub proof fn law_push_then_pop(s: CpuState, m: Map<u16, u8>, k: u8, j: u8)
    requires
        k < 3,
        j < 3,
    ensures
        ({
            let pushed = push_rr(s, m, k);
            let popped = pop_rr(pushed.state, pushed.memory, j);
            &&& reg16(popped.state, j) == reg16(s, k)
            &&& popped.state.sp == s.sp
            &&& popped.memory == pushed.memory
        }),
{
    let v = reg16(s, k);
    let pushed = push_rr(s, m, k);
    let sp = s.sp;
    assert(sp.wrapping_sub(2).wrapping_add(1) == sp.wrapping_sub(1));
    assert(sp.wrapping_sub(2) != sp.wrapping_sub(1));
    assert(pushed.memory[sp.wrapping_sub(2)] == low(v));
    assert(pushed.memory[sp.wrapping_sub(1)] == high(v));
    lemma_pair_high_low(v);
}

/// EX DE,HL undone by EX DE,HL.
pub proof fn law_ex_de_hl_involution(s: CpuState, m: Map<u16, u8>)
    ensures
        ({
            let once = ex_de_hl(s, m);
            let twice = ex_de_hl(once.state, once.memory);
            twice.state == (CpuState { q: 0, ..s }) && twice.memory == m
        }),
{
    lemma_pair_high_low(s.de());
    lemma_pair_high_low(s.hl());
    lemma_split_pair(s.d, s.e);
    lemma_split_pair(s.h, s.l);
}

/// EXX undone by EXX.
pub proof fn law_exx_involution(s: CpuState, m: Map<u16, u8>)
    ensures
        ({
            let once = exx(s, m);
            let twice = exx(once.state, once.memory);
            twice.state == (CpuState { q: 0, ..s }) && twice.memory == m
        }),
{
    lemma_pair_high_low(s.bc());
    lemma_pair_high_low(s.de());
    lemma_pair_high_low(s.hl());
    lemma_pair_high_low(s.bc_alt);
    lemma_pair_high_low(s.de_alt);
    lemma_pair_high_low(s.hl_alt);
    lemma_split_pair(s.b, s.c);
    lemma_split_pair(s.d, s.e);
    lemma_split_pair(s.h, s.l);
}

/// LDIR and LDDR go round again, rewinding PC by the instruction's two
/// bytes, exactly while the decremented BC is nonzero.
pub proof fn law_block_transfer_repeats(s: CpuState, m: Map<u16, u8>, increment: bool)
    ensures
        ({
            let out = ld_block(s, m, increment, true);
            &&& (s.bc().wrapping_sub(1) != 0) ==> out.state.pc == s.pc.wrapping_sub(2) && out.result
                == Ok::<u32, crate::machine::Fault>(21)
            &&& (s.bc().wrapping_sub(1) == 0) ==> out.state.pc == s.pc && out.result == Ok::<
                u32,
                crate::machine::Fault,
            >(16)
            &&& out.state.bc() == s.bc().wrapping_sub(1)
        }),
{
    lemma_pair_high_low(s.bc().wrapping_sub(1));
}

/// Distinct boundary kinds have distinct schema names.
pub proof fn law_kind_names_distinct(a: BoundaryKind, b: BoundaryKind)
    requires
        a != b,
    ensures
        kind_name(a) != kind_name(b),
{
    reveal_strlit("instruction");
    reveal_strlit("halt_idle");
    reveal_strlit("reset");
    reveal_strlit("non_maskable_interrupt");
    reveal_strlit("maskable_interrupt");
    if kind_name(a) == kind_name(b) {
        assert(kind_name(a).len() == kind_name(b).len());
        assert(kind_name(a)[0] == kind_name(b)[0]);
    }
}

/// Every unprefixed opcode is implemented.
#[verifier::rlimit(60)]
pub proof fn lemma_main_total(s: CpuState, m: Map<u16, u8>, pin: u8, opcode: u8)
    requires
        opcode != 0xCB,
        opcode != 0xED,
        opcode != 0xDD,
        opcode != 0xFD,
    ensures
        main_op(s, m, pin, opcode).result is Ok,
{
    reveal(main_op);
}

/// In the table after DD or FD, only DD, ED and FD fault; no step reaches
/// the table with them.
#[verifier::rlimit(60)]
pub proof fn lemma_index_faults(s: CpuState, m: Map<u16, u8>, pin: u8, prefix: u8, sub: u8)
    ensures
        index_table(s, m, pin, prefix, sub).result is Err <==> (sub == 0xDD || sub == 0xED || sub
            == 0xFD),
{
    reveal(index_table);
    if sub == 0xCB {
        let d = m[s.pc];
        let op = m[s.pc.wrapping_add(1)];
        let s2 = crate::machine::after_operand(crate::machine::after_operand(s));
        assert(index_cb_op(s2, m, prefix, d, op).result is Ok);
    }
}

/// Whether `b` is a DD or FD index prefix.
pub open spec fn is_index_prefix(b: u8) -> bool {
    b == 0xDD || b == 0xFD
}

/// The address `k` bytes after `pc`, wrapping at 64 KiB.
pub open spec fn offset(pc: u16, k: int) -> u16 {
    ((pc as int + k) % 0x10000) as u16
}

/// Every ED instruction completes.
#[verifier::rlimit(60)]
pub proof fn lemma_ed_total(s: CpuState, m: Map<u16, u8>, pin: u8, opcode: u8)
    ensures
        ed_op(s, m, pin, opcode).result is Ok,
{
    reveal(ed_op);
}

/// A prefix run faults exactly when the `fuel + 1` bytes from PC are all
/// prefixes.
pub proof fn lemma_prefix_run_faults(s: CpuState, m: Map<u16, u8>, pin: u8, prefix: u8, fuel: nat)
    ensures
        prefix_run(s, m, pin, prefix, fuel).result is Err <==> forall|k: int|
            0 <= k <= fuel ==> is_index_prefix(#[trigger] m[offset(s.pc, k)]),
    decreases fuel,
{
    let sub = m[s.pc];
    let s1 = after_fetch(s);
    assert(offset(s.pc, 0) == s.pc);
    if is_index_prefix(sub) {
        if fuel > 0 {
            lemma_prefix_run_faults(s1, m, pin, sub, (fuel - 1) as nat);
            assert forall|k: int| 0 <= k <= fuel - 1 implies offset(s1.pc, k) == offset(s.pc, k + 1) by {}
            if prefix_run(s1, m, pin, sub, (fuel - 1) as nat).result is Err {
                assert forall|k: int| 0 <= k <= fuel implies is_index_prefix(#[trigger] m[offset(s.pc, k)]) by {
                    if k > 0 {
                        assert(offset(s1.pc, k - 1) == offset(s.pc, k));
                        assert(is_index_prefix(m[offset(s1.pc, k - 1)]));
                    }
                }
            } else {
                let k = choose|k: int| 0 <= k <= fuel - 1 && !is_index_prefix(#[trigger] m[offset(s1.pc, k)]);
                assert(offset(s1.pc, k) == offset(s.pc, k + 1));
                assert(!is_index_prefix(m[offset(s.pc, k + 1)]));
            }
        }
    } else if sub == 0xED {
        lemma_ed_total(after_fetch(s1), m, pin, m[s1.pc]);
        assert(!is_index_prefix(m[offset(s.pc, 0)]));
    } else {
        lemma_index_faults(s1, m, pin, prefix, sub);
        assert(!is_index_prefix(m[offset(s.pc, 0)]));
    }
}

/// An instruction faults exactly when every byte of memory is a DD or FD
/// prefix: a prefix run then never ends. Every other byte sequence is an
/// instruction.
pub proof fn law_faults_only_on_endless_prefix_runs(s: CpuState, m: Map<u16, u8>, pin: u8)
    ensures
        decode(s, m, pin).result is Err <==> forall|a: u16| is_index_prefix(#[trigger] m[a]),
{
    let opcode = m[s.pc];
    let s1 = after_fetch(s);
    reveal(cb_op);
    reveal(ed_op);
    if is_index_prefix(opcode) {
        lemma_prefix_run_faults(s1, m, pin, opcode, MAX_STRAY_PREFIXES as nat);
        if decode(s, m, pin).result is Err {
            assert forall|a: u16| is_index_prefix(#[trigger] m[a]) by {
                let k = (a as int - s1.pc as int + 0x10000) % 0x10000;
                assert(offset(s1.pc, k) == a);
            }
        } else {
            let k = choose|k: int| 0 <= k <= MAX_STRAY_PREFIXES && !is_index_prefix(#[trigger] m[offset(s1.pc, k)]);
            assert(!is_index_prefix(m[offset(s1.pc, k)]));
        }
    } else {
        if opcode != 0xCB && opcode != 0xED {
            lemma_main_total(s1, m, pin, opcode);
        }
        assert(!is_index_prefix(m[s.pc]));
    }
}

/// EI holds off maskable interrupts for one instruction: right after an EI
/// executes, the next boundary is not a maskable interrupt. (An EI that
/// itself follows an EI spends the earlier delay and is not covered.)
pub proof fn law_ei_delays_interrupts(s: CpuState, m: Map<u16, u8>, pin: u8)
    requires
        boundary(s) == BoundaryKind::Instruction,
        m[s.pc] == 0xFB,
        s.ei_delay == 0,
    ensures
        boundary(step_outcome(s, m, pin).state) != BoundaryKind::MaskableInterrupt,
        step_outcome(s, m, pin).state.iff1,
{
    reveal(main_op);
}

/// Every unprefixed instruction takes between 4 and 23 T-states.
#[verifier::rlimit(80)]
proof fn lemma_main_time(s: CpuState, m: Map<u16, u8>, pin: u8, opcode: u8)
    ensures
        main_op(s, m, pin, opcode).result matches Ok(t) ==> 4 <= t <= 23,
{
    reveal(main_op);
}

/// Every ED instruction takes between 8 and 23 T-states.
#[verifier::rlimit(80)]
pub(crate) proof fn lemma_ed_time(s: CpuState, m: Map<u16, u8>, pin: u8, opcode: u8)
    ensures
        ed_op(s, m, pin, opcode).result matches Ok(t) ==> 8 <= t <= 23,
{
    reveal(ed_op);
}

/// Every instruction in the table after an index prefix takes between 8
/// and 23 T-states.
#[verifier::rlimit(80)]
pub(crate) proof fn lemma_index_time(s: CpuState, m: Map<u16, u8>, pin: u8, prefix: u8, sub: u8)
    ensures
        index_table(s, m, pin, prefix, sub).result matches Ok(t) ==> 8 <= t <= 23,
{
    reveal(index_table);
}

/// An NMI outranks a maskable interrupt: with no RESET asserted, a pending
/// NMI is serviced at 0x0066 in 11 T-states, IFF1 cleared and IFF2 keeping
/// the previous IFF1, whatever maskable request is pending.
pub proof fn law_nmi_before_maskable(s: CpuState, m: Map<u16, u8>, pin: u8)
    requires
        !s.reset_pending,
        s.non_maskable_interrupt_pending,
    ensures
        boundary(s) == BoundaryKind::NonMaskableInterrupt,
        step_outcome(s, m, pin) == accept_nmi(s, m),
        step_outcome(s, m, pin).state.pc == 0x66,
        !step_outcome(s, m, pin).state.iff1,
        step_outcome(s, m, pin).state.iff2 == s.iff2,
        step_outcome(s, m, pin).state.maskable_interrupt_vector == s.maskable_interrupt_vector,
        step_outcome(s, m, pin).result == Ok::<u32, Fault>(11),
{
}

/// A boundary fails in exactly two situations: an accepted interrupt (no
/// RESET or NMI pending, a vector requested, IFF1 set, no EI delay) in
/// mode 0 whose vector byte is not an RST opcode, which leaves the state
/// and memory as they were; and an instruction fetch from a memory that
/// holds nothing but DD and FD prefixes, whose run would never end. The
/// interrupt mode is one of the three the IM instructions set.
pub proof fn law_step_faults(s: CpuState, m: Map<u16, u8>, pin: u8)
    requires
        s.im <= 2,
    ensures
        step_outcome(s, m, pin).result is Err <==> ({
            ||| (!s.reset_pending && !s.non_maskable_interrupt_pending
                && s.maskable_interrupt_vector is Some && s.iff1 && s.ei_delay == 0 && s.im == 0
                && s.maskable_interrupt_vector->Some_0 & 0xC7 != 0xC7)
            ||| (boundary(s) == BoundaryKind::Instruction && forall|a: u16|
                is_index_prefix(#[trigger] m[a]))
        }),
        boundary(s) == BoundaryKind::MaskableInterrupt && step_outcome(s, m, pin).result is Err
            ==> step_outcome(s, m, pin).state == s && step_outcome(s, m, pin).memory == m,
{
    law_faults_only_on_endless_prefix_runs(s, m, pin);
}

/// One byte on from `pc`, `k - 1` bytes on is `k` bytes on from `pc`.
proof fn lemma_offset_step(pc: u16, k: int)
    requires
        k >= 1,
    ensures
        offset(pc.wrapping_add(1), k - 1) == offset(pc, k),
        offset(pc, 0) == pc,
{
}

/// A prefix run that stops before its fuel runs out gives the same
/// outcome with more fuel.
proof fn lemma_fuel_enough(s: CpuState, m: Map<u16, u8>, pin: u8, prefix: u8, fuel: nat, k: int)
    requires
        0 <= k <= fuel,
        !is_index_prefix(m[offset(s.pc, k)]),
    ensures
        prefix_run(s, m, pin, prefix, fuel) == prefix_run(s, m, pin, prefix, fuel + 1),
    decreases fuel,
{
    let sub = m[s.pc];
    let s1 = after_fetch(s);
    if is_index_prefix(sub) {
        if k == 0 {
            lemma_offset_step(s.pc, 1);
        } else {
            lemma_offset_step(s.pc, k);
            lemma_fuel_enough(s1, m, pin, sub, (fuel - 1) as nat, k - 1);
        }
    }
}

/// A stray prefix costs a 4 T-state M1 cycle that bumps R and nothing
/// else: DD or FD before another DD or FD behaves as the instruction
/// from the second prefix on, 4 T-states later and one byte longer
/// (unless memory holds nothing but prefixes).
pub proof fn law_stray_prefix(s: CpuState, m: Map<u16, u8>, pin: u8)
    requires
        is_index_prefix(m[s.pc]),
        is_index_prefix(m[after_fetch(s).pc]),
        !(forall|a: u16| is_index_prefix(#[trigger] m[a])),
    ensures
        decode(s, m, pin) == plus4(with_bytes(seq![m[s.pc]], decode(after_fetch(s), m, pin))),
{
    let s1 = after_fetch(s);
    let s2 = after_fetch(s1);
    let a = choose|a: u16| !is_index_prefix(#[trigger] m[a]);
    let k = (a as int - s2.pc as int + 0x10000) % 0x10000;
    assert(offset(s2.pc, k) == a);
    assert(a != s1.pc);
    assert(k <= MAX_STRAY_PREFIXES - 1);
    lemma_fuel_enough(s2, m, pin, m[s1.pc], (MAX_STRAY_PREFIXES - 1) as nat, k);
    let rest = prefix_run(s2, m, pin, m[s1.pc], MAX_STRAY_PREFIXES as nat);
    assert(seq![m[s.pc]] + (seq![m[s1.pc]] + rest.bytes) =~= seq![m[s.pc]] + (seq![m[s1.pc]]
        + rest.bytes));
}

/// An ED after a DD or FD prefix runs the ED instruction unchanged: the
/// prefix only adds its 4 T-state M1 cycle and its byte.
pub proof fn law_prefix_before_ed(s: CpuState, m: Map<u16, u8>, pin: u8)
    requires
        is_index_prefix(m[s.pc]),
        m[after_fetch(s).pc] == 0xED,
    ensures
        decode(s, m, pin) == plus4(with_bytes(seq![m[s.pc]], decode(after_fetch(s), m, pin))),
{
    let s1 = after_fetch(s);
    let s2 = after_fetch(s1);
    let out = ed_op(after_fetch(s2), m, pin, m[s2.pc]);
    assert(seq![m[s.pc]] + (seq![0xEDu8, m[s2.pc]] + out.bytes) =~= seq![m[s.pc]] + (seq![0xEDu8, m[s2.pc]]
        + out.bytes));
}

/// The opcodes that a DD or FD prefix leaves as they are: they name
/// neither HL, H, L nor (HL).
pub open spec fn ignores_prefix(sub: u8) -> bool {
    ||| sub == 0x00 || sub == 0x01 || sub == 0x11 || sub == 0x31 || sub == 0x08 || sub == 0x10
        || sub == 0x76
    ||| crate::index_dispatch::plain_ld(sub)
    ||| sub == 0x04 || sub == 0x0C || sub == 0x14 || sub == 0x1C || sub == 0x3C
    ||| sub == 0x05 || sub == 0x0D || sub == 0x15 || sub == 0x1D || sub == 0x3D
    ||| sub == 0x03 || sub == 0x13 || sub == 0x33 || sub == 0x0B || sub == 0x1B || sub == 0x3B
    ||| sub == 0x06 || sub == 0x0E || sub == 0x16 || sub == 0x1E || sub == 0x3E
    ||| sub == 0x0A || sub == 0x1A || sub == 0x02 || sub == 0x12 || sub == 0x3A || sub == 0x32
    ||| sub == 0xDB || sub == 0xD3 || sub == 0x27 || sub == 0x2F
    ||| sub == 0x18 || sub == 0x20 || sub == 0x28 || sub == 0x30 || sub == 0x38
    ||| sub == 0x07 || sub == 0x0F || sub == 0x17 || sub == 0x1F
    ||| (0x80 <= sub && sub <= 0xBF && sub & 0x07 != 4 && sub & 0x07 != 5 && sub & 0x07 != 6)
    ||| sub == 0xC0 || sub == 0xC8 || sub == 0xD0 || sub == 0xD8 || sub == 0xE0 || sub == 0xE8
        || sub == 0xF0 || sub == 0xF8
    ||| sub == 0xC2 || sub == 0xCA || sub == 0xD2 || sub == 0xDA || sub == 0xE2 || sub == 0xEA
        || sub == 0xF2 || sub == 0xFA || sub == 0xC3
    ||| sub == 0xC4 || sub == 0xCC || sub == 0xD4 || sub == 0xDC || sub == 0xE4 || sub == 0xEC
        || sub == 0xF4 || sub == 0xFC || sub == 0xCD
    ||| sub == 0xC9
    ||| sub == 0xC7 || sub == 0xCF || sub == 0xD7 || sub == 0xDF || sub == 0xE7 || sub == 0xEF
        || sub == 0xF7 || sub == 0xFF
    ||| sub == 0xC6 || sub == 0xCE || sub == 0xD6 || sub == 0xDE || sub == 0xE6 || sub == 0xEE
        || sub == 0xF6 || sub == 0xFE
    ||| sub == 0xEB || sub == 0xD1 || sub == 0xC1 || sub == 0xD5 || sub == 0xC5 || sub == 0xD9
    ||| sub == 0xF1 || sub == 0xF5 || sub == 0xF3 || sub == 0xFB
}

/// A DD or FD prefix before an instruction that names no HL costs only its
/// own 4 T-state M1 cycle: the instruction runs as it would unprefixed,
/// IX and IY untouched.
#[verifier::rlimit(100)]
pub proof fn law_prefix_ignored(s: CpuState, m: Map<u16, u8>, pin: u8, prefix: u8, sub: u8)
    requires
        ignores_prefix(sub),
    ensures
        index_op(s, m, pin, prefix, sub) == plus4(main_op(s, m, pin, sub)),
{
    reveal(index_table);
    reveal(main_op);
}

/// `k` LDIR transfers from state `s` and memory `m`, each one started
/// again at the PC of the first, as the re-fetch of a repeating LDIR
/// leaves it.
pub open spec fn ldir_calls(s: CpuState, m: Map<u16, u8>, k: nat) -> crate::machine::Outcome
    decreases k,
{
    if k <= 1 {
        ld_block(s, m, true, true)
    } else {
        let prev = ldir_calls(s, m, (k - 1) as nat);
        ld_block(CpuState { pc: s.pc, ..prev.state }, prev.memory, true, true)
    }
}

/// Memory `m` with the `k` bytes from `src` copied to `dst`.
pub open spec fn copied(m: Map<u16, u8>, src: u16, dst: u16, k: int) -> Map<u16, u8> {
    Map::new(
        |a: u16| m.dom().contains(a),
        |a: u16|
            if dst <= a < dst + k {
                m[(src + (a - dst)) as u16]
            } else {
                m[a]
            },
    )
}

proof fn lemma_ldir_prefix(s: CpuState, m: Map<u16, u8>, k: nat)
    requires
        m.dom() =~= Set::full(),
        1 <= k <= s.bc(),
        s.hl() + s.bc() < 0x10000,
        s.de() + s.bc() < 0x10000,
        s.hl() + s.bc() <= s.de() || s.de() + s.bc() <= s.hl(),
    ensures
        ldir_calls(s, m, k).state.hl() == s.hl() + k,
        ldir_calls(s, m, k).state.de() == s.de() + k,
        ldir_calls(s, m, k).state.bc() == s.bc() - k,
        ldir_calls(s, m, k).memory == copied(m, s.hl(), s.de(), k as int),
        ldir_calls(s, m, k).result == Ok::<u32, Fault>(if k < s.bc() { 21 } else { 16 }),
        ldir_calls(s, m, k).state.pc == if k < s.bc() { s.pc.wrapping_sub(2) } else { s.pc },
        k == s.bc() ==> flag_value(ldir_calls(s, m, k).state.f, FLAG_PV) == 0,
    decreases k,
{
    let t = if k == 1 {
        s
    } else {
        lemma_ldir_prefix(s, m, (k - 1) as nat);
        CpuState { pc: s.pc, ..ldir_calls(s, m, (k - 1) as nat).state }
    };
    let mm = if k == 1 { m } else { ldir_calls(s, m, (k - 1) as nat).memory };
    assert(k == 1 ==> mm =~= copied(m, s.hl(), s.de(), 0));
    let hl = t.hl();
    let de = t.de();
    let bc = t.bc();
    assert(hl == s.hl() + k - 1);
    assert(de == s.de() + k - 1);
    assert(bc == s.bc() - (k - 1));
    lemma_pair_high_low((hl + 1) as u16);
    lemma_pair_high_low((de + 1) as u16);
    lemma_pair_high_low((bc - 1) as u16);
    assert(hl.wrapping_add(1) == hl + 1);
    assert(de.wrapping_add(1) == de + 1);
    assert(bc.wrapping_sub(1) == bc - 1);
    assert(mm[hl] == m[hl]);
    let out = ld_block(t, mm, true, true);
    assert(out.memory =~= copied(m, s.hl(), s.de(), k as int));
    assert(out.state.hl() == s.hl() + k);
    assert(out.state.de() == s.de() + k);
    assert(out.state.bc() == s.bc() - k);
    assert(ldir_calls(s, m, k) == out);
    if k == s.bc() {
        let f = with_flag(with_flag(t.f, FLAG_N, false), FLAG_H, false);
        let sum = t.a.wrapping_add(mm[hl]);
        lemma_pv_stays_clear(f, (sum & 0x08) >> 3u8 != 0, (sum & 0x02) >> 1u8 != 0);
    }
}

/// `k` LDDR transfers from state `s` and memory `m`, each one started
/// again at the PC of the first.
pub open spec fn lddr_calls(s: CpuState, m: Map<u16, u8>, k: nat) -> crate::machine::Outcome
    decreases k,
{
    if k <= 1 {
        ld_block(s, m, false, true)
    } else {
        let prev = lddr_calls(s, m, (k - 1) as nat);
        ld_block(CpuState { pc: s.pc, ..prev.state }, prev.memory, false, true)
    }
}

/// Memory `m` with the `k` bytes ending at `src` copied to the `k` bytes
/// ending at `dst`.
pub open spec fn copied_down(m: Map<u16, u8>, src: u16, dst: u16, k: int) -> Map<u16, u8> {
    Map::new(
        |a: u16| m.dom().contains(a),
        |a: u16|
            if dst - k < a <= dst {
                m[(src - (dst - a)) as u16]
            } else {
                m[a]
            },
    )
}

proof fn lemma_lddr_prefix(s: CpuState, m: Map<u16, u8>, k: nat)
    requires
        m.dom() =~= Set::full(),
        1 <= k <= s.bc(),
        s.hl() >= s.bc(),
        s.de() >= s.bc(),
        s.hl() + s.bc() <= s.de() || s.de() + s.bc() <= s.hl(),
    ensures
        lddr_calls(s, m, k).state.hl() == s.hl() - k,
        lddr_calls(s, m, k).state.de() == s.de() - k,
        lddr_calls(s, m, k).state.bc() == s.bc() - k,
        lddr_calls(s, m, k).memory == copied_down(m, s.hl(), s.de(), k as int),
        lddr_calls(s, m, k).result == Ok::<u32, Fault>(if k < s.bc() { 21 } else { 16 }),
        lddr_calls(s, m, k).state.pc == if k < s.bc() { s.pc.wrapping_sub(2) } else { s.pc },
    decreases k,
{
    let t = if k == 1 {
        s
    } else {
        lemma_lddr_prefix(s, m, (k - 1) as nat);
        CpuState { pc: s.pc, ..lddr_calls(s, m, (k - 1) as nat).state }
    };
    let mm = if k == 1 { m } else { lddr_calls(s, m, (k - 1) as nat).memory };
    assert(k == 1 ==> mm =~= copied_down(m, s.hl(), s.de(), 0));
    let hl = t.hl();
    let de = t.de();
    let bc = t.bc();
    assert(hl == s.hl() - (k - 1));
    assert(de == s.de() - (k - 1));
    assert(bc == s.bc() - (k - 1));
    lemma_pair_high_low((hl - 1) as u16);
    lemma_pair_high_low((de - 1) as u16);
    lemma_pair_high_low((bc - 1) as u16);
    assert(hl.wrapping_sub(1) == hl - 1);
    assert(de.wrapping_sub(1) == de - 1);
    assert(bc.wrapping_sub(1) == bc - 1);
    assert(mm[hl] == m[hl]);
    let out = ld_block(t, mm, false, true);
    assert(out.memory =~= copied_down(m, s.hl(), s.de(), k as int));
    assert(out.state.hl() == s.hl() - k);
    assert(out.state.de() == s.de() - k);
    assert(out.state.bc() == s.bc() - k);
    assert(lddr_calls(s, m, k) == out);
}

/// LDDR copies the whole block downwards: started with BC = n at least 1
/// over a source and a destination that neither overlap nor run below
/// address 0, its n transfers take 21 T-states each but the last, which
/// takes 16; afterwards the n bytes ending at HL stand in the n bytes
/// ending at DE, the rest of memory is as it was, HL and DE are n lower,
/// BC is 0 and PC is past the instruction.
pub proof fn law_lddr_copies_block(s: CpuState, m: Map<u16, u8>)
    requires
        m.dom() =~= Set::full(),
        1 <= s.bc(),
        s.hl() >= s.bc(),
        s.de() >= s.bc(),
        s.hl() + s.bc() <= s.de() || s.de() + s.bc() <= s.hl(),
    ensures
        forall|k: nat| 1 <= k < s.bc() ==> #[trigger] lddr_calls(s, m, k).result == Ok::<u32, Fault>(21),
        ({
            let out = lddr_calls(s, m, s.bc() as nat);
            &&& out.result == Ok::<u32, Fault>(16)
            &&& out.memory == copied_down(m, s.hl(), s.de(), s.bc() as int)
            &&& out.state.hl() == s.hl() - s.bc()
            &&& out.state.de() == s.de() - s.bc()
            &&& out.state.bc() == 0
            &&& out.state.pc == s.pc
        }),
{
    assert forall|k: nat| 1 <= k < s.bc() implies #[trigger] lddr_calls(s, m, k).result == Ok::<u32, Fault>(21) by {
        lemma_lddr_prefix(s, m, k);
    }
    lemma_lddr_prefix(s, m, s.bc() as nat);
}

/// Setting X and Y after clearing P/V leaves P/V clear.
proof fn lemma_pv_stays_clear(f: u8, x: bool, y: bool)
    ensures
        flag_value(with_flag(with_flag(with_flag(f, FLAG_PV, false), FLAG_X, x), FLAG_Y, y), FLAG_PV)
            == 0,
{
    let g = f & !0x04u8;
    assert(g & 0x04 == 0) by (bit_vector)
        requires
            g == f & !0x04u8,
    ;
    assert((g | 0x08) & 0x04 == 0 && (g & !0x08u8) & 0x04 == 0) by (bit_vector)
        requires
            g & 0x04 == 0,
    ;
    let h = with_flag(g, FLAG_X, x);
    assert(h & 0x04 == 0);
    assert((h | 0x20) & 0x04 == 0 && (h & !0x20u8) & 0x04 == 0) by (bit_vector)
        requires
            h & 0x04 == 0,
    ;
}

/// LDIR copies the whole block: started with BC = n at least 1 over a
/// source and a destination that neither overlap nor reach the top of
/// memory, its n transfers
/// take 21 T-states each but the last, which takes 16; afterwards the n
/// bytes from HL stand at DE, the rest of memory is as it was, HL and DE
/// are n on, BC is 0, P/V is clear and PC is past the instruction.
pub proof fn law_ldir_copies_block(s: CpuState, m: Map<u16, u8>)
    requires
        m.dom() =~= Set::full(),
        1 <= s.bc(),
        s.hl() + s.bc() < 0x10000,
        s.de() + s.bc() < 0x10000,
        s.hl() + s.bc() <= s.de() || s.de() + s.bc() <= s.hl(),
    ensures
        forall|k: nat| 1 <= k < s.bc() ==> #[trigger] ldir_calls(s, m, k).result == Ok::<u32, Fault>(21),
        ({
            let out = ldir_calls(s, m, s.bc() as nat);
            &&& out.result == Ok::<u32, Fault>(16)
            &&& out.memory == copied(m, s.hl(), s.de(), s.bc() as int)
            &&& out.state.hl() == s.hl() + s.bc()
            &&& out.state.de() == s.de() + s.bc()
            &&& out.state.bc() == 0
            &&& out.state.pc == s.pc
            &&& flag_value(out.state.f, FLAG_PV) == 0
        }),
{
    assert forall|k: nat| 1 <= k < s.bc() implies #[trigger] ldir_calls(s, m, k).result == Ok::<u32, Fault>(21) by {
        lemma_ldir_prefix(s, m, k);
    }
    lemma_ldir_prefix(s, m, s.bc() as nat);
}

/// The most T-states one boundary can take: the longest ED instruction
/// behind the longest run of stray prefixes.
pub const MAX_BOUNDARY_T_STATES: u32 = 262167;

/// Every boundary that completes takes at least 3 T-states, so time always
/// advances, and at most `MAX_BOUNDARY_T_STATES`.
pub proof fn law_boundary_time(s: CpuState, m: Map<u16, u8>, pin: u8)
    ensures
        step_outcome(s, m, pin).result matches Ok(t) ==> 3 <= t <= MAX_BOUNDARY_T_STATES,
{
    let opcode = m[s.pc];
    let s1 = after_fetch(s);
    let sub = m[s1.pc];
    reveal(cb_op);
    lemma_main_time(s1, m, pin, opcode);
    lemma_ed_time(after_fetch(s1), m, pin, sub);
    lemma_prefix_run_time(s1, m, pin, opcode, MAX_STRAY_PREFIXES as nat);
}

} // verus!
