//! DD/FD index-prefix dispatcher.
//!
//! A DD or FD prefix is its own M1 fetch on real hardware: it costs 4
//! T-states and bumps R before the opcode after it is fetched. Base-set
//! opcodes that the prefix does not modify therefore run their ordinary
//! handler and add that 4 here; the handlers that take a `prefix` argument
//! already include the prefix cost in their documented totals.
//!
//! A run of prefixes is one instruction: each prefix followed by another
//! DD or FD is a stray 4 T-state M1 cycle, the last one decides IX or IY,
//! and an ED after a prefix runs the ED instruction unchanged.

use vstd::prelude::*;
use crate::arith::{
    alu_n, alu_r, cpl, daa_op, dec_r8, dec_rr, inc_r8, inc_rr, scf_ccf,
};
use crate::control::{
    call, djnz, halt, interrupt_enable, jp, jr, no_op, ret, ret_cc, rst,
};
use crate::index::{
    add_index_rr, alu_index_mem, alu_ireg, ex_sp_index, inc_dec_index, inc_dec_index_mem,
    inc_dec_ireg, index_bit, index_res_set, index_rot, jp_index, ld_index_inn, ld_index_mem_n,
    ld_index_mem_r, ld_index_nn, ld_ireg_ireg, ld_ireg_n, ld_nn_index, ld_r_index_mem,
    ld_sp_index, pop_index, push_index,
};
use crate::io::{in_a_n, out_n_a};
use crate::loads::{
    ex_af_af, ex_de_hl, exx, ld_a_inn, ld_a_irr, ld_inn_a, ld_irr_a, ld_r_n, ld_r_r, ld_rr_nn,
    pop_af, pop_rr, push_af, push_rr,
};
use crate::dispatch::ed_op;
use crate::laws::{lemma_ed_time, lemma_index_time};
use crate::machine::{
    Bus, Fault, Outcome, Z80, after_fetch, after_operand, last_port_input, plus4, plus_t,
    with_bytes,
};
use crate::rotate::rot_a;
use crate::state::CpuState;

verus! {

/// The opcodes after DD/FD that copy between two plain registers and run as
/// LD r,r' with the prefix ignored.
pub open spec fn plain_ld(sub: u8) -> bool {
    sub == 0x40 || sub == 0x41 || sub == 0x42 || sub == 0x43 || sub == 0x47 || sub == 0x48 || sub
        == 0x49 || sub == 0x4A || sub == 0x4B || sub == 0x4F || sub == 0x50 || sub == 0x51 || sub
        == 0x52 || sub == 0x53 || sub == 0x57 || sub == 0x58 || sub == 0x59 || sub == 0x5A || sub
        == 0x5B || sub == 0x5F || sub == 0x78 || sub == 0x79 || sub == 0x7A || sub == 0x7B || sub
        == 0x7F
}

/// The opcodes after DD/FD that copy 8-bit registers with H or L replaced
/// by the halves of the index register.
pub open spec fn index_byte_ld(sub: u8) -> bool {
    sub == 0x7C || sub == 0x7D || sub == 0x44 || sub == 0x45 || sub == 0x4C || sub == 0x4D || sub
        == 0x54 || sub == 0x55 || sub == 0x5C || sub == 0x5D || sub == 0x64 || sub == 0x65 || sub
        == 0x6C || sub == 0x6D || sub == 0x60 || sub == 0x61 || sub == 0x62 || sub == 0x63 || sub
        == 0x67 || sub == 0x68 || sub == 0x69 || sub == 0x6A || sub == 0x6B || sub == 0x6F
}

/// The DDCB/FDCB group on (IX+d): `op` is the final opcode byte.
pub open spec fn index_cb_op(s: CpuState, m: Map<u16, u8>, prefix: u8, d: u8, op: u8) -> Outcome {
    if op <= 0x3F {
        index_rot(s, m, prefix, d, op)
    } else if 0x40 <= op && op <= 0x7F {
        index_bit(s, m, prefix, d, op)
    } else if 0x80 <= op && op <= 0xBF {
        index_res_set(s, m, prefix, d, op, false)
    } else {
        index_res_set(s, m, prefix, d, op, true)
    }
}

/// The table of instructions after a DD (`prefix` 0xDD) or FD prefix,
/// whose byte `sub` has been fetched; `pin` is the byte a port read
/// answers. DD, ED and FD are taken by `index_op` before this table; for
/// them it keeps a completeness guard that no step reaches.
#[verifier::opaque]
pub open spec fn index_table(s: CpuState, m: Map<u16, u8>, pin: u8, prefix: u8, sub: u8) -> Outcome {
    if sub == 0xCB {
        let d = m[s.pc];
        let op = m[s.pc.wrapping_add(1)];
        with_bytes(seq![d, op], index_cb_op(after_operand(after_operand(s)), m, prefix, d, op))
    } else if sub == 0x76 {
        plus4(halt(s, m))
    } else if sub == 0x00 {
        plus4(no_op(s, m, 4))
    } else if sub == 0x01 || sub == 0x11 || sub == 0x31 {
        plus4(ld_rr_nn(s, m, sub))
    } else if sub == 0x08 {
        plus4(ex_af_af(s, m))
    } else if sub == 0x10 {
        plus4(djnz(s, m))
    } else if plain_ld(sub) {
        plus4(ld_r_r(s, m, sub))
    } else if index_byte_ld(sub) {
        plus4(ld_ireg_ireg(s, m, prefix, sub))
    } else if sub == 0x26 || sub == 0x2E {
        plus4(ld_ireg_n(s, m, prefix, sub))
    } else if sub == 0x24 || sub == 0x25 || sub == 0x2C || sub == 0x2D {
        plus4(inc_dec_ireg(s, m, prefix, sub))
    } else if sub == 0x04 || sub == 0x0C || sub == 0x14 || sub == 0x1C || sub == 0x3C {
        plus4(inc_r8(s, m, sub))
    } else if sub == 0x05 || sub == 0x0D || sub == 0x15 || sub == 0x1D || sub == 0x3D {
        plus4(dec_r8(s, m, sub))
    } else if sub == 0x03 || sub == 0x13 || sub == 0x33 {
        plus4(inc_rr(s, m, sub))
    } else if sub == 0x0B || sub == 0x1B || sub == 0x3B {
        plus4(dec_rr(s, m, sub))
    } else if sub == 0x06 || sub == 0x0E || sub == 0x16 || sub == 0x1E || sub == 0x3E {
        plus4(ld_r_n(s, m, sub))
    } else if sub == 0x0A || sub == 0x1A {
        plus4(ld_a_irr(s, m, if sub == 0x0A {
            s.bc()
        } else {
            s.de()
        }))
    } else if sub == 0x02 || sub == 0x12 {
        plus4(ld_irr_a(s, m, if sub == 0x02 {
            s.bc()
        } else {
            s.de()
        }))
    } else if sub == 0x3A {
        plus4(ld_a_inn(s, m))
    } else if sub == 0x32 {
        plus4(ld_inn_a(s, m))
    } else if sub == 0xDB {
        plus4(in_a_n(s, m, pin))
    } else if sub == 0xD3 {
        plus4(out_n_a(s, m))
    } else if sub == 0x18 || sub == 0x20 || sub == 0x28 || sub == 0x30 || sub == 0x38 {
        plus4(jr(s, m, sub))
    } else if sub == 0x27 {
        plus4(daa_op(s, m))
    } else if sub == 0x2F {
        plus4(cpl(s, m))
    } else if sub == 0x37 || sub == 0x3F {
        plus4(scf_ccf(s, m, sub, true))
    } else if sub == 0x07 || sub == 0x0F || sub == 0x17 || sub == 0x1F {
        plus4(rot_a(s, m, sub))
    } else if 0x80 <= sub && sub <= 0xBF && sub & 0x07 != 4 && sub & 0x07 != 5 && sub & 0x07 != 6 {
        plus4(alu_r(s, m, sub))
    } else if 0x80 <= sub && sub <= 0xBF && (sub & 0x07 == 4 || sub & 0x07 == 5) {
        plus4(alu_ireg(s, m, prefix, sub))
    } else if sub == 0x09 || sub == 0x19 || sub == 0x29 || sub == 0x39 {
        add_index_rr(s, m, prefix, sub)
    } else if sub == 0x21 {
        ld_index_nn(s, m, prefix)
    } else if sub == 0x22 {
        ld_nn_index(s, m, prefix)
    } else if sub == 0x23 {
        inc_dec_index(s, m, prefix, true)
    } else if sub == 0x2A {
        ld_index_inn(s, m, prefix)
    } else if sub == 0x2B {
        inc_dec_index(s, m, prefix, false)
    } else if sub == 0x34 {
        inc_dec_index_mem(s, m, prefix, true)
    } else if sub == 0x35 {
        inc_dec_index_mem(s, m, prefix, false)
    } else if sub == 0x36 {
        ld_index_mem_n(s, m, prefix)
    } else if sub == 0x46 || sub == 0x4E || sub == 0x56 || sub == 0x5E || sub == 0x66 || sub == 0x6E
        || sub == 0x7E {
        ld_r_index_mem(s, m, prefix, sub)
    } else if sub == 0x70 || sub == 0x71 || sub == 0x72 || sub == 0x73 || sub == 0x74 || sub == 0x75
        || sub == 0x77 {
        ld_index_mem_r(s, m, prefix, sub)
    } else if 0x80 <= sub && sub <= 0xBF && sub & 0x07 == 6 {
        alu_index_mem(s, m, prefix, sub)
    } else if sub == 0xC0 || sub == 0xC8 || sub == 0xD0 || sub == 0xD8 || sub == 0xE0 || sub == 0xE8
        || sub == 0xF0 || sub == 0xF8 {
        plus4(ret_cc(s, m, sub))
    } else if sub == 0xC2 || sub == 0xCA || sub == 0xD2 || sub == 0xDA || sub == 0xE2 || sub == 0xEA
        || sub == 0xF2 || sub == 0xFA || sub == 0xC3 {
        plus4(jp(s, m, sub))
    } else if sub == 0xC4 || sub == 0xCC || sub == 0xD4 || sub == 0xDC || sub == 0xE4 || sub == 0xEC
        || sub == 0xF4 || sub == 0xFC || sub == 0xCD {
        plus4(call(s, m, sub))
    } else if sub == 0xC9 {
        plus4(ret(s, m))
    } else if sub == 0xC7 || sub == 0xCF || sub == 0xD7 || sub == 0xDF || sub == 0xE7 || sub == 0xEF
        || sub == 0xF7 || sub == 0xFF {
        plus4(rst(s, m, sub))
    } else if sub == 0xC6 || sub == 0xCE || sub == 0xD6 || sub == 0xDE || sub == 0xE6 || sub == 0xEE
        || sub == 0xF6 || sub == 0xFE {
        plus4(alu_n(s, m, sub))
    } else if sub == 0xEB {
        plus4(ex_de_hl(s, m))
    } else if sub == 0xD1 || sub == 0xC1 {
        plus4(pop_rr(s, m, (sub >> 4u8) & 3))
    } else if sub == 0xD5 || sub == 0xC5 {
        plus4(push_rr(s, m, (sub >> 4u8) & 3))
    } else if sub == 0xD9 {
        plus4(exx(s, m))
    } else if sub == 0xE1 {
        pop_index(s, m, prefix)
    } else if sub == 0xE3 {
        ex_sp_index(s, m, prefix)
    } else if sub == 0xE5 {
        push_index(s, m, prefix)
    } else if sub == 0xE9 {
        jp_index(s, m, prefix)
    } else if sub == 0xF1 {
        plus4(pop_af(s, m))
    } else if sub == 0xF5 {
        plus4(push_af(s, m))
    } else if sub == 0xF9 {
        ld_sp_index(s, m, prefix)
    } else if sub == 0xF3 {
        plus4(interrupt_enable(s, m, false))
    } else if sub == 0xFB {
        plus4(interrupt_enable(s, m, true))
    } else {
        let prefix_addr = s.pc.wrapping_sub(2);
        Outcome {
            state: CpuState { pc: prefix_addr.wrapping_add(1), ..s },
            memory: m,
            result: Err(Fault::UnhandledIndexOpcode { prefix, opcode: sub, pc: prefix_addr }),
            bytes: seq![],
            io: seq![],
        }
    }
}

/// The most prefixes after the first that one instruction can run through:
/// with one more, the run would have covered all of memory.
pub const MAX_STRAY_PREFIXES: u32 = 0xFFFF;

/// The instruction after a DD or FD `prefix` whose byte `sub` has been
/// fetched. Another DD or FD makes `prefix` a stray 4 T-state M1 cycle and
/// starts the run over from `sub`; an ED runs the ED instruction unchanged,
/// 4 T-states later; anything else is the instruction from the table.
pub open spec fn index_op(s: CpuState, m: Map<u16, u8>, pin: u8, prefix: u8, sub: u8) -> Outcome {
    if sub == 0xDD || sub == 0xFD {
        plus4(prefix_run(s, m, pin, sub, (MAX_STRAY_PREFIXES - 1) as nat))
    } else if sub == 0xED {
        let sub2 = m[s.pc];
        plus4(with_bytes(seq![sub2], ed_op(after_fetch(s), m, pin, sub2)))
    } else {
        index_table(s, m, pin, prefix, sub)
    }
}

/// From the first prefix on, a prefix run is the table's instruction or
/// the run after its second byte.
pub proof fn lemma_run_is_index_op(s: CpuState, m: Map<u16, u8>, pin: u8, prefix: u8)
    ensures
        prefix_run(s, m, pin, prefix, MAX_STRAY_PREFIXES as nat) == with_bytes(
            seq![m[s.pc]],
            index_op(after_fetch(s), m, pin, prefix, m[s.pc]),
        ),
{
    let sub = m[s.pc];
    let s1 = after_fetch(s);
    if sub == 0xDD || sub == 0xFD {
        let rest = prefix_run(s1, m, pin, sub, (MAX_STRAY_PREFIXES - 1) as nat);
        lemma_prefix_run_time(s1, m, pin, sub, (MAX_STRAY_PREFIXES - 1) as nat);
        assert(seq![sub] + rest.bytes =~= seq![sub] + rest.bytes);
    } else if sub == 0xED {
        let sub2 = m[s1.pc];
        let out = ed_op(after_fetch(s1), m, pin, sub2);
        assert(seq![sub, sub2] + out.bytes =~= seq![sub] + (seq![sub2] + out.bytes));
    }
}

/// The instruction after a DD or FD `prefix`, the byte at PC being the next
/// one. Another DD or FD makes `prefix` a stray one: a 4 T-state M1 cycle
/// that bumps R and nothing else, the new one deciding IX or IY. An ED
/// after a prefix runs the ED instruction unchanged, 4 T-states later. No
/// interrupt is accepted inside the run, which is one boundary. `fuel` is
/// how many more stray prefixes the run may hold; a run that exhausts it
/// holds every byte of memory and never ends, and faults instead.
pub open spec fn prefix_run(s: CpuState, m: Map<u16, u8>, pin: u8, prefix: u8, fuel: nat) -> Outcome
    decreases fuel,
{
    let sub = m[s.pc];
    let s1 = after_fetch(s);
    if sub == 0xDD || sub == 0xFD {
        if fuel == 0 {
            Outcome {
                state: s1,
                memory: m,
                result: Err(Fault::UnhandledIndexOpcode { prefix, opcode: sub, pc: s.pc.wrapping_sub(1) }),
                bytes: seq![sub],
                io: seq![],
            }
        } else {
            plus4(with_bytes(seq![sub], prefix_run(s1, m, pin, sub, (fuel - 1) as nat)))
        }
    } else if sub == 0xED {
        let sub2 = m[s1.pc];
        plus4(with_bytes(seq![sub, sub2], ed_op(after_fetch(s1), m, pin, sub2)))
    } else {
        with_bytes(seq![sub], index_table(s1, m, pin, prefix, sub))
    }
}

/// A prefix run takes at least 8 T-states and at most 27 plus 4 for each
/// stray prefix it may still hold.
pub proof fn lemma_prefix_run_time(s: CpuState, m: Map<u16, u8>, pin: u8, prefix: u8, fuel: nat)
    requires
        fuel <= MAX_STRAY_PREFIXES,
    ensures
        prefix_run(s, m, pin, prefix, fuel).result matches Ok(t) ==> 8 <= t <= 27 + 4 * fuel,
    decreases fuel,
{
    let sub = m[s.pc];
    let s1 = after_fetch(s);
    if sub == 0xDD || sub == 0xFD {
        if fuel > 0 {
            lemma_prefix_run_time(s1, m, pin, sub, (fuel - 1) as nat);
        }
    } else if sub == 0xED {
        lemma_ed_time(after_fetch(s1), m, pin, m[s1.pc]);
    } else {
        lemma_index_time(s1, m, pin, prefix, sub);
    }
}

/// Prefixing bytes and adding T-states compose.
proof fn lemma_run_compose(done: Seq<u8>, k: int, sub: u8, rest: Outcome)
    requires
        0 <= k,
        rest.result matches Ok(t) ==> t + k + 4 <= u32::MAX,
    ensures
        plus_t(with_bytes(done, plus4(with_bytes(seq![sub], rest))), k) == plus_t(
            with_bytes(done.push(sub), rest),
            k + 4,
        ),
{
    assert(done + (seq![sub] + rest.bytes) =~= done.push(sub) + rest.bytes);
    match rest.result {
        Ok(t) => {},
        Err(e) => {},
    }
}

impl<B: Bus> Z80<B> {
    /// Run the instruction after a DD or FD prefix already fetched,
    /// through any further prefixes.
    pub(crate) fn execute_prefix_run(&mut self, first: u8, fuel0: u32) -> (r: Result<u32, Fault>)
        requires
            fuel0 <= MAX_STRAY_PREFIXES,
        ensures
            final(self).ran_result(
                *old(self),
                prefix_run(
                    old(self)@,
                    old(self).mem(),
                    last_port_input(final(self).log()),
                    first,
                    fuel0 as nat,
                ),
                r,
            ),
            r matches Ok(t) ==> t <= 27 + 4 * fuel0,
    {
        let ghost s0 = self@;
        let ghost m0 = self.mem();
        let ghost f0 = self.fetched@;
        let mut prefix = first;
        let mut fuel: u32 = fuel0;
        let ghost mut sc = self@;
        let sub0 = self.fetch_byte();
        let mut sub = sub0;
        proof {
            assert forall|pin: u8|
                #[trigger] prefix_run(s0, m0, pin, first, fuel0 as nat) == plus_t(
                    with_bytes(Seq::<u8>::empty(), prefix_run(sc, m0, pin, prefix, fuel as nat)),
                    0,
                ) by {
                let o = prefix_run(sc, m0, pin, prefix, fuel as nat);
                assert(Seq::<u8>::empty() + o.bytes =~= o.bytes);
                match o.result {
                    Ok(t) => {},
                    Err(e) => {},
                }
            }
        }
        let ghost mut done: Seq<u8> = Seq::empty();
        while (sub == 0xDD || sub == 0xFD) && fuel > 0
            invariant
                fuel <= fuel0,
                fuel0 <= MAX_STRAY_PREFIXES,
                self.mem() == m0,
                self.log() == old(self).log(),
                self.queue() == old(self).queue(),
                self@ == after_fetch(sc),
                sub == m0[sc.pc],
                self.fetched@ == f0 + done.push(sub),
                forall|pin: u8|
                    #[trigger] prefix_run(s0, m0, pin, first, fuel0 as nat) == plus_t(
                        with_bytes(done, prefix_run(sc, m0, pin, prefix, fuel as nat)),
                        4 * (fuel0 - fuel),
                    ),
            decreases fuel,
        {
            proof {
                assert forall|pin: u8|
                    #[trigger] prefix_run(s0, m0, pin, first, fuel0 as nat) == plus_t(
                        with_bytes(done.push(sub), prefix_run(after_fetch(sc), m0, pin, sub, (fuel - 1) as nat)),
                        4 * (fuel0 - (fuel - 1)),
                    ) by {
                    lemma_prefix_run_time(after_fetch(sc), m0, pin, sub, (fuel - 1) as nat);
                    lemma_run_compose(
                        done,
                        4 * (fuel0 - fuel),
                        sub,
                        prefix_run(after_fetch(sc), m0, pin, sub, (fuel - 1) as nat),
                    );
                }
                done = done.push(sub);
                sc = after_fetch(sc);
            }
            prefix = sub;
            fuel = fuel - 1;
            sub = self.fetch_byte();
        }
        let strays: u32 = 4 * (fuel0 - fuel);
        if sub == 0xDD || sub == 0xFD {
            let pc = self.pc.wrapping_sub(2);
            proof {
                assert(pc == sc.pc.wrapping_sub(1));
                assert forall|pin: u8|
                    #[trigger] prefix_run(s0, m0, pin, first, fuel0 as nat) == plus_t(
                        with_bytes(done, prefix_run(sc, m0, pin, prefix, 0)),
                        strays as int,
                    ) by {}
                assert(f0 + done.push(sub) =~= f0 + (done + seq![sub]));
            }
            return Err(Fault::UnhandledIndexOpcode { prefix, opcode: sub, pc });
        }
        if sub == 0xED {
            let sub2 = self.fetch_byte();
            let t = self.execute_ed(sub2);
            proof {
                let pin = last_port_input(self.log());
                lemma_ed_time(after_fetch(after_fetch(sc)), m0, pin, sub2);
                assert(f0 + done.push(sub).push(sub2) + ed_op(after_fetch(after_fetch(sc)), m0, pin, sub2).bytes
                    =~= f0 + (done + (seq![sub, sub2] + ed_op(after_fetch(after_fetch(sc)), m0, pin, sub2).bytes)));
            }
            return Ok(t + 4 + strays);
        }
        let r = self.execute_index_table(prefix, sub);
        proof {
            let pin = last_port_input(self.log());
            lemma_index_time(after_fetch(sc), m0, pin, prefix, sub);
            assert(f0 + done.push(sub) + index_table(after_fetch(sc), m0, pin, prefix, sub).bytes
                =~= f0 + (done + (seq![sub] + index_table(after_fetch(sc), m0, pin, prefix, sub).bytes)));
        }
        match r {
            Ok(t) => Ok(t + strays),
            Err(e) => Err(e),
        }
    }

    /// Execute the instruction after a DD or FD `prefix` whose next byte
    /// `sub_opcode` has been fetched: another prefix continues the run, an
    /// ED runs its instruction 4 T-states later, anything else comes from
    /// the table.
    pub(crate) fn execute_index(&mut self, prefix: u8, sub_opcode: u8) -> (r: Result<u32, Fault>)
        ensures
            final(self).ran_result(
                *old(self),
                index_op(
                    old(self)@,
                    old(self).mem(),
                    last_port_input(final(self).log()),
                    prefix,
                    sub_opcode,
                ),
                r,
            ),
    {
        if sub_opcode == 0xDD || sub_opcode == 0xFD {
            let r = self.execute_prefix_run(sub_opcode, MAX_STRAY_PREFIXES - 1);
            return match r {
                Ok(t) => Ok(t + 4),
                Err(e) => Err(e),
            };
        }
        if sub_opcode == 0xED {
            let sub2 = self.fetch_byte();
            let t = self.execute_ed(sub2);
            proof {
                let pin = last_port_input(self.log());
                let s = old(self)@;
                lemma_ed_time(after_fetch(s), old(self).mem(), pin, sub2);
                let out = ed_op(after_fetch(s), old(self).mem(), pin, sub2);
                assert(old(self).fetched@.push(sub2) + out.bytes =~= old(self).fetched@ + (seq![sub2] + out.bytes));
            }
            return Ok(t + 4);
        }
        self.execute_index_table(prefix, sub_opcode)
    }

    fn execute_index_cb(&mut self, prefix: u8) -> (t: u32)
        ensures
            ({
                let s = old(self)@;
                let m = old(self).mem();
                let d = m[s.pc];
                let op = m[s.pc.wrapping_add(1)];
                final(self).ran(
                    *old(self),
                    with_bytes(
                        seq![d, op],
                        index_cb_op(after_operand(after_operand(s)), m, prefix, d, op),
                    ),
                    t,
                )
            }),
    {
        let displacement = self.read_operand_byte();
        // The final DDCB opcode byte is read as an operand, not an M1 fetch, so R
        // advances only for the DD and CB prefixes.
        let cb_opcode = self.read_operand_byte();
        if cb_opcode <= 0x3F {
            return self.op_index_rot(prefix, displacement, cb_opcode);
        }
        if 0x40 <= cb_opcode && cb_opcode <= 0x7F {
            return self.op_index_bit(prefix, displacement, cb_opcode);
        }
        if 0x80 <= cb_opcode && cb_opcode <= 0xBF {
            return self.op_index_res_set(prefix, displacement, cb_opcode, false);
        }
        self.op_index_res_set(prefix, displacement, cb_opcode, true)
    }

    #[verifier::rlimit(60)]
    fn execute_index_table(&mut self, prefix: u8, sub_opcode: u8) -> (r: Result<u32, Fault>)
        requires
            sub_opcode != 0xDD,
            sub_opcode != 0xED,
            sub_opcode != 0xFD,
        ensures
            final(self).ran_result(
                *old(self),
                index_table(
                    old(self)@,
                    old(self).mem(),
                    last_port_input(final(self).log()),
                    prefix,
                    sub_opcode,
                ),
                r,
            ),
    {
        reveal(index_table);
        let sub = sub_opcode;
        if sub == 0xCB {
            return Ok(self.execute_index_cb(prefix));
        }
        if sub == 0x76 {
            return Ok(self.op_halt() + 4);
        }
        if sub == 0x00 {
            return Ok(self.op_nop() + 4);
        }
        if sub == 0x01 || sub == 0x11 || sub == 0x31 {
            return Ok(self.op_ld_rr_nn(sub) + 4);
        }
        if sub == 0x08 {
            return Ok(self.op_ex_af_af() + 4);
        }
        if sub == 0x10 {
            return Ok(self.op_djnz() + 4);
        }
        if sub == 0x40 || sub == 0x41 || sub == 0x42 || sub == 0x43 || sub == 0x47 || sub == 0x48
            || sub == 0x49 || sub == 0x4A || sub == 0x4B || sub == 0x4F || sub == 0x50 || sub
            == 0x51 || sub == 0x52 || sub == 0x53 || sub == 0x57 || sub == 0x58 || sub == 0x59
            || sub == 0x5A || sub == 0x5B || sub == 0x5F || sub == 0x78 || sub == 0x79 || sub
            == 0x7A || sub == 0x7B || sub == 0x7F {
            return Ok(self.op_ld_r_r(sub) + 4);
        }
        if sub == 0x7C || sub == 0x7D || sub == 0x44 || sub == 0x45 || sub == 0x4C || sub == 0x4D
            || sub == 0x54 || sub == 0x55 || sub == 0x5C || sub == 0x5D || sub == 0x64 || sub
            == 0x65 || sub == 0x6C || sub == 0x6D || sub == 0x60 || sub == 0x61 || sub == 0x62
            || sub == 0x63 || sub == 0x67 || sub == 0x68 || sub == 0x69 || sub == 0x6A || sub
            == 0x6B || sub == 0x6F {
            assert(sub & 7 != 6 && (sub >> 3u8) & 7 != 6) by (bit_vector)
                requires
                    sub == 0x7C || sub == 0x7D || sub == 0x44 || sub == 0x45 || sub == 0x4C || sub
                        == 0x4D || sub == 0x54 || sub == 0x55 || sub == 0x5C || sub == 0x5D || sub
                        == 0x64 || sub == 0x65 || sub == 0x6C || sub == 0x6D || sub == 0x60 || sub
                        == 0x61 || sub == 0x62 || sub == 0x63 || sub == 0x67 || sub == 0x68 || sub
                        == 0x69 || sub == 0x6A || sub == 0x6B || sub == 0x6F,
            ;
            return Ok(self.op_ld_ireg_ireg(prefix, sub) + 4);
        }
        if sub == 0x26 || sub == 0x2E {
            assert((sub >> 3u8) & 7 != 6) by (bit_vector)
                requires
                    sub == 0x26 || sub == 0x2E,
            ;
            return Ok(self.op_ld_ireg_n(prefix, sub) + 4);
        }
        if sub == 0x24 || sub == 0x25 || sub == 0x2C || sub == 0x2D {
            assert((sub >> 3u8) & 7 != 6) by (bit_vector)
                requires
                    sub == 0x24 || sub == 0x25 || sub == 0x2C || sub == 0x2D,
            ;
            return Ok(self.op_inc_dec_ireg(prefix, sub) + 4);
        }
        if sub == 0x04 || sub == 0x0C || sub == 0x14 || sub == 0x1C || sub == 0x3C {
            assert((sub >> 3u8) & 7 != 6) by (bit_vector)
                requires
                    sub == 0x04 || sub == 0x0C || sub == 0x14 || sub == 0x1C || sub == 0x3C,
            ;
            return Ok(self.op_inc_r(sub) + 4);
        }
        if sub == 0x05 || sub == 0x0D || sub == 0x15 || sub == 0x1D || sub == 0x3D {
            assert((sub >> 3u8) & 7 != 6) by (bit_vector)
                requires
                    sub == 0x05 || sub == 0x0D || sub == 0x15 || sub == 0x1D || sub == 0x3D,
            ;
            return Ok(self.op_dec_r(sub) + 4);
        }
        if sub == 0x03 || sub == 0x13 || sub == 0x33 {
            return Ok(self.op_inc_rr(sub) + 4);
        }
        if sub == 0x0B || sub == 0x1B || sub == 0x3B {
            return Ok(self.op_dec_rr(sub) + 4);
        }
        if sub == 0x06 || sub == 0x0E || sub == 0x16 || sub == 0x1E || sub == 0x3E {
            return Ok(self.op_ld_r_n(sub) + 4);
        }
        if sub == 0x0A || sub == 0x1A {
            let reg16 = if sub == 0x0A {
                self.bc()
            } else {
                self.de()
            };
            return Ok(self.op_ld_a_irr(reg16) + 4);
        }
        if sub == 0x02 || sub == 0x12 {
            let reg16 = if sub == 0x02 {
                self.bc()
            } else {
                self.de()
            };
            return Ok(self.op_ld_irr_a(reg16) + 4);
        }
        if sub == 0x3A {
            return Ok(self.op_ld_a_inn() + 4);
        }
        if sub == 0x32 {
            return Ok(self.op_ld_inn_a() + 4);
        }
        if sub == 0xDB {
            return Ok(self.op_in_a_n() + 4);
        }
        if sub == 0xD3 {
            return Ok(self.op_out_n_a() + 4);
        }
        if sub == 0x18 || sub == 0x20 || sub == 0x28 || sub == 0x30 || sub == 0x38 {
            return Ok(self.op_jr(sub) + 4);
        }
        if sub == 0x27 {
            return Ok(self.op_daa() + 4);
        }
        if sub == 0x2F {
            return Ok(self.op_cpl() + 4);
        }
        if sub == 0x37 || sub == 0x3F {
            return Ok(self.op_scf_ccf(sub, true) + 4);
        }
        if sub == 0x07 {
            return Ok(self.op_rlca() + 4);
        }
        if sub == 0x0F {
            return Ok(self.op_rrca() + 4);
        }
        if sub == 0x17 {
            return Ok(self.op_rla() + 4);
        }
        if sub == 0x1F {
            return Ok(self.op_rra() + 4);
        }
        // plain_alu: every 8-bit ALU form whose operand is not H, L, or (HL).
        if 0x80 <= sub && sub <= 0xBF && sub & 0x07 != 4 && sub & 0x07 != 5 && sub & 0x07 != 6 {
            return Ok(self.op_alu_r(sub) + 4);
        }
        // indexed_register_alu: the same forms with IXH/IXL (IYH/IYL) operands.
        if 0x80 <= sub && sub <= 0xBF && (sub & 0x07 == 4 || sub & 0x07 == 5) {
            return Ok(self.op_alu_ireg(prefix, sub) + 4);
        }
        if sub == 0x09 || sub == 0x19 || sub == 0x29 || sub == 0x39 {
            return Ok(self.op_add_index_rr(prefix, sub));
        }
        if sub == 0x21 {
            return Ok(self.op_ld_index_nn(prefix));
        }
        if sub == 0x22 {
            return Ok(self.op_ld_nn_index(prefix));
        }
        if sub == 0x23 {
            return Ok(self.op_inc_index(prefix));
        }
        if sub == 0x2A {
            return Ok(self.op_ld_index_nn_from_mem(prefix));
        }
        if sub == 0x2B {
            return Ok(self.op_dec_index(prefix));
        }
        if sub == 0x34 {
            return Ok(self.op_inc_index_mem(prefix));
        }
        if sub == 0x35 {
            return Ok(self.op_dec_index_mem(prefix));
        }
        if sub == 0x36 {
            return Ok(self.op_ld_index_mem_n(prefix));
        }
        if sub == 0x46 || sub == 0x4E || sub == 0x56 || sub == 0x5E || sub == 0x66 || sub == 0x6E
            || sub == 0x7E {
            assert((sub >> 3u8) & 7 != 6) by (bit_vector)
                requires
                    sub == 0x46 || sub == 0x4E || sub == 0x56 || sub == 0x5E || sub == 0x66 || sub
                        == 0x6E || sub == 0x7E,
            ;
            return Ok(self.op_ld_r_index_mem(prefix, sub));
        }
        if sub == 0x70 || sub == 0x71 || sub == 0x72 || sub == 0x73 || sub == 0x74 || sub == 0x75
            || sub == 0x77 {
            assert(sub & 7 != 6) by (bit_vector)
                requires
                    sub == 0x70 || sub == 0x71 || sub == 0x72 || sub == 0x73 || sub == 0x74 || sub
                        == 0x75 || sub == 0x77,
            ;
            return Ok(self.op_ld_index_mem_r(prefix, sub));
        }
        // indexed_memory_alu
        if 0x80 <= sub && sub <= 0xBF && sub & 0x07 == 6 {
            return Ok(self.op_alu_index_mem(prefix, sub));
        }
        if sub == 0xC0 || sub == 0xC8 || sub == 0xD0 || sub == 0xD8 || sub == 0xE0 || sub == 0xE8
            || sub == 0xF0 || sub == 0xF8 {
            return Ok(self.op_ret_cc(sub) + 4);
        }
        if sub == 0xC2 || sub == 0xCA || sub == 0xD2 || sub == 0xDA || sub == 0xE2 || sub == 0xEA
            || sub == 0xF2 || sub == 0xFA || sub == 0xC3 {
            return Ok(self.op_jp(sub) + 4);
        }
        if sub == 0xC4 || sub == 0xCC || sub == 0xD4 || sub == 0xDC || sub == 0xE4 || sub == 0xEC
            || sub == 0xF4 || sub == 0xFC || sub == 0xCD {
            return Ok(self.op_call(sub) + 4);
        }
        if sub == 0xC9 {
            return Ok(self.op_ret() + 4);
        }
        if sub == 0xC7 || sub == 0xCF || sub == 0xD7 || sub == 0xDF || sub == 0xE7 || sub == 0xEF
            || sub == 0xF7 || sub == 0xFF {
            return Ok(self.op_rst(sub) + 4);
        }
        if sub == 0xC6 || sub == 0xCE || sub == 0xD6 || sub == 0xDE || sub == 0xE6 || sub == 0xEE
            || sub == 0xF6 || sub == 0xFE {
            return Ok(self.op_alu_n(sub) + 4);
        }
        if sub == 0xEB {
            return Ok(self.op_ex_de_hl() + 4);
        }
        if sub == 0xD1 || sub == 0xC1 {
            return Ok(self.op_pop_rr(sub) + 4);
        }
        if sub == 0xD5 || sub == 0xC5 {
            return Ok(self.op_push_rr(sub) + 4);
        }
        if sub == 0xD9 {
            return Ok(self.op_exx() + 4);
        }
        if sub == 0xE1 {
            return Ok(self.op_pop_index(prefix));
        }
        if sub == 0xE3 {
            return Ok(self.op_ex_sp_index(prefix));
        }
        if sub == 0xE5 {
            return Ok(self.op_push_index(prefix));
        }
        if sub == 0xE9 {
            return Ok(self.op_jp_index(prefix));
        }
        if sub == 0xF1 {
            return Ok(self.op_pop_af() + 4);
        }
        if sub == 0xF5 {
            return Ok(self.op_push_af() + 4);
        }
        if sub == 0xF9 {
            return Ok(self.op_ld_sp_index(prefix));
        }
        if sub == 0xF3 {
            return Ok(self.op_interrupt_enable(false) + 4);
        }
        if sub == 0xFB {
            return Ok(self.op_interrupt_enable(true) + 4);
        }
        // DD, ED and FD after a prefix are taken by the prefix run before this
        // table is reached; the table still answers them, leaving PC on the
        // byte after the prefix and nothing else touched.
        let prefix_addr = self.pc.wrapping_sub(2);
        self.pc = prefix_addr.wrapping_add(1);
        Err(Fault::UnhandledIndexOpcode { prefix, opcode: sub, pc: prefix_addr })
    }
}

} // verus!
