//! Top-level, base, CB, and ED opcode dispatch.
//!
//! The explicit if-chain shape is deliberate: every opcode is one search
//! away, and each spec function below reads exactly as the executable
//! chain beside it.

use vstd::prelude::*;
use crate::arith::{
    adc_hl_rr, add_hl_rr, alu_n, alu_r, cpl, daa_op, dec_hl_mem, dec_r8, dec_rr, inc_hl_mem,
    inc_r8, inc_rr, neg, sbc_hl_rr, scf_ccf,
};
use crate::blocks::{cp_block, ld_block};
use crate::control::{
    call, djnz, halt, im, interrupt_enable, jp, jp_hl, jr, no_op, ret, ret_cc, retn, rst,
};
use crate::index_dispatch::{MAX_STRAY_PREFIXES, index_op, lemma_run_is_index_op, prefix_run};
use crate::io::{block_in, block_out, in_a_n, in_r_c, out_c_r, out_n_a};
use crate::loads::{
    ex_af_af, ex_de_hl, ex_sp_hl, exx, ld_a_i, ld_a_inn, ld_a_irr, ld_a_r, ld_i_a, ld_inn_a,
    ld_irr_a, ld_nn_rr, ld_r_a, ld_r_n, ld_r_r, ld_rr_inn, ld_rr_nn, ld_sp_hl, pop_af, pop_rr,
    push_af, push_rr,
};
use crate::machine::{
    Bus, Fault, Outcome, Z80, after_fetch, last_port_input, with_bytes,
};
use crate::rotate::{cb_bit, cb_res_set, cb_rot, rot_a, rxd};
use crate::state::CpuState;

verus! {

/// The CB group: rotates and shifts, BIT, RES, SET.
#[verifier::opaque]
pub open spec fn cb_op(s: CpuState, m: Map<u16, u8>, sub: u8) -> Outcome {
    if sub <= 0x3F {
        cb_rot(s, m, sub)
    } else if sub <= 0x7F {
        cb_bit(s, m, sub)
    } else if sub <= 0xBF {
        cb_res_set(s, m, sub, false)
    } else {
        cb_res_set(s, m, sub, true)
    }
}

/// The unprefixed instruction set. `pin` is the byte a port read answers.
#[verifier::opaque]
pub open spec fn main_op(s: CpuState, m: Map<u16, u8>, pin: u8, opcode: u8) -> Outcome {
    if opcode == 0x00 {
        no_op(s, m, 4)
    } else if opcode == 0x01 || opcode == 0x11 || opcode == 0x21 || opcode == 0x31 {
        ld_rr_nn(s, m, opcode)
    } else if opcode == 0x08 {
        ex_af_af(s, m)
    } else if opcode == 0x10 {
        djnz(s, m)
    } else if opcode == 0x76 {
        halt(s, m)
    } else if 0x40 <= opcode && opcode <= 0x7F {
        ld_r_r(s, m, opcode)
    } else if opcode == 0x06 || opcode == 0x0E || opcode == 0x16 || opcode == 0x1E || opcode
        == 0x26 || opcode == 0x2E || opcode == 0x36 || opcode == 0x3E {
        ld_r_n(s, m, opcode)
    } else if opcode == 0x0A || opcode == 0x1A {
        ld_a_irr(s, m, if opcode == 0x0A {
            s.bc()
        } else {
            s.de()
        })
    } else if opcode == 0x02 || opcode == 0x12 {
        ld_irr_a(s, m, if opcode == 0x02 {
            s.bc()
        } else {
            s.de()
        })
    } else if opcode == 0x3A {
        ld_a_inn(s, m)
    } else if opcode == 0x32 {
        ld_inn_a(s, m)
    } else if opcode == 0x37 || opcode == 0x3F {
        scf_ccf(s, m, opcode, false)
    } else if opcode == 0x22 {
        ld_nn_rr(s, m, 2, 16)
    } else if opcode == 0x2A {
        ld_rr_inn(s, m, 2, 16)
    } else if opcode == 0xDB {
        in_a_n(s, m, pin)
    } else if opcode == 0xD3 {
        out_n_a(s, m)
    } else if 0x80 <= opcode && opcode <= 0xBF {
        alu_r(s, m, opcode)
    } else if opcode == 0xC6 || opcode == 0xCE || opcode == 0xD6 || opcode == 0xDE || opcode
        == 0xE6 || opcode == 0xEE || opcode == 0xF6 || opcode == 0xFE {
        alu_n(s, m, opcode)
    } else if opcode == 0x04 || opcode == 0x0C || opcode == 0x14 || opcode == 0x1C || opcode
        == 0x24 || opcode == 0x2C || opcode == 0x3C {
        inc_r8(s, m, opcode)
    } else if opcode == 0x05 || opcode == 0x0D || opcode == 0x15 || opcode == 0x1D || opcode
        == 0x25 || opcode == 0x2D || opcode == 0x3D {
        dec_r8(s, m, opcode)
    } else if opcode == 0x34 {
        inc_hl_mem(s, m)
    } else if opcode == 0x35 {
        dec_hl_mem(s, m)
    } else if opcode == 0x27 {
        daa_op(s, m)
    } else if opcode == 0x2F {
        cpl(s, m)
    } else if opcode == 0x07 || opcode == 0x0F || opcode == 0x17 || opcode == 0x1F {
        rot_a(s, m, opcode)
    } else if opcode == 0x09 || opcode == 0x19 || opcode == 0x29 || opcode == 0x39 {
        add_hl_rr(s, m, opcode)
    } else if opcode == 0x03 || opcode == 0x13 || opcode == 0x23 || opcode == 0x33 {
        inc_rr(s, m, opcode)
    } else if opcode == 0x0B || opcode == 0x1B || opcode == 0x2B || opcode == 0x3B {
        dec_rr(s, m, opcode)
    } else if opcode == 0x18 || opcode == 0x20 || opcode == 0x28 || opcode == 0x30 || opcode
        == 0x38 {
        jr(s, m, opcode)
    } else if opcode == 0xC0 || opcode == 0xC8 || opcode == 0xD0 || opcode == 0xD8 || opcode
        == 0xE0 || opcode == 0xE8 || opcode == 0xF0 || opcode == 0xF8 {
        ret_cc(s, m, opcode)
    } else if opcode == 0xC9 {
        ret(s, m)
    } else if opcode == 0xC2 || opcode == 0xCA || opcode == 0xD2 || opcode == 0xDA || opcode
        == 0xE2 || opcode == 0xEA || opcode == 0xF2 || opcode == 0xFA || opcode == 0xC3 {
        jp(s, m, opcode)
    } else if opcode == 0xC4 || opcode == 0xCC || opcode == 0xD4 || opcode == 0xDC || opcode
        == 0xE4 || opcode == 0xEC || opcode == 0xF4 || opcode == 0xFC || opcode == 0xCD {
        call(s, m, opcode)
    } else if opcode == 0xC7 || opcode == 0xCF || opcode == 0xD7 || opcode == 0xDF || opcode
        == 0xE7 || opcode == 0xEF || opcode == 0xF7 || opcode == 0xFF {
        rst(s, m, opcode)
    } else if opcode == 0xC1 || opcode == 0xD1 || opcode == 0xE1 {
        pop_rr(s, m, (opcode >> 4u8) & 3)
    } else if opcode == 0xC5 || opcode == 0xD5 || opcode == 0xE5 {
        push_rr(s, m, (opcode >> 4u8) & 3)
    } else if opcode == 0xF1 {
        pop_af(s, m)
    } else if opcode == 0xF5 {
        push_af(s, m)
    } else if opcode == 0xF9 {
        ld_sp_hl(s, m)
    } else if opcode == 0xD9 {
        exx(s, m)
    } else if opcode == 0xE3 {
        ex_sp_hl(s, m)
    } else if opcode == 0xE9 {
        jp_hl(s, m)
    } else if opcode == 0xEB {
        ex_de_hl(s, m)
    } else if opcode == 0xF3 {
        interrupt_enable(s, m, false)
    } else if opcode == 0xFB {
        interrupt_enable(s, m, true)
    } else {
        Outcome {
            state: s,
            memory: m,
            result: Err(Fault::UnhandledOpcode { opcode, pc: s.pc.wrapping_sub(1) }),
            bytes: seq![],
            io: seq![],
        }
    }
}

/// The ED group. Every ED byte not otherwise defined is an 8 T-state no-op.
#[verifier::opaque]
pub open spec fn ed_op(s: CpuState, m: Map<u16, u8>, pin: u8, opcode: u8) -> Outcome {
    if opcode == 0x47 {
        ld_i_a(s, m)
    } else if opcode == 0x4F {
        ld_r_a(s, m)
    } else if opcode == 0x57 {
        ld_a_i(s, m)
    } else if opcode == 0x5F {
        ld_a_r(s, m)
    } else if opcode == 0x67 {
        rxd(s, m, false)
    } else if opcode == 0x6F {
        rxd(s, m, true)
    } else if opcode == 0x77 || opcode == 0x7F {
        no_op(s, m, 8)
    } else if opcode == 0xA0 {
        ld_block(s, m, true, false)
    } else if opcode == 0xA1 {
        cp_block(s, m, true, false)
    } else if opcode == 0xA2 {
        block_in(s, m, pin, true, false)
    } else if opcode == 0xA3 {
        block_out(s, m, true, false)
    } else if opcode == 0xA8 {
        ld_block(s, m, false, false)
    } else if opcode == 0xA9 {
        cp_block(s, m, false, false)
    } else if opcode == 0xAA {
        block_in(s, m, pin, false, false)
    } else if opcode == 0xAB {
        block_out(s, m, false, false)
    } else if opcode == 0xB0 {
        ld_block(s, m, true, true)
    } else if opcode == 0xB1 {
        cp_block(s, m, true, true)
    } else if opcode == 0xB2 {
        block_in(s, m, pin, true, true)
    } else if opcode == 0xB3 {
        block_out(s, m, true, true)
    } else if opcode == 0xB8 {
        ld_block(s, m, false, true)
    } else if opcode == 0xB9 {
        cp_block(s, m, false, true)
    } else if opcode == 0xBA {
        block_in(s, m, pin, false, true)
    } else if opcode == 0xBB {
        block_out(s, m, false, true)
    } else if opcode == 0x45 || opcode == 0x55 || opcode == 0x65 || opcode == 0x75 || opcode
        == 0x4D || opcode == 0x5D || opcode == 0x6D || opcode == 0x7D {
        retn(s, m)
    } else if opcode == 0x4A || opcode == 0x5A || opcode == 0x6A || opcode == 0x7A {
        adc_hl_rr(s, m, opcode)
    } else if opcode == 0x42 || opcode == 0x52 || opcode == 0x62 || opcode == 0x72 {
        sbc_hl_rr(s, m, opcode)
    } else if opcode == 0x43 || opcode == 0x53 || opcode == 0x63 || opcode == 0x73 {
        ld_nn_rr(s, m, (opcode >> 4u8) & 0x03, 20)
    } else if opcode == 0x4B || opcode == 0x5B || opcode == 0x6B || opcode == 0x7B {
        ld_rr_inn(s, m, (opcode >> 4u8) & 0x03, 20)
    } else if opcode == 0x46 || opcode == 0x4E || opcode == 0x66 || opcode == 0x6E {
        im(s, m, 0)
    } else if opcode == 0x56 || opcode == 0x76 {
        im(s, m, 1)
    } else if opcode == 0x5E || opcode == 0x7E {
        im(s, m, 2)
    } else if opcode == 0x44 || opcode == 0x4C || opcode == 0x54 || opcode == 0x5C || opcode
        == 0x64 || opcode == 0x6C || opcode == 0x74 || opcode == 0x7C {
        neg(s, m)
    } else if 0x40 <= opcode && opcode <= 0x78 && opcode & 0x07 == 0 {
        in_r_c(s, m, opcode, pin)
    } else if 0x41 <= opcode && opcode <= 0x79 && opcode & 0x07 == 1 {
        out_c_r(s, m, opcode)
    } else {
        no_op(s, m, 8)
    }
}

/// One instruction, fetched and executed from state `s` and memory `m`;
/// `pin` is the byte a port read answers. Its bytes are everything read
/// through PC, prefixes first.
pub open spec fn decode(s: CpuState, m: Map<u16, u8>, pin: u8) -> Outcome {
    let opcode = m[s.pc];
    let s1 = after_fetch(s);
    if opcode == 0xCB {
        let sub = m[s1.pc];
        with_bytes(seq![opcode, sub], cb_op(after_fetch(s1), m, sub))
    } else if opcode == 0xED {
        let sub = m[s1.pc];
        with_bytes(seq![opcode, sub], ed_op(after_fetch(s1), m, pin, sub))
    } else if opcode == 0xDD || opcode == 0xFD {
        with_bytes(seq![opcode], prefix_run(s1, m, pin, opcode, MAX_STRAY_PREFIXES as nat))
    } else {
        with_bytes(seq![opcode], main_op(s1, m, pin, opcode))
    }
}

impl<B: Bus> Z80<B> {
    /// Fetch and execute one instruction, returning its documented T-states.
    ///
    /// This is the instruction-only entry point; [`Z80::step`] is the host
    /// entry point that services lifecycle requests first. The instruction's
    /// bytes replace those of the previous one.
    pub fn decode_and_execute(&mut self) -> (r: Result<u32, Fault>)
        ensures
            ({
                let out = decode(old(self)@, old(self).mem(), last_port_input(final(self).log()));
                &&& final(self)@ == out.state
                &&& final(self).mem() == out.memory
                &&& final(self).fetched@ == out.bytes
                &&& final(self).log() =~= old(self).log() + out.io
            &&& final(self).queue() == old(self).queue()
                &&& final(self).queue() == old(self).queue()
                &&& r == out.result
            }),
    {
        self.fetched.clear();
        let opcode = self.fetch_byte();
        if opcode == 0xCB {
            let sub_opcode = self.fetch_byte();
            return Ok(self.execute_cb(sub_opcode));
        }
        if opcode == 0xED {
            let sub_opcode = self.fetch_byte();
            return Ok(self.execute_ed(sub_opcode));
        }
        if opcode == 0xDD || opcode == 0xFD {
            let sub_opcode = self.fetch_byte();
            let r = self.execute_index(opcode, sub_opcode);
            proof {
                let pin = last_port_input(self.log());
                let s1 = after_fetch(old(self)@);
                lemma_run_is_index_op(s1, old(self).mem(), pin, opcode);
                let out = index_op(after_fetch(s1), old(self).mem(), pin, opcode, sub_opcode);
                assert(seq![opcode, sub_opcode] + out.bytes =~= seq![opcode] + (seq![sub_opcode] + out.bytes));
            }
            return r;
        }
        self.execute_main(opcode)
    }

    pub(crate) fn execute_cb(&mut self, sub_opcode: u8) -> (t: u32)
        ensures
            final(self).ran(*old(self), cb_op(old(self)@, old(self).mem(), sub_opcode), t),
    {
        reveal(cb_op);
        if sub_opcode <= 0x3F {
            return self.op_rot(sub_opcode);
        }
        if sub_opcode <= 0x7F {
            return self.op_bit(sub_opcode);
        }
        if sub_opcode <= 0xBF {
            return self.op_res(sub_opcode);
        }
        self.op_set(sub_opcode)
    }

    #[verifier::rlimit(40)]
    pub(crate) fn execute_main(&mut self, opcode: u8) -> (r: Result<u32, Fault>)
        ensures
            final(self).ran_result(
                *old(self),
                main_op(old(self)@, old(self).mem(), last_port_input(final(self).log()), opcode),
                r,
            ),
    {
        reveal(main_op);
        if opcode == 0x00 {
            return Ok(self.op_nop());
        }
        if opcode == 0x01 || opcode == 0x11 || opcode == 0x21 || opcode == 0x31 {
            return Ok(self.op_ld_rr_nn(opcode));
        }
        if opcode == 0x08 {
            return Ok(self.op_ex_af_af());
        }
        if opcode == 0x10 {
            return Ok(self.op_djnz());
        }
        if opcode == 0x76 {
            return Ok(self.op_halt());
        }
        if 0x40 <= opcode && opcode <= 0x7F && opcode != 0x76 {
            return Ok(self.op_ld_r_r(opcode));
        }
        if opcode == 0x06 || opcode == 0x0E || opcode == 0x16 || opcode == 0x1E || opcode == 0x26
            || opcode == 0x2E || opcode == 0x36 || opcode == 0x3E {
            return Ok(self.op_ld_r_n(opcode));
        }
        if opcode == 0x0A || opcode == 0x1A {
            let reg16 = if opcode == 0x0A {
                self.bc()
            } else {
                self.de()
            };
            return Ok(self.op_ld_a_irr(reg16));
        }
        if opcode == 0x02 || opcode == 0x12 {
            let reg16 = if opcode == 0x02 {
                self.bc()
            } else {
                self.de()
            };
            return Ok(self.op_ld_irr_a(reg16));
        }
        if opcode == 0x3A {
            return Ok(self.op_ld_a_inn());
        }
        if opcode == 0x32 {
            return Ok(self.op_ld_inn_a());
        }
        if opcode == 0x37 || opcode == 0x3F {
            return Ok(self.op_scf_ccf(opcode, false));
        }
        if opcode == 0x22 {
            return Ok(self.op_ld_nn_hl());
        }
        if opcode == 0x2A {
            return Ok(self.op_ld_hl_nn_from_mem());
        }
        if opcode == 0xDB {
            return Ok(self.op_in_a_n());
        }
        if opcode == 0xD3 {
            return Ok(self.op_out_n_a());
        }
        if 0x80 <= opcode && opcode <= 0xBF {
            return Ok(self.op_alu_r(opcode));
        }
        if opcode == 0xC6 || opcode == 0xCE || opcode == 0xD6 || opcode == 0xDE || opcode == 0xE6
            || opcode == 0xEE || opcode == 0xF6 || opcode == 0xFE {
            return Ok(self.op_alu_n(opcode));
        }
        if opcode == 0x04 || opcode == 0x0C || opcode == 0x14 || opcode == 0x1C || opcode == 0x24
            || opcode == 0x2C || opcode == 0x3C {
            assert((opcode >> 3u8) & 7 != 6) by (bit_vector)
                requires
                    opcode == 0x04 || opcode == 0x0C || opcode == 0x14 || opcode == 0x1C || opcode
                        == 0x24 || opcode == 0x2C || opcode == 0x3C,
            ;
            return Ok(self.op_inc_r(opcode));
        }
        if opcode == 0x05 || opcode == 0x0D || opcode == 0x15 || opcode == 0x1D || opcode == 0x25
            || opcode == 0x2D || opcode == 0x3D {
            assert((opcode >> 3u8) & 7 != 6) by (bit_vector)
                requires
                    opcode == 0x05 || opcode == 0x0D || opcode == 0x15 || opcode == 0x1D || opcode
                        == 0x25 || opcode == 0x2D || opcode == 0x3D,
            ;
            return Ok(self.op_dec_r(opcode));
        }
        if opcode == 0x34 {
            return Ok(self.op_inc_hl());
        }
        if opcode == 0x35 {
            return Ok(self.op_dec_hl());
        }
        if opcode == 0x27 {
            return Ok(self.op_daa());
        }
        if opcode == 0x2F {
            return Ok(self.op_cpl());
        }
        if opcode == 0x07 {
            return Ok(self.op_rlca());
        }
        if opcode == 0x0F {
            return Ok(self.op_rrca());
        }
        if opcode == 0x17 {
            return Ok(self.op_rla());
        }
        if opcode == 0x1F {
            return Ok(self.op_rra());
        }
        if opcode == 0x09 || opcode == 0x19 || opcode == 0x29 || opcode == 0x39 {
            return Ok(self.op_add_hl_rr(opcode));
        }
        if opcode == 0x03 || opcode == 0x13 || opcode == 0x23 || opcode == 0x33 {
            return Ok(self.op_inc_rr(opcode));
        }
        if opcode == 0x0B || opcode == 0x1B || opcode == 0x2B || opcode == 0x3B {
            return Ok(self.op_dec_rr(opcode));
        }
        if opcode == 0x18 || opcode == 0x20 || opcode == 0x28 || opcode == 0x30 || opcode == 0x38 {
            return Ok(self.op_jr(opcode));
        }
        if opcode == 0xC0 || opcode == 0xC8 || opcode == 0xD0 || opcode == 0xD8 || opcode == 0xE0
            || opcode == 0xE8 || opcode == 0xF0 || opcode == 0xF8 {
            return Ok(self.op_ret_cc(opcode));
        }
        if opcode == 0xC9 {
            return Ok(self.op_ret());
        }
        if opcode == 0xC2 || opcode == 0xCA || opcode == 0xD2 || opcode == 0xDA || opcode == 0xE2
            || opcode == 0xEA || opcode == 0xF2 || opcode == 0xFA || opcode == 0xC3 {
            return Ok(self.op_jp(opcode));
        }
        if opcode == 0xC4 || opcode == 0xCC || opcode == 0xD4 || opcode == 0xDC || opcode == 0xE4
            || opcode == 0xEC || opcode == 0xF4 || opcode == 0xFC || opcode == 0xCD {
            return Ok(self.op_call(opcode));
        }
        if opcode == 0xC7 || opcode == 0xCF || opcode == 0xD7 || opcode == 0xDF || opcode == 0xE7
            || opcode == 0xEF || opcode == 0xF7 || opcode == 0xFF {
            return Ok(self.op_rst(opcode));
        }
        if opcode == 0xC1 || opcode == 0xD1 || opcode == 0xE1 {
            return Ok(self.op_pop_rr(opcode));
        }
        if opcode == 0xC5 || opcode == 0xD5 || opcode == 0xE5 {
            return Ok(self.op_push_rr(opcode));
        }
        if opcode == 0xF1 {
            return Ok(self.op_pop_af());
        }
        if opcode == 0xF5 {
            return Ok(self.op_push_af());
        }
        if opcode == 0xF9 {
            return Ok(self.op_ld_sp_hl());
        }
        if opcode == 0xD9 {
            return Ok(self.op_exx());
        }
        if opcode == 0xE3 {
            return Ok(self.op_ex_sp_hl());
        }
        if opcode == 0xE9 {
            return Ok(self.op_jp_hl());
        }
        if opcode == 0xEB {
            return Ok(self.op_ex_de_hl());
        }
        if opcode == 0xF3 {
            return Ok(self.op_interrupt_enable(false));
        }
        if opcode == 0xFB {
            return Ok(self.op_interrupt_enable(true));
        }
        Err(Fault::UnhandledOpcode { opcode, pc: self.pc.wrapping_sub(1) })
    }

    #[verifier::rlimit(40)]
    pub(crate) fn execute_ed(&mut self, opcode: u8) -> (t: u32)
        ensures
            final(self).ran(
                *old(self),
                ed_op(old(self)@, old(self).mem(), last_port_input(final(self).log()), opcode),
                t,
            ),
    {
        reveal(ed_op);
        // Explicit dispatch keeps each opcode directly traceable.
        if opcode == 0x47 {
            return self.op_ld_i_a();
        }
        if opcode == 0x4F {
            return self.op_ld_r_a();
        }
        if opcode == 0x57 {
            return self.op_ld_a_i();
        }
        if opcode == 0x5F {
            return self.op_ld_a_r();
        }
        if opcode == 0x67 {
            return self.op_rrd();
        }
        if opcode == 0x6F {
            return self.op_rld();
        }
        if opcode == 0x77 || opcode == 0x7F {
            return self.op_ed_nop();
        }
        if opcode == 0xA0 {
            return self.op_ldi();
        }
        if opcode == 0xA1 {
            return self.op_cpi();
        }
        if opcode == 0xA2 {
            return self.op_ini();
        }
        if opcode == 0xA3 {
            return self.op_outi();
        }
        if opcode == 0xA8 {
            return self.op_ldd();
        }
        if opcode == 0xA9 {
            return self.op_cpd();
        }
        if opcode == 0xAA {
            return self.op_ind();
        }
        if opcode == 0xAB {
            return self.op_outd();
        }
        if opcode == 0xB0 {
            return self.op_ldir();
        }
        if opcode == 0xB1 {
            return self.op_cpir();
        }
        if opcode == 0xB2 {
            return self.op_inir();
        }
        if opcode == 0xB3 {
            return self.op_otir();
        }
        if opcode == 0xB8 {
            return self.op_lddr();
        }
        if opcode == 0xB9 {
            return self.op_cpdr();
        }
        if opcode == 0xBA {
            return self.op_indr();
        }
        if opcode == 0xBB {
            return self.op_otdr();
        }
        if opcode == 0x45 || opcode == 0x55 || opcode == 0x65 || opcode == 0x75 {
            return self.op_retn();
        }
        if opcode == 0x4D || opcode == 0x5D || opcode == 0x6D || opcode == 0x7D {
            return self.op_reti();
        }
        if opcode == 0x4A || opcode == 0x5A || opcode == 0x6A || opcode == 0x7A {
            return self.op_adc_hl_rr(opcode);
        }
        if opcode == 0x42 || opcode == 0x52 || opcode == 0x62 || opcode == 0x72 {
            return self.op_sbc_hl_rr(opcode);
        }
        if opcode == 0x43 || opcode == 0x53 || opcode == 0x63 || opcode == 0x73 {
            return self.op_ld_nn_rr((opcode >> 4u8) & 0x03);
        }
        if opcode == 0x4B || opcode == 0x5B || opcode == 0x6B || opcode == 0x7B {
            return self.op_ld_rr_nn_from_mem((opcode >> 4u8) & 0x03);
        }
        if opcode == 0x46 || opcode == 0x4E || opcode == 0x66 || opcode == 0x6E {
            return self.op_im(0);
        }
        if opcode == 0x56 || opcode == 0x76 {
            return self.op_im(1);
        }
        if opcode == 0x5E || opcode == 0x7E {
            return self.op_im(2);
        }
        if opcode == 0x44 || opcode == 0x4C || opcode == 0x54 || opcode == 0x5C || opcode == 0x64
            || opcode == 0x6C || opcode == 0x74 || opcode == 0x7C {
            return self.op_neg();
        }
        if 0x40 <= opcode && opcode <= 0x78 && opcode & 0x07 == 0 {
            return self.op_in_r_c(opcode);
        }
        if 0x41 <= opcode && opcode <= 0x79 && opcode & 0x07 == 1 {
            return self.op_out_c_r(opcode);
        }
        // Every ED-prefixed byte not otherwise defined is a genuine Z80 instruction
        // on real silicon: a 2-byte, 8 T-state no-op. Only 0x77/0x7F fell inside the
        // documented 0x40-0x7F block; the rest of the ED space needs the same rule.
        self.op_ed_nop()
    }
}

} // verus!
