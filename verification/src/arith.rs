//! Arithmetic and logic instructions: the 8-bit ALU group, INC and DEC,
//! DAA, CPL, NEG, SCF, CCF, and 16-bit arithmetic.

use vstd::prelude::*;
use crate::alu::{
    add16, add16_spec, adc16, adc16_spec, alu8, alu8_spec, daa, daa_spec, dec8, dec8_spec, inc8,
    inc8_spec, sbc16, sbc16_spec, sub8, sub8_spec,
};
use crate::machine::{
    Bus, Outcome, Z80, after_operand, quiet, reg16, reg8, set_reg16, set_reg8, with_q,
};
use crate::state::CpuState;

verus! {

/// ALU A,r (r may be (HL)): operation and operand from the opcode.
pub open spec fn alu_r(s: CpuState, m: Map<u16, u8>, opcode: u8) -> Outcome {
    let src = opcode & 7;
    let r = alu8_spec((opcode >> 3u8) & 7, s.a, reg8(s, m, src), s.f);
    quiet(with_q(CpuState { a: r.0, f: r.1, ..s }, true), m, if src == 6 {
        7
    } else {
        4
    }, seq![])
}

/// ALU A,n.
pub open spec fn alu_n(s: CpuState, m: Map<u16, u8>, opcode: u8) -> Outcome {
    let n = m[s.pc];
    let s1 = after_operand(s);
    let r = alu8_spec((opcode >> 3u8) & 7, s.a, n, s.f);
    quiet(with_q(CpuState { a: r.0, f: r.1, ..s1 }, true), m, 7, seq![n])
}

/// INC r (not (HL)).
pub open spec fn inc_r8(s: CpuState, m: Map<u16, u8>, opcode: u8) -> Outcome {
    let idx = (opcode >> 3u8) & 7;
    let r = inc8_spec(reg8(s, m, idx), s.f);
    quiet(with_q(CpuState { f: r.1, ..set_reg8(s, idx, r.0) }, true), m, 4, seq![])
}

/// DEC r (not (HL)).
pub open spec fn dec_r8(s: CpuState, m: Map<u16, u8>, opcode: u8) -> Outcome {
    let idx = (opcode >> 3u8) & 7;
    let r = dec8_spec(reg8(s, m, idx), s.f);
    quiet(with_q(CpuState { f: r.1, ..set_reg8(s, idx, r.0) }, true), m, 4, seq![])
}

/// INC (HL).
pub open spec fn inc_hl_mem(s: CpuState, m: Map<u16, u8>) -> Outcome {
    let r = inc8_spec(m[s.hl()], s.f);
    quiet(with_q(CpuState { f: r.1, ..s }, true), m.insert(s.hl(), r.0), 11, seq![])
}

/// DEC (HL).
pub open spec fn dec_hl_mem(s: CpuState, m: Map<u16, u8>) -> Outcome {
    let r = dec8_spec(m[s.hl()], s.f);
    quiet(with_q(CpuState { f: r.1, ..s }, true), m.insert(s.hl(), r.0), 11, seq![])
}

/// DAA.
pub open spec fn daa_op(s: CpuState, m: Map<u16, u8>) -> Outcome {
    let r = daa_spec(s.a, s.f);
    quiet(with_q(CpuState { a: r.0, f: r.1, ..s }, true), m, 4, seq![])
}

/// CPL: H and N set, Y and X from the result.
pub open spec fn cpl(s: CpuState, m: Map<u16, u8>) -> Outcome {
    let a = !s.a;
    quiet(with_q(CpuState { a, f: (s.f & 0xC5) | (a & 0x28) | 0x12, ..s }, true), m, 4, seq![])
}

/// NEG: A = 0 - A.
pub open spec fn neg(s: CpuState, m: Map<u16, u8>) -> Outcome {
    let r = sub8_spec(0, s.a, 0);
    quiet(with_q(CpuState { a: r.0, f: r.1, ..s }, true), m, 8, seq![])
}

/// SCF (opcode 0x37) or CCF (0x3F). Y and X come from `(Q ^ F) | A`; after
/// an index prefix Q reads as 0, because the prefix wrote no flags.
pub open spec fn scf_ccf(s: CpuState, m: Map<u16, u8>, opcode: u8, prefixed: bool) -> Outcome {
    let q = if prefixed {
        0
    } else {
        s.q
    };
    let xy = ((q ^ s.f) | s.a) & 0x28;
    let f = if opcode == 0x37 {
        (s.f & 0xC4) | xy | 0x01
    } else {
        (s.f & 0xC4) | xy | (if s.f & 0x01 != 0 {
            0x10u8
        } else {
            0x01u8
        })
    };
    quiet(with_q(CpuState { f, ..s }, true), m, 4, seq![])
}

/// INC rr.
pub open spec fn inc_rr(s: CpuState, m: Map<u16, u8>, opcode: u8) -> Outcome {
    let k = (opcode >> 4u8) & 3;
    quiet(with_q(set_reg16(s, k, reg16(s, k).wrapping_add(1)), false), m, 6, seq![])
}

/// DEC rr.
pub open spec fn dec_rr(s: CpuState, m: Map<u16, u8>, opcode: u8) -> Outcome {
    let k = (opcode >> 4u8) & 3;
    quiet(with_q(set_reg16(s, k, reg16(s, k).wrapping_sub(1)), false), m, 6, seq![])
}

/// ADD HL,rr.
pub open spec fn add_hl_rr(s: CpuState, m: Map<u16, u8>, opcode: u8) -> Outcome {
    let r = add16_spec(s.hl(), reg16(s, (opcode >> 4u8) & 3), s.f);
    quiet(
        with_q(CpuState { f: r.1, wz: s.hl().wrapping_add(1), ..s.with_hl(r.0) }, true),
        m,
        11,
        seq![],
    )
}

/// ADC HL,rr.
pub open spec fn adc_hl_rr(s: CpuState, m: Map<u16, u8>, opcode: u8) -> Outcome {
    let r = adc16_spec(s.hl(), reg16(s, (opcode >> 4u8) & 3), s.f & 1);
    quiet(
        with_q(CpuState { f: r.1, wz: s.hl().wrapping_add(1), ..s.with_hl(r.0) }, true),
        m,
        15,
        seq![],
    )
}

/// SBC HL,rr.
pub open spec fn sbc_hl_rr(s: CpuState, m: Map<u16, u8>, opcode: u8) -> Outcome {
    let r = sbc16_spec(s.hl(), reg16(s, (opcode >> 4u8) & 3), s.f & 1);
    quiet(
        with_q(CpuState { f: r.1, wz: s.hl().wrapping_add(1), ..s.with_hl(r.0) }, true),
        m,
        15,
        seq![],
    )
}

impl<B: Bus> Z80<B> {
    pub(crate) fn op_alu_r(&mut self, opcode: u8) -> (t: u32)
        ensures
            final(self).ran(*old(self), alu_r(old(self)@, old(self).mem(), opcode), t),
    {
        let src = opcode & 7;
        let v = self.read_reg(src);
        let (a, f) = alu8((opcode >> 3u8) & 7, self.a, v, self.f.byte());
        self.a = a;
        self.f.set_byte(f);
        self.update_q(true);
        if src == 6 {
            7
        } else {
            4
        }
    }

    pub(crate) fn op_alu_n(&mut self, opcode: u8) -> (t: u32)
        ensures
            final(self).ran(*old(self), alu_n(old(self)@, old(self).mem(), opcode), t),
    {
        let n = self.read_operand_byte();
        let (a, f) = alu8((opcode >> 3u8) & 7, self.a, n, self.f.byte());
        self.a = a;
        self.f.set_byte(f);
        self.update_q(true);
        7
    }

    pub(crate) fn op_inc_r(&mut self, opcode: u8) -> (t: u32)
        requires
            (opcode >> 3u8) & 7 != 6,
        ensures
            final(self).ran(*old(self), inc_r8(old(self)@, old(self).mem(), opcode), t),
    {
        let idx = (opcode >> 3u8) & 7;
        let v = self.read_reg(idx);
        let (r, f) = inc8(v, self.f.byte());
        self.write_reg(idx, r);
        self.f.set_byte(f);
        self.update_q(true);
        4
    }

    pub(crate) fn op_dec_r(&mut self, opcode: u8) -> (t: u32)
        requires
            (opcode >> 3u8) & 7 != 6,
        ensures
            final(self).ran(*old(self), dec_r8(old(self)@, old(self).mem(), opcode), t),
    {
        let idx = (opcode >> 3u8) & 7;
        let v = self.read_reg(idx);
        let (r, f) = dec8(v, self.f.byte());
        self.write_reg(idx, r);
        self.f.set_byte(f);
        self.update_q(true);
        4
    }

    pub(crate) fn op_inc_hl(&mut self) -> (t: u32)
        ensures
            final(self).ran(*old(self), inc_hl_mem(old(self)@, old(self).mem()), t),
    {
        let hl = self.hl();
        let v = self.read_mem(hl);
        let (r, f) = inc8(v, self.f.byte());
        self.write_mem(hl, r);
        self.f.set_byte(f);
        self.update_q(true);
        11
    }

    pub(crate) fn op_dec_hl(&mut self) -> (t: u32)
        ensures
            final(self).ran(*old(self), dec_hl_mem(old(self)@, old(self).mem()), t),
    {
        let hl = self.hl();
        let v = self.read_mem(hl);
        let (r, f) = dec8(v, self.f.byte());
        self.write_mem(hl, r);
        self.f.set_byte(f);
        self.update_q(true);
        11
    }

    pub(crate) fn op_daa(&mut self) -> (t: u32)
        ensures
            final(self).ran(*old(self), daa_op(old(self)@, old(self).mem()), t),
    {
        let (a, f) = daa(self.a, self.f.byte());
        self.a = a;
        self.f.set_byte(f);
        self.update_q(true);
        4
    }

    pub(crate) fn op_cpl(&mut self) -> (t: u32)
        ensures
            final(self).ran(*old(self), cpl(old(self)@, old(self).mem()), t),
    {
        let a = !self.a;
        let f = (self.f.byte() & 0xC5) | (a & 0x28) | 0x12;
        self.a = a;
        self.f.set_byte(f);
        self.update_q(true);
        4
    }

    pub(crate) fn op_neg(&mut self) -> (t: u32)
        ensures
            final(self).ran(*old(self), neg(old(self)@, old(self).mem()), t),
    {
        let (a, f) = sub8(0, self.a, 0);
        self.a = a;
        self.f.set_byte(f);
        self.update_q(true);
        8
    }

    pub(crate) fn op_scf_ccf(&mut self, opcode: u8, prefixed: bool) -> (t: u32)
        ensures
            final(self).ran(
                *old(self),
                scf_ccf(old(self)@, old(self).mem(), opcode, prefixed),
                t,
            ),
    {
        let q = if prefixed {
            0
        } else {
            self.q
        };
        let old_f = self.f.byte();
        let xy = ((q ^ old_f) | self.a) & 0x28;
        let f = if opcode == 0x37 {
            (old_f & 0xC4) | xy | 0x01
        } else {
            (old_f & 0xC4) | xy | (if old_f & 0x01 != 0 {
                0x10u8
            } else {
                0x01u8
            })
        };
        self.f.set_byte(f);
        self.update_q(true);
        4
    }

    pub(crate) fn op_inc_rr(&mut self, opcode: u8) -> (t: u32)
        ensures
            final(self).ran(*old(self), inc_rr(old(self)@, old(self).mem(), opcode), t),
    {
        let k = (opcode >> 4u8) & 3;
        let v = self.get_rr(k);
        self.set_rr(k, v.wrapping_add(1));
        self.update_q(false);
        6
    }

    pub(crate) fn op_dec_rr(&mut self, opcode: u8) -> (t: u32)
        ensures
            final(self).ran(*old(self), dec_rr(old(self)@, old(self).mem(), opcode), t),
    {
        let k = (opcode >> 4u8) & 3;
        let v = self.get_rr(k);
        self.set_rr(k, v.wrapping_sub(1));
        self.update_q(false);
        6
    }

    pub(crate) fn op_add_hl_rr(&mut self, opcode: u8) -> (t: u32)
        ensures
            final(self).ran(*old(self), add_hl_rr(old(self)@, old(self).mem(), opcode), t),
    {
        let hl = self.hl();
        let v = self.get_rr((opcode >> 4u8) & 3);
        let (r, f) = add16(hl, v, self.f.byte());
        self.set_hl(r);
        self.f.set_byte(f);
        self.wz = hl.wrapping_add(1);
        self.update_q(true);
        11
    }

    pub(crate) fn op_adc_hl_rr(&mut self, opcode: u8) -> (t: u32)
        ensures
            final(self).ran(*old(self), adc_hl_rr(old(self)@, old(self).mem(), opcode), t),
    {
        let hl = self.hl();
        let v = self.get_rr((opcode >> 4u8) & 3);
        let (r, f) = adc16(hl, v, self.f.byte() & 1);
        self.set_hl(r);
        self.f.set_byte(f);
        self.wz = hl.wrapping_add(1);
        self.update_q(true);
        15
    }

    pub(crate) fn op_sbc_hl_rr(&mut self, opcode: u8) -> (t: u32)
        ensures
            final(self).ran(*old(self), sbc_hl_rr(old(self)@, old(self).mem(), opcode), t),
    {
        let hl = self.hl();
        let v = self.get_rr((opcode >> 4u8) & 3);
        let (r, f) = sbc16(hl, v, self.f.byte() & 1);
        self.set_hl(r);
        self.f.set_byte(f);
        self.wz = hl.wrapping_add(1);
        self.update_q(true);
        15
    }
}

} // verus!
