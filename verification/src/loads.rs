//! Loads, exchanges, and stack transfers.

use vstd::prelude::*;
use crate::alu::zero_bit;
use crate::machine::{
    Bus, Outcome, Z80, after_operand, push_mem, quiet, reg16, reg8, set_reg16, set_reg8, top_word,
    with_q, word,
};
use crate::state::{CpuState, pair, high, low};

verus! {

/// LD rr,nn.
pub open spec fn ld_rr_nn(s: CpuState, m: Map<u16, u8>, opcode: u8) -> Outcome {
    let lo = m[s.pc];
    let hi = m[s.pc.wrapping_add(1)];
    let s1 = after_operand(after_operand(s));
    quiet(with_q(set_reg16(s1, (opcode >> 4u8) & 3, word(lo, hi)), false), m, 10, seq![lo, hi])
}

/// LD r,r' (either side may be (HL), never both).
pub open spec fn ld_r_r(s: CpuState, m: Map<u16, u8>, opcode: u8) -> Outcome {
    let src = opcode & 7;
    let dst = (opcode >> 3u8) & 7;
    let v = reg8(s, m, src);
    let m1 = if dst == 6 {
        m.insert(s.hl(), v)
    } else {
        m
    };
    quiet(with_q(set_reg8(s, dst, v), false), m1, if src == 6 || dst == 6 {
        7
    } else {
        4
    }, seq![])
}

/// LD r,n and LD (HL),n.
pub open spec fn ld_r_n(s: CpuState, m: Map<u16, u8>, opcode: u8) -> Outcome {
    let n = m[s.pc];
    let dst = (opcode >> 3u8) & 7;
    let s1 = after_operand(s);
    let m1 = if dst == 6 {
        m.insert(s.hl(), n)
    } else {
        m
    };
    quiet(with_q(set_reg8(s1, dst, n), false), m1, if dst == 6 {
        10
    } else {
        7
    }, seq![n])
}

/// LD A,(BC) and LD A,(DE): `addr` is the pair's value.
pub open spec fn ld_a_irr(s: CpuState, m: Map<u16, u8>, addr: u16) -> Outcome {
    quiet(
        with_q(CpuState { a: m[addr], wz: addr.wrapping_add(1), ..s }, false),
        m,
        7,
        seq![],
    )
}

/// LD (BC),A and LD (DE),A: `addr` is the pair's value.
pub open spec fn ld_irr_a(s: CpuState, m: Map<u16, u8>, addr: u16) -> Outcome {
    quiet(
        with_q(CpuState { wz: pair(s.a, low(addr.wrapping_add(1))), ..s }, false),
        m.insert(addr, s.a),
        7,
        seq![],
    )
}

/// LD A,(nn).
pub open spec fn ld_a_inn(s: CpuState, m: Map<u16, u8>) -> Outcome {
    let lo = m[s.pc];
    let hi = m[s.pc.wrapping_add(1)];
    let nn = word(lo, hi);
    let s1 = after_operand(after_operand(s));
    quiet(with_q(CpuState { a: m[nn], wz: nn.wrapping_add(1), ..s1 }, false), m, 13, seq![lo, hi])
}

/// LD (nn),A.
pub open spec fn ld_inn_a(s: CpuState, m: Map<u16, u8>) -> Outcome {
    let lo = m[s.pc];
    let hi = m[s.pc.wrapping_add(1)];
    let nn = word(lo, hi);
    let s1 = after_operand(after_operand(s));
    quiet(
        with_q(CpuState { wz: pair(s.a, low(nn.wrapping_add(1))), ..s1 }, false),
        m.insert(nn, s.a),
        13,
        seq![lo, hi],
    )
}

/// LD (nn),rr for pair `k` (BC, DE, HL, SP), in `t` T-states.
pub open spec fn ld_nn_rr(s: CpuState, m: Map<u16, u8>, k: u8, t: u32) -> Outcome {
    let lo = m[s.pc];
    let hi = m[s.pc.wrapping_add(1)];
    let nn = word(lo, hi);
    let v = reg16(s, k);
    let s1 = after_operand(after_operand(s));
    quiet(
        with_q(CpuState { wz: nn.wrapping_add(1), ..s1 }, false),
        m.insert(nn, low(v)).insert(nn.wrapping_add(1), high(v)),
        t,
        seq![lo, hi],
    )
}

/// LD rr,(nn) for pair `k` (BC, DE, HL, SP), in `t` T-states.
pub open spec fn ld_rr_inn(s: CpuState, m: Map<u16, u8>, k: u8, t: u32) -> Outcome {
    let lo = m[s.pc];
    let hi = m[s.pc.wrapping_add(1)];
    let nn = word(lo, hi);
    let v = word(m[nn], m[nn.wrapping_add(1)]);
    let s1 = after_operand(after_operand(s));
    quiet(
        with_q(set_reg16(CpuState { wz: nn.wrapping_add(1), ..s1 }, k, v), false),
        m,
        t,
        seq![lo, hi],
    )
}

/// LD SP,HL.
pub open spec fn ld_sp_hl(s: CpuState, m: Map<u16, u8>) -> Outcome {
    quiet(with_q(CpuState { sp: s.hl(), ..s }, false), m, 6, seq![])
}

/// EX AF,AF'.
pub open spec fn ex_af_af(s: CpuState, m: Map<u16, u8>) -> Outcome {
    quiet(
        with_q(CpuState { a: high(s.af_alt), f: low(s.af_alt), af_alt: s.af(), ..s }, false),
        m,
        4,
        seq![],
    )
}

/// EXX.
pub open spec fn exx(s: CpuState, m: Map<u16, u8>) -> Outcome {
    let s1 = CpuState { bc_alt: s.bc(), de_alt: s.de(), hl_alt: s.hl(), ..s };
    quiet(
        with_q(s1.with_bc(s.bc_alt).with_de(s.de_alt).with_hl(s.hl_alt), false),
        m,
        4,
        seq![],
    )
}

/// EX DE,HL.
pub open spec fn ex_de_hl(s: CpuState, m: Map<u16, u8>) -> Outcome {
    quiet(with_q(s.with_de(s.hl()).with_hl(s.de()), false), m, 4, seq![])
}

/// EX (SP),HL.
pub open spec fn ex_sp_hl(s: CpuState, m: Map<u16, u8>) -> Outcome {
    let v = top_word(s, m);
    quiet(
        with_q(CpuState { wz: v, ..s.with_hl(v) }, false),
        m.insert(s.sp, s.l).insert(s.sp.wrapping_add(1), s.h),
        19,
        seq![],
    )
}

/// PUSH rr for pair `k` (BC, DE, HL).
pub open spec fn push_rr(s: CpuState, m: Map<u16, u8>, k: u8) -> Outcome {
    quiet(
        with_q(CpuState { sp: s.sp.wrapping_sub(2), ..s }, false),
        push_mem(s, m, reg16(s, k)),
        11,
        seq![],
    )
}

/// POP rr for pair `k` (BC, DE, HL).
pub open spec fn pop_rr(s: CpuState, m: Map<u16, u8>, k: u8) -> Outcome {
    let v = top_word(s, m);
    quiet(
        with_q(set_reg16(CpuState { sp: s.sp.wrapping_add(2), ..s }, k, v), false),
        m,
        10,
        seq![],
    )
}

/// PUSH AF.
pub open spec fn push_af(s: CpuState, m: Map<u16, u8>) -> Outcome {
    quiet(
        with_q(CpuState { sp: s.sp.wrapping_sub(2), ..s }, false),
        push_mem(s, m, s.af()),
        11,
        seq![],
    )
}

/// POP AF.
pub open spec fn pop_af(s: CpuState, m: Map<u16, u8>) -> Outcome {
    let v = top_word(s, m);
    quiet(
        with_q(CpuState { sp: s.sp.wrapping_add(2), a: high(v), f: low(v), ..s }, false),
        m,
        10,
        seq![],
    )
}

/// LD I,A.
pub open spec fn ld_i_a(s: CpuState, m: Map<u16, u8>) -> Outcome {
    quiet(with_q(CpuState { i: s.a, ..s }, false), m, 9, seq![])
}

/// LD R,A.
pub open spec fn ld_r_a(s: CpuState, m: Map<u16, u8>) -> Outcome {
    quiet(with_q(CpuState { r: s.a, ..s }, false), m, 9, seq![])
}

/// The flags of LD A,I and LD A,R for the loaded value `v`: P/V is IFF2.
pub open spec fn ld_a_ir_flags(v: u8, iff2: bool, f: u8) -> u8 {
    (v & 0xA8) | zero_bit(v) | (if iff2 {
        0x04u8
    } else {
        0
    }) | (f & 0x01)
}

/// LD A,I.
pub open spec fn ld_a_i(s: CpuState, m: Map<u16, u8>) -> Outcome {
    quiet(
        with_q(CpuState { a: s.i, f: ld_a_ir_flags(s.i, s.iff2, s.f), ..s }, true),
        m,
        9,
        seq![],
    )
}

/// LD A,R.
pub open spec fn ld_a_r(s: CpuState, m: Map<u16, u8>) -> Outcome {
    quiet(
        with_q(CpuState { a: s.r, f: ld_a_ir_flags(s.r, s.iff2, s.f), ..s }, true),
        m,
        9,
        seq![],
    )
}

impl<B: Bus> Z80<B> {
    pub(crate) fn ld_a_ir_flags(&self, v: u8) -> (f: u8)
        ensures
            f == ld_a_ir_flags(v, self@.iff2, self@.f),
    {
        (v & 0xA8) | (if v == 0 {
            0x40u8
        } else {
            0
        }) | (if self.iff2 {
            0x04u8
        } else {
            0
        }) | (self.f.byte() & 0x01)
    }

    pub(crate) fn op_ld_rr_nn(&mut self, opcode: u8) -> (t: u32)
        ensures
            final(self).ran(*old(self), ld_rr_nn(old(self)@, old(self).mem(), opcode), t),
    {
        let v = self.read_operand_word();
        self.set_rr((opcode >> 4u8) & 3, v);
        self.update_q(false);
        10
    }

    pub(crate) fn op_ld_r_r(&mut self, opcode: u8) -> (t: u32)
        ensures
            final(self).ran(*old(self), ld_r_r(old(self)@, old(self).mem(), opcode), t),
    {
        let src = opcode & 7;
        let dst = (opcode >> 3u8) & 7;
        let v = self.read_reg(src);
        self.write_reg(dst, v);
        self.update_q(false);
        if src == 6 || dst == 6 {
            7
        } else {
            4
        }
    }

    pub(crate) fn op_ld_r_n(&mut self, opcode: u8) -> (t: u32)
        ensures
            final(self).ran(*old(self), ld_r_n(old(self)@, old(self).mem(), opcode), t),
    {
        let n = self.read_operand_byte();
        let dst = (opcode >> 3u8) & 7;
        self.write_reg(dst, n);
        self.update_q(false);
        if dst == 6 {
            10
        } else {
            7
        }
    }

    pub(crate) fn op_ld_a_irr(&mut self, addr: u16) -> (t: u32)
        ensures
            final(self).ran(*old(self), ld_a_irr(old(self)@, old(self).mem(), addr), t),
    {
        self.a = self.read_mem(addr);
        self.wz = addr.wrapping_add(1);
        self.update_q(false);
        7
    }

    pub(crate) fn op_ld_irr_a(&mut self, addr: u16) -> (t: u32)
        ensures
            final(self).ran(*old(self), ld_irr_a(old(self)@, old(self).mem(), addr), t),
    {
        let a = self.a;
        self.write_mem(addr, a);
        self.wz = ((a as u16) << 8u16) | ((addr.wrapping_add(1) as u8) as u16);
        self.update_q(false);
        7
    }

    pub(crate) fn op_ld_a_inn(&mut self) -> (t: u32)
        ensures
            final(self).ran(*old(self), ld_a_inn(old(self)@, old(self).mem()), t),
    {
        let nn = self.read_operand_word();
        self.a = self.read_mem(nn);
        self.wz = nn.wrapping_add(1);
        self.update_q(false);
        13
    }

    pub(crate) fn op_ld_inn_a(&mut self) -> (t: u32)
        ensures
            final(self).ran(*old(self), ld_inn_a(old(self)@, old(self).mem()), t),
    {
        let nn = self.read_operand_word();
        let a = self.a;
        self.write_mem(nn, a);
        self.wz = ((a as u16) << 8u16) | ((nn.wrapping_add(1) as u8) as u16);
        self.update_q(false);
        13
    }

    /// LD (nn),rr: `k` selects BC, DE, HL or SP; `t` is the documented total.
    pub(crate) fn op_ld_nn_rr_t(&mut self, k: u8, t: u32) -> (r: u32)
        ensures
            final(self).ran(*old(self), ld_nn_rr(old(self)@, old(self).mem(), k, t), r),
    {
        let nn = self.read_operand_word();
        let v = self.get_rr(k);
        self.write_mem(nn, v as u8);
        self.write_mem(nn.wrapping_add(1), (v >> 8u16) as u8);
        self.wz = nn.wrapping_add(1);
        self.update_q(false);
        t
    }

    /// LD rr,(nn): `k` selects BC, DE, HL or SP; `t` is the documented total.
    pub(crate) fn op_ld_rr_inn_t(&mut self, k: u8, t: u32) -> (r: u32)
        ensures
            final(self).ran(*old(self), ld_rr_inn(old(self)@, old(self).mem(), k, t), r),
    {
        let nn = self.read_operand_word();
        let lo = self.read_mem(nn);
        let hi = self.read_mem(nn.wrapping_add(1));
        self.wz = nn.wrapping_add(1);
        self.set_rr(k, ((hi as u16) << 8u16) | (lo as u16));
        self.update_q(false);
        t
    }

    /// LD (nn),HL.
    pub(crate) fn op_ld_nn_hl(&mut self) -> (t: u32)
        ensures
            final(self).ran(*old(self), ld_nn_rr(old(self)@, old(self).mem(), 2, 16), t),
    {
        self.op_ld_nn_rr_t(2, 16)
    }

    /// LD HL,(nn).
    pub(crate) fn op_ld_hl_nn_from_mem(&mut self) -> (t: u32)
        ensures
            final(self).ran(*old(self), ld_rr_inn(old(self)@, old(self).mem(), 2, 16), t),
    {
        self.op_ld_rr_inn_t(2, 16)
    }

    /// ED LD (nn),rr.
    pub(crate) fn op_ld_nn_rr(&mut self, k: u8) -> (t: u32)
        ensures
            final(self).ran(*old(self), ld_nn_rr(old(self)@, old(self).mem(), k, 20), t),
    {
        self.op_ld_nn_rr_t(k, 20)
    }

    /// ED LD rr,(nn).
    pub(crate) fn op_ld_rr_nn_from_mem(&mut self, k: u8) -> (t: u32)
        ensures
            final(self).ran(*old(self), ld_rr_inn(old(self)@, old(self).mem(), k, 20), t),
    {
        self.op_ld_rr_inn_t(k, 20)
    }

    pub(crate) fn op_ld_sp_hl(&mut self) -> (t: u32)
        ensures
            final(self).ran(*old(self), ld_sp_hl(old(self)@, old(self).mem()), t),
    {
        self.sp = self.hl();
        self.update_q(false);
        6
    }

    pub(crate) fn op_ex_af_af(&mut self) -> (t: u32)
        ensures
            final(self).ran(*old(self), ex_af_af(old(self)@, old(self).mem()), t),
    {
        let af = ((self.a as u16) << 8u16) | (self.f.byte() as u16);
        let alt = self.af_;
        self.a = (alt >> 8u16) as u8;
        self.f.set_byte(alt as u8);
        self.af_ = af;
        self.update_q(false);
        4
    }

    pub(crate) fn op_exx(&mut self) -> (t: u32)
        ensures
            final(self).ran(*old(self), exx(old(self)@, old(self).mem()), t),
    {
        let bc = self.bc();
        let de = self.de();
        let hl = self.hl();
        let (bc2, de2, hl2) = (self.bc_, self.de_, self.hl_);
        self.bc_ = bc;
        self.de_ = de;
        self.hl_ = hl;
        self.set_bc(bc2);
        self.set_de(de2);
        self.set_hl(hl2);
        self.update_q(false);
        4
    }

    pub(crate) fn op_ex_de_hl(&mut self) -> (t: u32)
        ensures
            final(self).ran(*old(self), ex_de_hl(old(self)@, old(self).mem()), t),
    {
        let de = self.de();
        let hl = self.hl();
        self.set_de(hl);
        self.set_hl(de);
        self.update_q(false);
        4
    }

    pub(crate) fn op_ex_sp_hl(&mut self) -> (t: u32)
        ensures
            final(self).ran(*old(self), ex_sp_hl(old(self)@, old(self).mem()), t),
    {
        let sp = self.sp;
        let lo = self.read_mem(sp);
        let hi = self.read_mem(sp.wrapping_add(1));
        let (h, l) = (self.h, self.l);
        self.write_mem(sp, l);
        self.write_mem(sp.wrapping_add(1), h);
        let v = ((hi as u16) << 8u16) | (lo as u16);
        self.set_hl(v);
        self.wz = v;
        self.update_q(false);
        19
    }

    pub(crate) fn op_push_rr(&mut self, opcode: u8) -> (t: u32)
        ensures
            final(self).ran(*old(self), push_rr(old(self)@, old(self).mem(), (opcode >> 4u8) & 3), t),
    {
        let v = self.get_rr((opcode >> 4u8) & 3);
        self.push_word(v);
        self.update_q(false);
        11
    }

    pub(crate) fn op_pop_rr(&mut self, opcode: u8) -> (t: u32)
        ensures
            final(self).ran(*old(self), pop_rr(old(self)@, old(self).mem(), (opcode >> 4u8) & 3), t),
    {
        let v = self.pop_word();
        self.set_rr((opcode >> 4u8) & 3, v);
        self.update_q(false);
        10
    }

    pub(crate) fn op_push_af(&mut self) -> (t: u32)
        ensures
            final(self).ran(*old(self), push_af(old(self)@, old(self).mem()), t),
    {
        let v = ((self.a as u16) << 8u16) | (self.f.byte() as u16);
        self.push_word(v);
        self.update_q(false);
        11
    }

    pub(crate) fn op_pop_af(&mut self) -> (t: u32)
        ensures
            final(self).ran(*old(self), pop_af(old(self)@, old(self).mem()), t),
    {
        let v = self.pop_word();
        self.a = (v >> 8u16) as u8;
        self.f.set_byte(v as u8);
        self.update_q(false);
        10
    }

    pub(crate) fn op_ld_i_a(&mut self) -> (t: u32)
        ensures
            final(self).ran(*old(self), ld_i_a(old(self)@, old(self).mem()), t),
    {
        self.i = self.a;
        self.update_q(false);
        9
    }

    pub(crate) fn op_ld_r_a(&mut self) -> (t: u32)
        ensures
            final(self).ran(*old(self), ld_r_a(old(self)@, old(self).mem()), t),
    {
        self.r = self.a;
        self.update_q(false);
        9
    }

    pub(crate) fn op_ld_a_i(&mut self) -> (t: u32)
        ensures
            final(self).ran(*old(self), ld_a_i(old(self)@, old(self).mem()), t),
    {
        let v = self.i;
        let f = self.ld_a_ir_flags(v);
        self.a = v;
        self.f.set_byte(f);
        self.update_q(true);
        9
    }

    pub(crate) fn op_ld_a_r(&mut self) -> (t: u32)
        ensures
            final(self).ran(*old(self), ld_a_r(old(self)@, old(self).mem()), t),
    {
        let v = self.r;
        let f = self.ld_a_ir_flags(v);
        self.a = v;
        self.f.set_byte(f);
        self.update_q(true);
        9
    }
}

} // verus!
