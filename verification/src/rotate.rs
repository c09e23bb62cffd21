//! Accumulator rotates, the CB group (rotates, shifts, BIT, RES, SET), and
//! the nibble rotates RLD and RRD.

use vstd::prelude::*;
use crate::alu::{bit_flags, bit_test, rot8, rot8_spec, szp, szp_flags};
use crate::machine::{Bus, Outcome, Z80, quiet, reg8, set_reg8, with_q};
use crate::state::{CpuState, high};

verus! {

/// RLCA (0x07), RRCA (0x0F), RLA (0x17) or RRA (0x1F): S, Z, P/V kept,
/// H and N cleared, Y and X from the result, carry the bit shifted out.
pub open spec fn rot_a(s: CpuState, m: Map<u16, u8>, opcode: u8) -> Outcome {
    let a = s.a;
    let res = if opcode == 0x07 {
        (a << 1u8) | (a >> 7u8)
    } else if opcode == 0x0F {
        (a >> 1u8) | (a << 7u8)
    } else if opcode == 0x17 {
        (a << 1u8) | (s.f & 1)
    } else {
        (a >> 1u8) | ((s.f & 1) << 7u8)
    };
    let carry = if opcode == 0x07 || opcode == 0x17 {
        a >> 7u8
    } else {
        a & 1
    };
    quiet(
        with_q(CpuState { a: res, f: (s.f & 0xC4) | (res & 0x28) | carry, ..s }, true),
        m,
        4,
        seq![],
    )
}

/// The value after RES (`set` false) or SET (`set` true) of bit `bit`.
pub open spec fn res_set_value(v: u8, bit: u8, set: bool) -> u8 {
    if set {
        v | (1u8 << bit)
    } else {
        v & !(1u8 << bit)
    }
}

/// CB rotate or shift of register `sub & 7` (or (HL)).
pub open spec fn cb_rot(s: CpuState, m: Map<u16, u8>, sub: u8) -> Outcome {
    let idx = sub & 7;
    let r = rot8_spec((sub >> 3u8) & 7, reg8(s, m, idx), s.f);
    let m1 = if idx == 6 {
        m.insert(s.hl(), r.0)
    } else {
        m
    };
    quiet(with_q(CpuState { f: r.1, ..set_reg8(s, idx, r.0) }, true), m1, if idx == 6 {
        15
    } else {
        8
    }, seq![])
}

/// BIT b,r: Y and X from the register, or from the high byte of WZ for (HL).
pub open spec fn cb_bit(s: CpuState, m: Map<u16, u8>, sub: u8) -> Outcome {
    let idx = sub & 7;
    let v = reg8(s, m, idx);
    let xy = if idx == 6 {
        high(s.wz)
    } else {
        v
    };
    quiet(
        with_q(CpuState { f: bit_flags((sub >> 3u8) & 7, v, xy, s.f), ..s }, true),
        m,
        if idx == 6 {
            12
        } else {
            8
        },
        seq![],
    )
}

/// RES b,r (`set` false) or SET b,r (`set` true).
pub open spec fn cb_res_set(s: CpuState, m: Map<u16, u8>, sub: u8, set: bool) -> Outcome {
    let idx = sub & 7;
    let v = res_set_value(reg8(s, m, idx), (sub >> 3u8) & 7, set);
    let m1 = if idx == 6 {
        m.insert(s.hl(), v)
    } else {
        m
    };
    quiet(with_q(set_reg8(s, idx, v), false), m1, if idx == 6 {
        15
    } else {
        8
    }, seq![])
}

/// RRD (`left` false) or RLD (`left` true).
pub open spec fn rxd(s: CpuState, m: Map<u16, u8>, left: bool) -> Outcome {
    let t = m[s.hl()];
    let mem_byte = if left {
        (t << 4u8) | (s.a & 0x0F)
    } else {
        (s.a << 4u8) | (t >> 4u8)
    };
    let a = if left {
        (s.a & 0xF0) | (t >> 4u8)
    } else {
        (s.a & 0xF0) | (t & 0x0F)
    };
    quiet(
        with_q(
            CpuState { a, f: szp_flags(a) | (s.f & 0x01), wz: s.hl().wrapping_add(1), ..s },
            true,
        ),
        m.insert(s.hl(), mem_byte),
        18,
        seq![],
    )
}

impl<B: Bus> Z80<B> {
    fn op_rot_a(&mut self, opcode: u8) -> (t: u32)
        ensures
            final(self).ran(*old(self), rot_a(old(self)@, old(self).mem(), opcode), t),
    {
        let a = self.a;
        let f = self.f.byte();
        let res = if opcode == 0x07 {
            (a << 1u8) | (a >> 7u8)
        } else if opcode == 0x0F {
            (a >> 1u8) | (a << 7u8)
        } else if opcode == 0x17 {
            (a << 1u8) | (f & 1)
        } else {
            (a >> 1u8) | ((f & 1) << 7u8)
        };
        let carry = if opcode == 0x07 || opcode == 0x17 {
            a >> 7u8
        } else {
            a & 1
        };
        self.a = res;
        self.f.set_byte((f & 0xC4) | (res & 0x28) | carry);
        self.update_q(true);
        4
    }

    pub(crate) fn op_rlca(&mut self) -> (t: u32)
        ensures
            final(self).ran(*old(self), rot_a(old(self)@, old(self).mem(), 0x07), t),
    {
        self.op_rot_a(0x07)
    }

    pub(crate) fn op_rrca(&mut self) -> (t: u32)
        ensures
            final(self).ran(*old(self), rot_a(old(self)@, old(self).mem(), 0x0F), t),
    {
        self.op_rot_a(0x0F)
    }

    pub(crate) fn op_rla(&mut self) -> (t: u32)
        ensures
            final(self).ran(*old(self), rot_a(old(self)@, old(self).mem(), 0x17), t),
    {
        self.op_rot_a(0x17)
    }

    pub(crate) fn op_rra(&mut self) -> (t: u32)
        ensures
            final(self).ran(*old(self), rot_a(old(self)@, old(self).mem(), 0x1F), t),
    {
        self.op_rot_a(0x1F)
    }

    pub(crate) fn op_rot(&mut self, sub: u8) -> (t: u32)
        ensures
            final(self).ran(*old(self), cb_rot(old(self)@, old(self).mem(), sub), t),
    {
        let idx = sub & 7;
        let v = self.read_reg(idx);
        let (r, f) = rot8((sub >> 3u8) & 7, v, self.f.byte());
        self.write_reg(idx, r);
        self.f.set_byte(f);
        self.update_q(true);
        if idx == 6 {
            15
        } else {
            8
        }
    }

    pub(crate) fn op_bit(&mut self, sub: u8) -> (t: u32)
        ensures
            final(self).ran(*old(self), cb_bit(old(self)@, old(self).mem(), sub), t),
    {
        let idx = sub & 7;
        let v = self.read_reg(idx);
        let xy = if idx == 6 {
            (self.wz >> 8u16) as u8
        } else {
            v
        };
        assert((sub >> 3u8) & 7 < 8) by (bit_vector);
        let f = bit_test((sub >> 3u8) & 7, v, xy, self.f.byte());
        self.f.set_byte(f);
        self.update_q(true);
        if idx == 6 {
            12
        } else {
            8
        }
    }

    fn op_res_set(&mut self, sub: u8, set: bool) -> (t: u32)
        ensures
            final(self).ran(*old(self), cb_res_set(old(self)@, old(self).mem(), sub, set), t),
    {
        let idx = sub & 7;
        let bit = (sub >> 3u8) & 7;
        assert((sub >> 3u8) & 7 < 8) by (bit_vector);
        let v = self.read_reg(idx);
        let r = if set {
            v | (1u8 << bit)
        } else {
            v & !(1u8 << bit)
        };
        self.write_reg(idx, r);
        self.update_q(false);
        if idx == 6 {
            15
        } else {
            8
        }
    }

    pub(crate) fn op_res(&mut self, sub: u8) -> (t: u32)
        ensures
            final(self).ran(*old(self), cb_res_set(old(self)@, old(self).mem(), sub, false), t),
    {
        self.op_res_set(sub, false)
    }

    pub(crate) fn op_set(&mut self, sub: u8) -> (t: u32)
        ensures
            final(self).ran(*old(self), cb_res_set(old(self)@, old(self).mem(), sub, true), t),
    {
        self.op_res_set(sub, true)
    }

    fn op_rxd(&mut self, left: bool) -> (t: u32)
        ensures
            final(self).ran(*old(self), rxd(old(self)@, old(self).mem(), left), t),
    {
        let hl = self.hl();
        let t = self.read_mem(hl);
        let a = self.a;
        let mem_byte = if left {
            (t << 4u8) | (a & 0x0F)
        } else {
            (a << 4u8) | (t >> 4u8)
        };
        let na = if left {
            (a & 0xF0) | (t >> 4u8)
        } else {
            (a & 0xF0) | (t & 0x0F)
        };
        self.write_mem(hl, mem_byte);
        self.a = na;
        let f = szp(na) | (self.f.byte() & 0x01);
        self.f.set_byte(f);
        self.wz = hl.wrapping_add(1);
        self.update_q(true);
        18
    }

    pub(crate) fn op_rrd(&mut self) -> (t: u32)
        ensures
            final(self).ran(*old(self), rxd(old(self)@, old(self).mem(), false), t),
    {
        self.op_rxd(false)
    }

    pub(crate) fn op_rld(&mut self) -> (t: u32)
        ensures
            final(self).ran(*old(self), rxd(old(self)@, old(self).mem(), true), t),
    {
        self.op_rxd(true)
    }
}

} // verus!
