//! Instructions under a DD (IX) or FD (IY) prefix that use the index
//! register: (IX+d) memory operands, the IXH/IXL halves, 16-bit IX
//! arithmetic and transfers, and the DDCB group. T-state totals include
//! the prefix where the handler takes it; the others count only the
//! instruction after it.

use vstd::prelude::*;
use crate::alu::{
    add16, add16_spec, alu8, alu8_spec, bit_flags, bit_test, dec8, dec8_spec, inc8, inc8_spec,
    rot8, rot8_spec,
};
use crate::machine::{
    Bus, Outcome, Z80, after_operand, index_reg, ireg8, push_mem, quiet, reg16, reg8,
    set_index_reg, set_ireg8, set_reg8, top_word, with_q, word,
};
use crate::rotate::res_set_value;
use crate::state::{CpuState, high, low};

verus! {

/// The address (IX+d) or (IY+d).
pub open spec fn index_addr(s: CpuState, prefix: u8, d: u8) -> u16 {
    index_reg(s, prefix).wrapping_add(d as i8 as i16 as u16)
}

/// Register pair `k` under a prefix: HL names the index register.
pub open spec fn ireg16(s: CpuState, prefix: u8, k: u8) -> u16 {
    if k == 2 {
        index_reg(s, prefix)
    } else {
        reg16(s, k)
    }
}

/// DDCB rotate or shift of (IX+d); the result is also copied into register
/// `op & 7` unless that is 6.
pub open spec fn index_rot(s: CpuState, m: Map<u16, u8>, prefix: u8, d: u8, op: u8) -> Outcome {
    let addr = index_addr(s, prefix, d);
    let r = rot8_spec((op >> 3u8) & 7, m[addr], s.f);
    quiet(
        with_q(CpuState { f: r.1, wz: addr, ..set_reg8(s, op & 7, r.0) }, true),
        m.insert(addr, r.0),
        23,
        seq![],
    )
}

/// DDCB BIT b,(IX+d): Y and X from the high byte of the address.
pub open spec fn index_bit(s: CpuState, m: Map<u16, u8>, prefix: u8, d: u8, op: u8) -> Outcome {
    let addr = index_addr(s, prefix, d);
    quiet(
        with_q(
            CpuState { f: bit_flags((op >> 3u8) & 7, m[addr], high(addr), s.f), wz: addr, ..s },
            true,
        ),
        m,
        20,
        seq![],
    )
}

/// DDCB RES/SET b,(IX+d), the result also copied into register `op & 7`
/// unless that is 6.
pub open spec fn index_res_set(
    s: CpuState,
    m: Map<u16, u8>,
    prefix: u8,
    d: u8,
    op: u8,
    set: bool,
) -> Outcome {
    let addr = index_addr(s, prefix, d);
    let v = res_set_value(m[addr], (op >> 3u8) & 7, set);
    quiet(with_q(CpuState { wz: addr, ..set_reg8(s, op & 7, v) }, false), m.insert(addr, v), 23, seq![])
}

/// LD r,r' with H and L naming the index halves (no memory operand).
pub open spec fn ld_ireg_ireg(s: CpuState, m: Map<u16, u8>, prefix: u8, sub: u8) -> Outcome {
    let v = ireg8(s, prefix, sub & 7);
    quiet(with_q(set_ireg8(s, prefix, (sub >> 3u8) & 7, v), false), m, 4, seq![])
}

/// LD IXH,n and LD IXL,n.
pub open spec fn ld_ireg_n(s: CpuState, m: Map<u16, u8>, prefix: u8, sub: u8) -> Outcome {
    let n = m[s.pc];
    quiet(
        with_q(set_ireg8(after_operand(s), prefix, (sub >> 3u8) & 7, n), false),
        m,
        7,
        seq![n],
    )
}

/// INC/DEC IXH and IXL (opcode bit 0 selects DEC).
pub open spec fn inc_dec_ireg(s: CpuState, m: Map<u16, u8>, prefix: u8, sub: u8) -> Outcome {
    let idx = (sub >> 3u8) & 7;
    let v = ireg8(s, prefix, idx);
    let r = if sub & 1 == 0 {
        inc8_spec(v, s.f)
    } else {
        dec8_spec(v, s.f)
    };
    quiet(with_q(CpuState { f: r.1, ..set_ireg8(s, prefix, idx, r.0) }, true), m, 4, seq![])
}

/// ALU A,IXH and ALU A,IXL.
pub open spec fn alu_ireg(s: CpuState, m: Map<u16, u8>, prefix: u8, sub: u8) -> Outcome {
    let r = alu8_spec((sub >> 3u8) & 7, s.a, ireg8(s, prefix, sub & 7), s.f);
    quiet(with_q(CpuState { a: r.0, f: r.1, ..s }, true), m, 4, seq![])
}

/// ADD IX,rr (rr may be IX itself).
pub open spec fn add_index_rr(s: CpuState, m: Map<u16, u8>, prefix: u8, sub: u8) -> Outcome {
    let x = index_reg(s, prefix);
    let r = add16_spec(x, ireg16(s, prefix, (sub >> 4u8) & 3), s.f);
    quiet(
        with_q(CpuState { f: r.1, wz: x.wrapping_add(1), ..set_index_reg(s, prefix, r.0) }, true),
        m,
        15,
        seq![],
    )
}

/// LD IX,nn.
pub open spec fn ld_index_nn(s: CpuState, m: Map<u16, u8>, prefix: u8) -> Outcome {
    let lo = m[s.pc];
    let hi = m[s.pc.wrapping_add(1)];
    quiet(
        with_q(set_index_reg(after_operand(after_operand(s)), prefix, word(lo, hi)), false),
        m,
        14,
        seq![lo, hi],
    )
}

/// LD (nn),IX.
pub open spec fn ld_nn_index(s: CpuState, m: Map<u16, u8>, prefix: u8) -> Outcome {
    let lo = m[s.pc];
    let hi = m[s.pc.wrapping_add(1)];
    let nn = word(lo, hi);
    let x = index_reg(s, prefix);
    quiet(
        with_q(CpuState { wz: nn.wrapping_add(1), ..after_operand(after_operand(s)) }, false),
        m.insert(nn, low(x)).insert(nn.wrapping_add(1), high(x)),
        20,
        seq![lo, hi],
    )
}

/// LD IX,(nn).
pub open spec fn ld_index_inn(s: CpuState, m: Map<u16, u8>, prefix: u8) -> Outcome {
    let lo = m[s.pc];
    let hi = m[s.pc.wrapping_add(1)];
    let nn = word(lo, hi);
    let v = word(m[nn], m[nn.wrapping_add(1)]);
    quiet(
        with_q(
            set_index_reg(
                CpuState { wz: nn.wrapping_add(1), ..after_operand(after_operand(s)) },
                prefix,
                v,
            ),
            false,
        ),
        m,
        20,
        seq![lo, hi],
    )
}

/// INC IX (`up` true) or DEC IX.
pub open spec fn inc_dec_index(s: CpuState, m: Map<u16, u8>, prefix: u8, up: bool) -> Outcome {
    let x = index_reg(s, prefix);
    quiet(with_q(set_index_reg(s, prefix, if up {
        x.wrapping_add(1)
    } else {
        x.wrapping_sub(1)
    }), false), m, 10, seq![])
}

/// INC (IX+d) (`up` true) or DEC (IX+d).
pub open spec fn inc_dec_index_mem(s: CpuState, m: Map<u16, u8>, prefix: u8, up: bool) -> Outcome {
    let d = m[s.pc];
    let addr = index_addr(s, prefix, d);
    let r = if up {
        inc8_spec(m[addr], s.f)
    } else {
        dec8_spec(m[addr], s.f)
    };
    quiet(
        with_q(CpuState { f: r.1, wz: addr, ..after_operand(s) }, true),
        m.insert(addr, r.0),
        23,
        seq![d],
    )
}

/// LD (IX+d),n.
pub open spec fn ld_index_mem_n(s: CpuState, m: Map<u16, u8>, prefix: u8) -> Outcome {
    let d = m[s.pc];
    let n = m[s.pc.wrapping_add(1)];
    let addr = index_addr(s, prefix, d);
    quiet(
        with_q(CpuState { wz: addr, ..after_operand(after_operand(s)) }, false),
        m.insert(addr, n),
        19,
        seq![d, n],
    )
}

/// LD r,(IX+d): H and L are the real H and L here.
pub open spec fn ld_r_index_mem(s: CpuState, m: Map<u16, u8>, prefix: u8, sub: u8) -> Outcome {
    let d = m[s.pc];
    let addr = index_addr(s, prefix, d);
    quiet(
        with_q(CpuState { wz: addr, ..set_reg8(after_operand(s), (sub >> 3u8) & 7, m[addr]) }, false),
        m,
        19,
        seq![d],
    )
}

/// LD (IX+d),r: H and L are the real H and L here.
pub open spec fn ld_index_mem_r(s: CpuState, m: Map<u16, u8>, prefix: u8, sub: u8) -> Outcome {
    let d = m[s.pc];
    let addr = index_addr(s, prefix, d);
    quiet(
        with_q(CpuState { wz: addr, ..after_operand(s) }, false),
        m.insert(addr, reg8(s, m, sub & 7)),
        19,
        seq![d],
    )
}

/// ALU A,(IX+d).
pub open spec fn alu_index_mem(s: CpuState, m: Map<u16, u8>, prefix: u8, sub: u8) -> Outcome {
    let d = m[s.pc];
    let addr = index_addr(s, prefix, d);
    let r = alu8_spec((sub >> 3u8) & 7, s.a, m[addr], s.f);
    quiet(with_q(CpuState { a: r.0, f: r.1, wz: addr, ..after_operand(s) }, true), m, 19, seq![d])
}

/// POP IX.
pub open spec fn pop_index(s: CpuState, m: Map<u16, u8>, prefix: u8) -> Outcome {
    quiet(
        with_q(
            set_index_reg(CpuState { sp: s.sp.wrapping_add(2), ..s }, prefix, top_word(s, m)),
            false,
        ),
        m,
        14,
        seq![],
    )
}

/// PUSH IX.
pub open spec fn push_index(s: CpuState, m: Map<u16, u8>, prefix: u8) -> Outcome {
    quiet(
        with_q(CpuState { sp: s.sp.wrapping_sub(2), ..s }, false),
        push_mem(s, m, index_reg(s, prefix)),
        15,
        seq![],
    )
}

/// EX (SP),IX.
pub open spec fn ex_sp_index(s: CpuState, m: Map<u16, u8>, prefix: u8) -> Outcome {
    let v = top_word(s, m);
    let x = index_reg(s, prefix);
    quiet(
        with_q(CpuState { wz: v, ..set_index_reg(s, prefix, v) }, false),
        m.insert(s.sp, low(x)).insert(s.sp.wrapping_add(1), high(x)),
        23,
        seq![],
    )
}

/// JP (IX).
pub open spec fn jp_index(s: CpuState, m: Map<u16, u8>, prefix: u8) -> Outcome {
    quiet(with_q(CpuState { pc: index_reg(s, prefix), ..s }, false), m, 8, seq![])
}

/// LD SP,IX.
pub open spec fn ld_sp_index(s: CpuState, m: Map<u16, u8>, prefix: u8) -> Outcome {
    quiet(with_q(CpuState { sp: index_reg(s, prefix), ..s }, false), m, 10, seq![])
}

impl<B: Bus> Z80<B> {
    fn index_address(&self, prefix: u8, d: u8) -> (addr: u16)
        ensures
            addr == index_addr(self@, prefix, d),
    {
        self.get_index(prefix).wrapping_add(d as i8 as i16 as u16)
    }

    pub(crate) fn op_index_rot(&mut self, prefix: u8, d: u8, op: u8) -> (t: u32)
        ensures
            final(self).ran(*old(self), index_rot(old(self)@, old(self).mem(), prefix, d, op), t),
    {
        let addr = self.index_address(prefix, d);
        let v = self.read_mem(addr);
        let (r, f) = rot8((op >> 3u8) & 7, v, self.f.byte());
        self.write_mem(addr, r);
        if op & 7 != 6 {
            self.write_reg(op & 7, r);
        }
        self.f.set_byte(f);
        self.wz = addr;
        self.update_q(true);
        23
    }

    pub(crate) fn op_index_bit(&mut self, prefix: u8, d: u8, op: u8) -> (t: u32)
        ensures
            final(self).ran(*old(self), index_bit(old(self)@, old(self).mem(), prefix, d, op), t),
    {
        let addr = self.index_address(prefix, d);
        let v = self.read_mem(addr);
        assert((op >> 3u8) & 7 < 8) by (bit_vector);
        let f = bit_test((op >> 3u8) & 7, v, (addr >> 8u16) as u8, self.f.byte());
        self.f.set_byte(f);
        self.wz = addr;
        self.update_q(true);
        20
    }

    pub(crate) fn op_index_res_set(&mut self, prefix: u8, d: u8, op: u8, set: bool) -> (t: u32)
        ensures
            final(self).ran(
                *old(self),
                index_res_set(old(self)@, old(self).mem(), prefix, d, op, set),
                t,
            ),
    {
        let addr = self.index_address(prefix, d);
        let v = self.read_mem(addr);
        let bit = (op >> 3u8) & 7;
        assert((op >> 3u8) & 7 < 8) by (bit_vector);
        let r = if set {
            v | (1u8 << bit)
        } else {
            v & !(1u8 << bit)
        };
        self.write_mem(addr, r);
        if op & 7 != 6 {
            self.write_reg(op & 7, r);
        }
        self.wz = addr;
        self.update_q(false);
        23
    }

    pub(crate) fn op_ld_ireg_ireg(&mut self, prefix: u8, sub: u8) -> (t: u32)
        requires
            sub & 7 != 6,
            (sub >> 3u8) & 7 != 6,
        ensures
            final(self).ran(*old(self), ld_ireg_ireg(old(self)@, old(self).mem(), prefix, sub), t),
    {
        let v = self.get_ireg(prefix, sub & 7);
        self.set_ireg(prefix, (sub >> 3u8) & 7, v);
        self.update_q(false);
        4
    }

    pub(crate) fn op_ld_ireg_n(&mut self, prefix: u8, sub: u8) -> (t: u32)
        requires
            (sub >> 3u8) & 7 != 6,
        ensures
            final(self).ran(*old(self), ld_ireg_n(old(self)@, old(self).mem(), prefix, sub), t),
    {
        let n = self.read_operand_byte();
        self.set_ireg(prefix, (sub >> 3u8) & 7, n);
        self.update_q(false);
        7
    }

    pub(crate) fn op_inc_dec_ireg(&mut self, prefix: u8, sub: u8) -> (t: u32)
        requires
            (sub >> 3u8) & 7 != 6,
        ensures
            final(self).ran(*old(self), inc_dec_ireg(old(self)@, old(self).mem(), prefix, sub), t),
    {
        let idx = (sub >> 3u8) & 7;
        let v = self.get_ireg(prefix, idx);
        let (r, f) = if sub & 1 == 0 {
            inc8(v, self.f.byte())
        } else {
            dec8(v, self.f.byte())
        };
        self.set_ireg(prefix, idx, r);
        self.f.set_byte(f);
        self.update_q(true);
        4
    }

    pub(crate) fn op_alu_ireg(&mut self, prefix: u8, sub: u8) -> (t: u32)
        requires
            sub & 7 != 6,
        ensures
            final(self).ran(*old(self), alu_ireg(old(self)@, old(self).mem(), prefix, sub), t),
    {
        let v = self.get_ireg(prefix, sub & 7);
        let (a, f) = alu8((sub >> 3u8) & 7, self.a, v, self.f.byte());
        self.a = a;
        self.f.set_byte(f);
        self.update_q(true);
        4
    }

    pub(crate) fn op_add_index_rr(&mut self, prefix: u8, sub: u8) -> (t: u32)
        ensures
            final(self).ran(*old(self), add_index_rr(old(self)@, old(self).mem(), prefix, sub), t),
    {
        let x = self.get_index(prefix);
        let k = (sub >> 4u8) & 3;
        let v = if k == 2 {
            x
        } else {
            self.get_rr(k)
        };
        let (r, f) = add16(x, v, self.f.byte());
        self.set_index(prefix, r);
        self.f.set_byte(f);
        self.wz = x.wrapping_add(1);
        self.update_q(true);
        15
    }

    pub(crate) fn op_ld_index_nn(&mut self, prefix: u8) -> (t: u32)
        ensures
            final(self).ran(*old(self), ld_index_nn(old(self)@, old(self).mem(), prefix), t),
    {
        let v = self.read_operand_word();
        self.set_index(prefix, v);
        self.update_q(false);
        14
    }

    pub(crate) fn op_ld_nn_index(&mut self, prefix: u8) -> (t: u32)
        ensures
            final(self).ran(*old(self), ld_nn_index(old(self)@, old(self).mem(), prefix), t),
    {
        let nn = self.read_operand_word();
        let x = self.get_index(prefix);
        self.write_mem(nn, x as u8);
        self.write_mem(nn.wrapping_add(1), (x >> 8u16) as u8);
        self.wz = nn.wrapping_add(1);
        self.update_q(false);
        20
    }

    pub(crate) fn op_ld_index_nn_from_mem(&mut self, prefix: u8) -> (t: u32)
        ensures
            final(self).ran(*old(self), ld_index_inn(old(self)@, old(self).mem(), prefix), t),
    {
        let nn = self.read_operand_word();
        let lo = self.read_mem(nn);
        let hi = self.read_mem(nn.wrapping_add(1));
        self.wz = nn.wrapping_add(1);
        self.set_index(prefix, ((hi as u16) << 8u16) | (lo as u16));
        self.update_q(false);
        20
    }

    fn op_inc_dec_index(&mut self, prefix: u8, up: bool) -> (t: u32)
        ensures
            final(self).ran(*old(self), inc_dec_index(old(self)@, old(self).mem(), prefix, up), t),
    {
        let x = self.get_index(prefix);
        self.set_index(prefix, if up {
            x.wrapping_add(1)
        } else {
            x.wrapping_sub(1)
        });
        self.update_q(false);
        10
    }

    pub(crate) fn op_inc_index(&mut self, prefix: u8) -> (t: u32)
        ensures
            final(self).ran(*old(self), inc_dec_index(old(self)@, old(self).mem(), prefix, true), t),
    {
        self.op_inc_dec_index(prefix, true)
    }

    pub(crate) fn op_dec_index(&mut self, prefix: u8) -> (t: u32)
        ensures
            final(self).ran(*old(self), inc_dec_index(old(self)@, old(self).mem(), prefix, false), t),
    {
        self.op_inc_dec_index(prefix, false)
    }

    fn op_inc_dec_index_mem(&mut self, prefix: u8, up: bool) -> (t: u32)
        ensures
            final(self).ran(
                *old(self),
                inc_dec_index_mem(old(self)@, old(self).mem(), prefix, up),
                t,
            ),
    {
        let x = self.get_index(prefix);
        let d = self.read_operand_byte();
        let addr = x.wrapping_add(d as i8 as i16 as u16);
        let v = self.read_mem(addr);
        let (r, f) = if up {
            inc8(v, self.f.byte())
        } else {
            dec8(v, self.f.byte())
        };
        self.write_mem(addr, r);
        self.f.set_byte(f);
        self.wz = addr;
        self.update_q(true);
        23
    }

    pub(crate) fn op_inc_index_mem(&mut self, prefix: u8) -> (t: u32)
        ensures
            final(self).ran(
                *old(self),
                inc_dec_index_mem(old(self)@, old(self).mem(), prefix, true),
                t,
            ),
    {
        self.op_inc_dec_index_mem(prefix, true)
    }

    pub(crate) fn op_dec_index_mem(&mut self, prefix: u8) -> (t: u32)
        ensures
            final(self).ran(
                *old(self),
                inc_dec_index_mem(old(self)@, old(self).mem(), prefix, false),
                t,
            ),
    {
        self.op_inc_dec_index_mem(prefix, false)
    }

    pub(crate) fn op_ld_index_mem_n(&mut self, prefix: u8) -> (t: u32)
        ensures
            final(self).ran(*old(self), ld_index_mem_n(old(self)@, old(self).mem(), prefix), t),
    {
        let x = self.get_index(prefix);
        let d = self.read_operand_byte();
        let n = self.read_operand_byte();
        let addr = x.wrapping_add(d as i8 as i16 as u16);
        self.write_mem(addr, n);
        self.wz = addr;
        self.update_q(false);
        19
    }

    pub(crate) fn op_ld_r_index_mem(&mut self, prefix: u8, sub: u8) -> (t: u32)
        requires
            (sub >> 3u8) & 7 != 6,
        ensures
            final(self).ran(*old(self), ld_r_index_mem(old(self)@, old(self).mem(), prefix, sub), t),
    {
        let x = self.get_index(prefix);
        let d = self.read_operand_byte();
        let addr = x.wrapping_add(d as i8 as i16 as u16);
        let v = self.read_mem(addr);
        self.write_reg((sub >> 3u8) & 7, v);
        self.wz = addr;
        self.update_q(false);
        19
    }

    pub(crate) fn op_ld_index_mem_r(&mut self, prefix: u8, sub: u8) -> (t: u32)
        requires
            sub & 7 != 6,
        ensures
            final(self).ran(*old(self), ld_index_mem_r(old(self)@, old(self).mem(), prefix, sub), t),
    {
        let x = self.get_index(prefix);
        let v = self.read_reg(sub & 7);
        let d = self.read_operand_byte();
        let addr = x.wrapping_add(d as i8 as i16 as u16);
        self.write_mem(addr, v);
        self.wz = addr;
        self.update_q(false);
        19
    }

    pub(crate) fn op_alu_index_mem(&mut self, prefix: u8, sub: u8) -> (t: u32)
        ensures
            final(self).ran(*old(self), alu_index_mem(old(self)@, old(self).mem(), prefix, sub), t),
    {
        let x = self.get_index(prefix);
        let d = self.read_operand_byte();
        let addr = x.wrapping_add(d as i8 as i16 as u16);
        let v = self.read_mem(addr);
        let (a, f) = alu8((sub >> 3u8) & 7, self.a, v, self.f.byte());
        self.a = a;
        self.f.set_byte(f);
        self.wz = addr;
        self.update_q(true);
        19
    }

    pub(crate) fn op_pop_index(&mut self, prefix: u8) -> (t: u32)
        ensures
            final(self).ran(*old(self), pop_index(old(self)@, old(self).mem(), prefix), t),
    {
        let v = self.pop_word();
        self.set_index(prefix, v);
        self.update_q(false);
        14
    }

    pub(crate) fn op_push_index(&mut self, prefix: u8) -> (t: u32)
        ensures
            final(self).ran(*old(self), push_index(old(self)@, old(self).mem(), prefix), t),
    {
        let x = self.get_index(prefix);
        self.push_word(x);
        self.update_q(false);
        15
    }

    pub(crate) fn op_ex_sp_index(&mut self, prefix: u8) -> (t: u32)
        ensures
            final(self).ran(*old(self), ex_sp_index(old(self)@, old(self).mem(), prefix), t),
    {
        let sp = self.sp;
        let lo = self.read_mem(sp);
        let hi = self.read_mem(sp.wrapping_add(1));
        let x = self.get_index(prefix);
        self.write_mem(sp, x as u8);
        self.write_mem(sp.wrapping_add(1), (x >> 8u16) as u8);
        let v = ((hi as u16) << 8u16) | (lo as u16);
        self.set_index(prefix, v);
        self.wz = v;
        self.update_q(false);
        23
    }

    pub(crate) fn op_jp_index(&mut self, prefix: u8) -> (t: u32)
        ensures
            final(self).ran(*old(self), jp_index(old(self)@, old(self).mem(), prefix), t),
    {
        self.pc = self.get_index(prefix);
        self.update_q(false);
        8
    }

    pub(crate) fn op_ld_sp_index(&mut self, prefix: u8) -> (t: u32)
        ensures
            final(self).ran(*old(self), ld_sp_index(old(self)@, old(self).mem(), prefix), t),
    {
        self.sp = self.get_index(prefix);
        self.update_q(false);
        10
    }
}

} // verus!
