//! The arithmetic and logic the instruction set computes: 8-bit and 16-bit
//! arithmetic, logic, decimal adjust, and the flags each produces. Every
//! operation is a pure function of its operands, stated by a spec function
//! of the same name and computed by an executable one.

use vstd::prelude::*;

verus! {

/// Even parity of a byte (the P/V flag of logic operations).
pub open spec fn parity_even(v: u8) -> bool {
    let p1 = v ^ (v >> 4u8);
    let p2 = p1 ^ (p1 >> 2u8);
    let p3 = p2 ^ (p2 >> 1u8);
    p3 & 1 == 0
}

pub fn parity(v: u8) -> (even: bool)
    ensures
        even == parity_even(v),
{
    let p1 = v ^ (v >> 4u8);
    let p2 = p1 ^ (p1 >> 2u8);
    let p3 = p2 ^ (p2 >> 1u8);
    p3 & 1 == 0
}

/// The zero flag for `v`.
pub open spec fn zero_bit(v: u8) -> u8 {
    if v == 0 {
        0x40
    } else {
        0
    }
}

/// The parity flag for `v`.
pub open spec fn parity_bit(v: u8) -> u8 {
    if parity_even(v) {
        0x04
    } else {
        0
    }
}

/// S, Y, X and Z from `v`, P/V from its parity: the flags of logic results.
pub open spec fn szp_flags(v: u8) -> u8 {
    (v & 0xA8) | zero_bit(v) | parity_bit(v)
}

pub fn szp(v: u8) -> (f: u8)
    ensures
        f == szp_flags(v),
{
    (v & 0xA8) | (if v == 0 {
        0x40u8
    } else {
        0
    }) | (if parity(v) {
        0x04u8
    } else {
        0
    })
}

/// `a + v + carry` and its flags.
pub open spec fn add8_spec(a: u8, v: u8, carry: u8) -> (u8, u8) {
    let sum = a as u16 + v as u16 + carry as u16;
    let res = sum as u8;
    let f = (res & 0xA8) | zero_bit(res) | ((a ^ v ^ res) & 0x10) | (if (a ^ v ^ 0x80) & (a
        ^ res) & 0x80 != 0 {
        0x04u8
    } else {
        0
    }) | (if sum > 0xFF {
        0x01u8
    } else {
        0
    });
    (res, f)
}

pub fn add8(a: u8, v: u8, carry: u8) -> (r: (u8, u8))
    ensures
        r == add8_spec(a, v, carry),
{
    let sum = a as u16 + v as u16 + carry as u16;
    let res = sum as u8;
    let f = (res & 0xA8) | (if res == 0 {
        0x40u8
    } else {
        0
    }) | ((a ^ v ^ res) & 0x10) | (if (a ^ v ^ 0x80) & (a ^ res) & 0x80 != 0 {
        0x04u8
    } else {
        0
    }) | (if sum > 0xFF {
        0x01u8
    } else {
        0
    });
    (res, f)
}

/// `a - v - carry` and its flags.
pub open spec fn sub8_spec(a: u8, v: u8, carry: u8) -> (u8, u8) {
    let res = a.wrapping_sub(v).wrapping_sub(carry);
    let f = (res & 0xA8) | zero_bit(res) | ((a ^ v ^ res) & 0x10) | (if (a ^ v) & (a ^ res) & 0x80
        != 0 {
        0x04u8
    } else {
        0
    }) | 0x02 | (if (a as u16) < v as u16 + carry as u16 {
        0x01u8
    } else {
        0
    });
    (res, f)
}

pub fn sub8(a: u8, v: u8, carry: u8) -> (r: (u8, u8))
    ensures
        r == sub8_spec(a, v, carry),
{
    let res = a.wrapping_sub(v).wrapping_sub(carry);
    let f = (res & 0xA8) | (if res == 0 {
        0x40u8
    } else {
        0
    }) | ((a ^ v ^ res) & 0x10) | (if (a ^ v) & (a ^ res) & 0x80 != 0 {
        0x04u8
    } else {
        0
    }) | 0x02 | (if (a as u16) < v as u16 + carry as u16 {
        0x01u8
    } else {
        0
    });
    (res, f)
}

/// The flags of `CP v`: those of `a - v`, except Y and X, which come from
/// the operand.
pub open spec fn cp8_flags(a: u8, v: u8) -> u8 {
    (sub8_spec(a, v, 0).1 & 0xD7) | (v & 0x28)
}

/// The result and flags of ALU operation `op` (ADD, ADC, SUB, SBC, AND,
/// XOR, OR, CP, in opcode order) on accumulator `a`, operand `v` and flags `f`.
pub open spec fn alu8_spec(op: u8, a: u8, v: u8, f: u8) -> (u8, u8) {
    if op == 0 {
        add8_spec(a, v, 0)
    } else if op == 1 {
        add8_spec(a, v, f & 1)
    } else if op == 2 {
        sub8_spec(a, v, 0)
    } else if op == 3 {
        sub8_spec(a, v, f & 1)
    } else if op == 4 {
        (a & v, szp_flags(a & v) | 0x10)
    } else if op == 5 {
        (a ^ v, szp_flags(a ^ v))
    } else if op == 6 {
        (a | v, szp_flags(a | v))
    } else {
        (a, cp8_flags(a, v))
    }
}

pub fn alu8(op: u8, a: u8, v: u8, f: u8) -> (r: (u8, u8))
    ensures
        r == alu8_spec(op, a, v, f),
{
    if op == 0 {
        add8(a, v, 0)
    } else if op == 1 {
        add8(a, v, f & 1)
    } else if op == 2 {
        sub8(a, v, 0)
    } else if op == 3 {
        sub8(a, v, f & 1)
    } else if op == 4 {
        (a & v, szp(a & v) | 0x10)
    } else if op == 5 {
        (a ^ v, szp(a ^ v))
    } else if op == 6 {
        (a | v, szp(a | v))
    } else {
        let (_, sf) = sub8(a, v, 0);
        (a, (sf & 0xD7) | (v & 0x28))
    }
}

/// `v + 1` and the flags of INC, carry kept from `f`.
pub open spec fn inc8_spec(v: u8, f: u8) -> (u8, u8) {
    let res = v.wrapping_add(1);
    (res, (res & 0xA8) | zero_bit(res) | (if v & 0x0F == 0x0F {
        0x10u8
    } else {
        0
    }) | (if v == 0x7F {
        0x04u8
    } else {
        0
    }) | (f & 0x01))
}

pub fn inc8(v: u8, f: u8) -> (r: (u8, u8))
    ensures
        r == inc8_spec(v, f),
{
    let res = v.wrapping_add(1);
    (res, (res & 0xA8) | (if res == 0 {
        0x40u8
    } else {
        0
    }) | (if v & 0x0F == 0x0F {
        0x10u8
    } else {
        0
    }) | (if v == 0x7F {
        0x04u8
    } else {
        0
    }) | (f & 0x01))
}

/// `v - 1` and the flags of DEC, carry kept from `f`.
pub open spec fn dec8_spec(v: u8, f: u8) -> (u8, u8) {
    let res = v.wrapping_sub(1);
    (res, (res & 0xA8) | zero_bit(res) | (if v & 0x0F == 0 {
        0x10u8
    } else {
        0
    }) | (if v == 0x80 {
        0x04u8
    } else {
        0
    }) | 0x02 | (f & 0x01))
}

pub fn dec8(v: u8, f: u8) -> (r: (u8, u8))
    ensures
        r == dec8_spec(v, f),
{
    let res = v.wrapping_sub(1);
    (res, (res & 0xA8) | (if res == 0 {
        0x40u8
    } else {
        0
    }) | (if v & 0x0F == 0 {
        0x10u8
    } else {
        0
    }) | (if v == 0x80 {
        0x04u8
    } else {
        0
    }) | 0x02 | (f & 0x01))
}

/// The correction DAA adds or subtracts.
pub open spec fn daa_diff(a: u8, f: u8) -> u8 {
    (if f & 0x10 != 0 || a & 0x0F > 9 {
        0x06u8
    } else {
        0
    }) | (if f & 0x01 != 0 || a > 0x99 {
        0x60u8
    } else {
        0
    })
}

/// Decimal adjust of `a` after an addition or subtraction (N in `f`).
pub open spec fn daa_spec(a: u8, f: u8) -> (u8, u8) {
    let diff = daa_diff(a, f);
    let res = if f & 0x02 != 0 {
        a.wrapping_sub(diff)
    } else {
        a.wrapping_add(diff)
    };
    let half = if f & 0x02 == 0 {
        a & 0x0F > 9
    } else {
        f & 0x10 != 0 && a & 0x0F < 6
    };
    (res, szp_flags(res) | (if half {
        0x10u8
    } else {
        0
    }) | (f & 0x02) | (if f & 0x01 != 0 || a > 0x99 {
        0x01u8
    } else {
        0
    }))
}

pub fn daa(a: u8, f: u8) -> (r: (u8, u8))
    ensures
        r == daa_spec(a, f),
{
    let diff = (if f & 0x10 != 0 || a & 0x0F > 9 {
        0x06u8
    } else {
        0
    }) | (if f & 0x01 != 0 || a > 0x99 {
        0x60u8
    } else {
        0
    });
    let res = if f & 0x02 != 0 {
        a.wrapping_sub(diff)
    } else {
        a.wrapping_add(diff)
    };
    let half = if f & 0x02 == 0 {
        a & 0x0F > 9
    } else {
        f & 0x10 != 0 && a & 0x0F < 6
    };
    (res, szp(res) | (if half {
        0x10u8
    } else {
        0
    }) | (f & 0x02) | (if f & 0x01 != 0 || a > 0x99 {
        0x01u8
    } else {
        0
    }))
}

/// `hl + v` and the flags of ADD HL,rr: S, Z and P/V kept from `f`.
pub open spec fn add16_spec(hl: u16, v: u16, f: u8) -> (u16, u8) {
    let sum = hl as u32 + v as u32;
    let res = sum as u16;
    (res, (f & 0xC4) | (((res >> 8u16) as u8) & 0x28) | (if (hl ^ v ^ res) & 0x1000 != 0 {
        0x10u8
    } else {
        0
    }) | (if sum > 0xFFFF {
        0x01u8
    } else {
        0
    }))
}

pub fn add16(hl: u16, v: u16, f: u8) -> (r: (u16, u8))
    ensures
        r == add16_spec(hl, v, f),
{
    let sum = hl as u32 + v as u32;
    let res = sum as u16;
    (res, (f & 0xC4) | (((res >> 8u16) as u8) & 0x28) | (if (hl ^ v ^ res) & 0x1000 != 0 {
        0x10u8
    } else {
        0
    }) | (if sum > 0xFFFF {
        0x01u8
    } else {
        0
    }))
}

/// `hl + v + carry` and the flags of ADC HL,rr.
pub open spec fn adc16_spec(hl: u16, v: u16, carry: u8) -> (u16, u8) {
    let sum = hl as u32 + v as u32 + carry as u32;
    let res = sum as u16;
    ((res, (((res >> 8u16) as u8) & 0xA8) | (if res == 0 {
        0x40u8
    } else {
        0
    }) | (if (hl ^ v ^ res) & 0x1000 != 0 {
        0x10u8
    } else {
        0
    }) | (if (hl ^ v ^ 0x8000) & (hl ^ res) & 0x8000 != 0 {
        0x04u8
    } else {
        0
    }) | (if sum > 0xFFFF {
        0x01u8
    } else {
        0
    })))
}

pub fn adc16(hl: u16, v: u16, carry: u8) -> (r: (u16, u8))
    ensures
        r == adc16_spec(hl, v, carry),
{
    let sum = hl as u32 + v as u32 + carry as u32;
    let res = sum as u16;
    ((res, (((res >> 8u16) as u8) & 0xA8) | (if res == 0 {
        0x40u8
    } else {
        0
    }) | (if (hl ^ v ^ res) & 0x1000 != 0 {
        0x10u8
    } else {
        0
    }) | (if (hl ^ v ^ 0x8000) & (hl ^ res) & 0x8000 != 0 {
        0x04u8
    } else {
        0
    }) | (if sum > 0xFFFF {
        0x01u8
    } else {
        0
    })))
}

/// `hl - v - carry` and the flags of SBC HL,rr.
pub open spec fn sbc16_spec(hl: u16, v: u16, carry: u8) -> (u16, u8) {
    let res = hl.wrapping_sub(v).wrapping_sub(carry as u16);
    ((res, (((res >> 8u16) as u8) & 0xA8) | (if res == 0 {
        0x40u8
    } else {
        0
    }) | (if (hl ^ v ^ res) & 0x1000 != 0 {
        0x10u8
    } else {
        0
    }) | (if (hl ^ v) & (hl ^ res) & 0x8000 != 0 {
        0x04u8
    } else {
        0
    }) | 0x02 | (if (hl as u32) < v as u32 + carry as u32 {
        0x01u8
    } else {
        0
    })))
}

pub fn sbc16(hl: u16, v: u16, carry: u8) -> (r: (u16, u8))
    ensures
        r == sbc16_spec(hl, v, carry),
{
    let res = hl.wrapping_sub(v).wrapping_sub(carry as u16);
    ((res, (((res >> 8u16) as u8) & 0xA8) | (if res == 0 {
        0x40u8
    } else {
        0
    }) | (if (hl ^ v ^ res) & 0x1000 != 0 {
        0x10u8
    } else {
        0
    }) | (if (hl ^ v) & (hl ^ res) & 0x8000 != 0 {
        0x04u8
    } else {
        0
    }) | 0x02 | (if (hl as u32) < v as u32 + carry as u32 {
        0x01u8
    } else {
        0
    })))
}

/// The result and flags of CB rotate/shift `op` (RLC, RRC, RL, RR, SLA,
/// SRA, SLL, SRL, in opcode order) on `v` with flags `f`.
pub open spec fn rot8_spec(op: u8, v: u8, f: u8) -> (u8, u8) {
    let res = if op == 0 {
        (v << 1u8) | (v >> 7u8)
    } else if op == 1 {
        (v >> 1u8) | (v << 7u8)
    } else if op == 2 {
        (v << 1u8) | (f & 1)
    } else if op == 3 {
        (v >> 1u8) | ((f & 1) << 7u8)
    } else if op == 4 {
        v << 1u8
    } else if op == 5 {
        (v >> 1u8) | (v & 0x80)
    } else if op == 6 {
        (v << 1u8) | 1
    } else {
        v >> 1u8
    };
    let carry = if op == 0 || op == 2 || op == 4 || op == 6 {
        v >> 7u8
    } else {
        v & 1
    };
    (res, szp_flags(res) | carry)
}

pub fn rot8(op: u8, v: u8, f: u8) -> (r: (u8, u8))
    ensures
        r == rot8_spec(op, v, f),
{
    let res = if op == 0 {
        (v << 1u8) | (v >> 7u8)
    } else if op == 1 {
        (v >> 1u8) | (v << 7u8)
    } else if op == 2 {
        (v << 1u8) | (f & 1)
    } else if op == 3 {
        (v >> 1u8) | ((f & 1) << 7u8)
    } else if op == 4 {
        v << 1u8
    } else if op == 5 {
        (v >> 1u8) | (v & 0x80)
    } else if op == 6 {
        (v << 1u8) | 1
    } else {
        v >> 1u8
    };
    let carry = if op == 0 || op == 2 || op == 4 || op == 6 {
        v >> 7u8
    } else {
        v & 1
    };
    (res, szp(res) | carry)
}

/// The flags of BIT `bit`,`v`: Z and P/V set when the bit is clear, S when
/// bit 7 is tested and set, H set, carry kept, Y and X from `xy`.
pub open spec fn bit_flags(bit: u8, v: u8, xy: u8, f: u8) -> u8 {
    let tested = v & (1u8 << bit);
    (f & 0x01) | 0x10 | (if tested == 0 {
        0x44u8
    } else {
        0
    }) | (if bit == 7 && tested != 0 {
        0x80u8
    } else {
        0
    }) | (xy & 0x28)
}

pub fn bit_test(bit: u8, v: u8, xy: u8, f: u8) -> (r: u8)
    requires
        bit < 8,
    ensures
        r == bit_flags(bit, v, xy, f),
{
    let tested = v & (1u8 << bit);
    (f & 0x01) | 0x10 | (if tested == 0 {
        0x44u8
    } else {
        0
    }) | (if bit == 7 && tested != 0 {
        0x80u8
    } else {
        0
    }) | (xy & 0x28)
}

} // verus!
