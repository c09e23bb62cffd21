//! What the instructions compute, stated in terms of numbers rather than of
//! the bit manipulations that carry it out: two's-complement
//! displacements, the direction of block transfers, the arithmetic and
//! flags of the ALU, rotations, bit operations and decimal adjust, the
//! meaning of the condition codes, the byte order of words and of the
//! stack, and what decoding an instruction makes of these.

use vstd::prelude::*;
use crate::alu::{
    adc16_spec, add16_spec, add8_spec, alu8_spec, bit_flags, daa_spec, dec8_spec, inc8_spec,
    rot8_spec, sbc16_spec, sub8_spec, szp_flags, zero_bit,
};
use crate::blocks::{block_cp_state, ld_block};
use crate::control::relative;
use crate::dispatch::{cb_op, decode, main_op};
use crate::flags::{FLAG_C, FLAG_H, FLAG_N, FLAG_PV, FLAG_S, FLAG_Z, flag_value, with_flag};
use crate::index::index_addr;
use crate::index_dispatch::{index_table, lemma_run_is_index_op};
use crate::machine::{
    Fault, after_fetch, condition, index_reg, reg8, set_reg8, top_word, with_bytes, with_q, word,
};
use crate::state::CpuState;

verus! {

/// The value of `d` read as a two's-complement byte: -128 to 127.
pub open spec fn signed_byte(d: u8) -> int {
    if d < 0x80 {
        d as int
    } else {
        d as int - 0x100
    }
}

/// `base` moved by `delta`, wrapping at 64 KiB.
pub open spec fn offset16(base: u16, delta: int) -> int {
    (base as int + delta) % 0x10000
}

proof fn lemma_sign_extend(d: u8)
    ensures
        (d as i8 as i16 as u16) as int == if d < 0x80 { d as int } else { d as int + 0xFF00 },
{
    assert((d < 0x80 ==> (d as i8 as i16 as u16) == d as u16) && (d >= 0x80 ==> (d as i8 as i16
        as u16) == (d as u16) + 0xFF00)) by (bit_vector);
}

proof fn lemma_add_signed(x: u16, d: u8)
    ensures
        x.wrapping_add(d as i8 as i16 as u16) as int == offset16(x, signed_byte(d)),
{
    lemma_sign_extend(d);
}

/// An (IX+d) or (IY+d) operand lies at the index register plus the
/// displacement read as a signed byte, wrapping at 64 KiB: 0xFE is IX-2.
pub proof fn law_index_displacement_is_signed(s: CpuState, prefix: u8, d: u8)
    ensures
        index_addr(s, prefix, d) as int == offset16(index_reg(s, prefix), signed_byte(d)),
{
    lemma_add_signed(index_reg(s, prefix), d);
}

/// A relative jump (JR, DJNZ) moves PC by its displacement read as a
/// signed byte, wrapping at 64 KiB.
pub proof fn law_relative_jump_is_signed(pc: u16, d: u8)
    ensures
        relative(pc, d) as int == offset16(pc, signed_byte(d)),
{
    lemma_add_signed(pc, d);
}

/// The condition codes in opcode order: NZ and Z test the zero flag, NC and
/// C the carry, PO and PE the parity/overflow flag, P (plus) and M (minus)
/// the sign: P holds on a clear sign flag, M on a set one.
pub proof fn law_condition_codes(f: u8)
    ensures
        condition(f, 0) <==> flag_value(f, FLAG_Z) == 0,
        condition(f, 1) <==> flag_value(f, FLAG_Z) == 1,
        condition(f, 2) <==> flag_value(f, FLAG_C) == 0,
        condition(f, 3) <==> flag_value(f, FLAG_C) == 1,
        condition(f, 4) <==> flag_value(f, FLAG_PV) == 0,
        condition(f, 5) <==> flag_value(f, FLAG_PV) == 1,
        condition(f, 6) <==> flag_value(f, FLAG_S) == 0,
        condition(f, 7) <==> flag_value(f, FLAG_S) == 1,
        condition(f, 6) <==> f < 0x80,
        condition(f, 7) <==> f >= 0x80,
{
    lemma_byte_bits(f);
}

/// The step of a block instruction: +1 going up, -1 going down.
pub open spec fn direction(increment: bool) -> int {
    if increment {
        1
    } else {
        -1
    }
}

proof fn lemma_pair_round_trip(v: u16)
    ensures
        crate::state::pair(crate::state::high(v), crate::state::low(v)) == v,
{
    crate::laws::lemma_pair_high_low(v);
}

/// One LDI/LDD transfer (and each round of LDIR/LDDR) copies the byte at
/// HL to DE and moves HL and DE one byte the same way, up for LDI and down
/// for LDD, while BC counts down by one, all wrapping at 64 KiB.
pub proof fn law_block_transfer_moves_together(s: CpuState, m: Map<u16, u8>, increment: bool, repeat: bool)
    ensures
        ({
            let out = ld_block(s, m, increment, repeat);
            &&& out.memory == m.insert(s.de(), m[s.hl()])
            &&& out.state.hl() as int == offset16(s.hl(), direction(increment))
            &&& out.state.de() as int == offset16(s.de(), direction(increment))
            &&& out.state.bc() as int == offset16(s.bc(), -1)
        }),
{
    let hl = if increment { s.hl().wrapping_add(1) } else { s.hl().wrapping_sub(1) };
    let de = if increment { s.de().wrapping_add(1) } else { s.de().wrapping_sub(1) };
    lemma_pair_round_trip(hl);
    lemma_pair_round_trip(de);
    lemma_pair_round_trip(s.bc().wrapping_sub(1));
}

/// One CPI/CPD comparison (and each round of CPIR/CPDR) moves HL one byte,
/// up for CPI and down for CPD, and counts BC down by one.
pub proof fn law_block_compare_moves(s: CpuState, m: Map<u16, u8>, increment: bool)
    ensures
        block_cp_state(s, m, increment).hl() as int == offset16(s.hl(), direction(increment)),
        block_cp_state(s, m, increment).bc() as int == offset16(s.bc(), -1),
{
    let hl = if increment { s.hl().wrapping_add(1) } else { s.hl().wrapping_sub(1) };
    lemma_pair_round_trip(hl);
    lemma_pair_round_trip(s.bc().wrapping_sub(1));
}

/// Bits of a byte read as numbers.
proof fn lemma_byte_bits(x: u8)
    ensures
        x | 0 == x,
        x & 1 <= 1,
        x & 1 == x % 2,
        x >> 7u8 <= 1,
        x >> 7u8 == x / 128,
        (x & 0x0F == 0x0F) == (x % 16 == 15),
        (x & 0x0F == 0) == (x % 16 == 0),
        (x & 0x80 == 0) == (x < 0x80),
        x & 0x02 == 0 || x & 0x02 == 0x02,
{
    assert((x & 0x02 == 0 || x & 0x02 == 0x02) && x | 0 == x && x & 1 <= 1 && x & 1 == x % 2 && x >> 7u8 <= 1 && x >> 7u8 == x / 128 && (x
        & 0x0F == 0x0F) == (x % 16 == 15) && (x & 0x0F == 0) == (x % 16 == 0) && (x & 0x80 == 0) == (x
        < 0x80)) by (bit_vector);
}

/// Bits of the flags of a result with S, Y, X, Z and P/V taken from it
/// (`x`), H added as `h`, N as `nb` and the carry as `cb`.
proof fn lemma_szp_parts(r: u8, zb: u8, pb: u8, x: u8, h: u8, nb: u8, cb: u8)
    requires
        x == (r & 0xA8) | zb | pb,
        zb == 0 || zb == 0x40,
        pb == 0 || pb == 0x04,
        h == 0 || h == 0x10,
        nb == 0 || nb == 0x02,
        cb <= 1,
    ensures
        (x | h | nb | cb) & 0x01 == cb,
        (x | h | nb | cb) & 0x02 == nb,
        (x | h | nb | cb) & 0x10 == h,
        (x | h | nb | cb) & 0x40 == zb,
        (x | h | nb | cb) & 0x80 == r & 0x80,
        (x | h) == (x | h | 0 | 0),
        (x | cb) == (x | 0 | 0 | cb),
        x == (x | 0 | 0 | 0),
{
    assert((x | h | nb | cb) & 0x01 == cb && (x | h | nb | cb) & 0x02 == nb && (x | h | nb | cb) & 0x10
        == h && (x | h | nb | cb) & 0x40 == zb && (x | h | nb | cb) & 0x80 == r & 0x80 && (x | h) == (x
        | h | 0 | 0) && (x | cb) == (x | 0 | 0 | cb) && x == (x | 0 | 0 | 0)) by (bit_vector)
        requires
            x == (r & 0xA8) | zb | pb,
            zb == 0 || zb == 0x40,
            pb == 0 || pb == 0x04,
            h == 0 || h == 0x10,
            nb == 0 || nb == 0x02,
            cb <= 1,
    ;
}

/// The flags of a result through `szp_flags` with H, N and the carry
/// added.
proof fn lemma_szp_flags(r: u8, h: u8, nb: u8, cb: u8)
    requires
        h == 0 || h == 0x10,
        nb == 0 || nb == 0x02,
        cb <= 1,
    ensures
        flag_value(szp_flags(r) | h | nb | cb, FLAG_C) == cb,
        flag_value(szp_flags(r) | h | nb | cb, FLAG_N) == if nb == 0 { 0u8 } else { 1u8 },
        flag_value(szp_flags(r) | h | nb | cb, FLAG_H) == if h == 0 { 0u8 } else { 1u8 },
        flag_value(szp_flags(r) | h | nb | cb, FLAG_Z) == if r == 0 { 1u8 } else { 0u8 },
        flag_value(szp_flags(r) | h | nb | cb, FLAG_S) == if r >= 128 { 1u8 } else { 0u8 },
        szp_flags(r) | h == szp_flags(r) | h | 0 | 0,
        szp_flags(r) | cb == szp_flags(r) | 0 | 0 | cb,
        szp_flags(r) == szp_flags(r) | 0 | 0 | 0,
{
    let zb = zero_bit(r);
    let pb = crate::alu::parity_bit(r);
    assert(pb == 0 || pb == 0x04);
    lemma_szp_parts(r, zb, pb, szp_flags(r), h, nb, cb);
    lemma_byte_bits(r);
}

/// Bits of a flag byte made of separate parts, without and with the
/// subtract bit: each flag is that of the part that carries it.
proof fn lemma_flag_parts(body: u8, zb: u8, hb: u8, pv: u8, cb: u8)
    by (bit_vector)
    requires
        zb == 0 || zb == 0x40,
        pv == 0 || pv == 0x04,
        cb == 0 || cb == 0x01,
    ensures
        ((body & 0xA8) | zb | (hb & 0x10) | pv | cb) & 0x01 == cb,
        ((body & 0xA8) | zb | (hb & 0x10) | pv | cb) & 0x02 == 0,
        ((body & 0xA8) | zb | (hb & 0x10) | pv | cb) & 0x04 == pv,
        ((body & 0xA8) | zb | (hb & 0x10) | pv | cb) & 0x10 == hb & 0x10,
        ((body & 0xA8) | zb | (hb & 0x10) | pv | cb) & 0x40 == zb,
        ((body & 0xA8) | zb | (hb & 0x10) | pv | cb) & 0x80 == body & 0x80,
        ((body & 0xA8) | zb | (hb & 0x10) | pv | 0x02 | cb) & 0x01 == cb,
        ((body & 0xA8) | zb | (hb & 0x10) | pv | 0x02 | cb) & 0x02 == 0x02,
        ((body & 0xA8) | zb | (hb & 0x10) | pv | 0x02 | cb) & 0x04 == pv,
        ((body & 0xA8) | zb | (hb & 0x10) | pv | 0x02 | cb) & 0x10 == hb & 0x10,
        ((body & 0xA8) | zb | (hb & 0x10) | pv | 0x02 | cb) & 0x40 == zb,
        ((body & 0xA8) | zb | (hb & 0x10) | pv | 0x02 | cb) & 0x80 == body & 0x80,
{
}

/// The bits that the flags of an 8-bit addition are made from.
proof fn lemma_add8_bits(a: u8, v: u8, c: u8, res: u8)
    by (bit_vector)
    requires
        c <= 1,
        res == (a as u16 + v as u16 + c as u16) as u8,
    ensures
        ((a ^ v ^ res) & 0x10 != 0) <==> a % 16 + v % 16 + c > 15,
        ((a ^ v ^ 0x80) & (a ^ res) & 0x80 != 0) <==> ((a < 128) == (v < 128) && (res < 128) != (a
            < 128)),
        (res & 0x80 != 0) <==> res >= 128,
{
}

/// The bits that the flags of an 8-bit subtraction are made from.
proof fn lemma_sub8_bits(a: u8, v: u8, c: u8, res: u8)
    by (bit_vector)
    requires
        c <= 1,
        res == a.wrapping_sub(v).wrapping_sub(c),
    ensures
        ((a ^ v ^ res) & 0x10 != 0) <==> a % 16 < v % 16 + c,
        ((a ^ v) & (a ^ res) & 0x80 != 0) <==> ((a < 128) != (v < 128) && (res < 128) != (a < 128)),
        (res & 0x80 != 0) <==> res >= 128,
{
}

/// Whether `x` fits a two's-complement byte.
pub open spec fn fits_signed_byte(x: int) -> bool {
    -128 <= x < 128
}

/// Addition of `a`, `v` and a carry in of 0 or 1: the sum modulo 256; the
/// carry out when it passes 255; H when the low nibbles pass 15; P/V when
/// the signed sum leaves -128..127; S and Z from the result; no subtract.
proof fn lemma_add8(a: u8, v: u8, c: u8)
    requires
        c <= 1,
    ensures
        add8_spec(a, v, c).0 as int == (a + v + c) % 256,
        flag_value(add8_spec(a, v, c).1, FLAG_C) == if a + v + c > 255 { 1u8 } else { 0u8 },
        flag_value(add8_spec(a, v, c).1, FLAG_Z) == if add8_spec(a, v, c).0 == 0 { 1u8 } else { 0u8 },
        flag_value(add8_spec(a, v, c).1, FLAG_N) == 0,
        flag_value(add8_spec(a, v, c).1, FLAG_H) == 1 <==> a % 16 + v % 16 + c > 15,
        flag_value(add8_spec(a, v, c).1, FLAG_PV) == 1 <==> !fits_signed_byte(
            signed_byte(a) + signed_byte(v) + c,
        ),
        flag_value(add8_spec(a, v, c).1, FLAG_S) == 1 <==> add8_spec(a, v, c).0 >= 128,
{
    let sum: u16 = (a as u16 + v as u16 + c as u16) as u16;
    let res = add8_spec(a, v, c).0;
    lemma_add8_bits(a, v, c, res);
    assert(res as u16 == sum % 256) by (bit_vector)
        requires
            res == sum as u8,
    ;
    let pv: u8 = if (a ^ v ^ 0x80) & (a ^ res) & 0x80 != 0 { 0x04 } else { 0 };
    let cb: u8 = if sum > 0xFF { 0x01 } else { 0 };
    lemma_flag_parts(res, zero_bit(res), a ^ v ^ res, pv, cb);
}

/// Subtraction of `v` and a borrow in of 0 or 1 from `a`: the difference
/// modulo 256; the carry (borrow) out when `v` and the borrow exceed `a`;
/// H when the low nibble of `a` is below that of `v` plus the borrow; P/V
/// when the signed difference leaves -128..127; S and Z from the result;
/// subtract set.
proof fn lemma_sub8(a: u8, v: u8, c: u8)
    requires
        c <= 1,
    ensures
        sub8_spec(a, v, c).0 as int == (a - v - c) % 256,
        flag_value(sub8_spec(a, v, c).1, FLAG_C) == if a < v + c { 1u8 } else { 0u8 },
        flag_value(sub8_spec(a, v, c).1, FLAG_Z) == if sub8_spec(a, v, c).0 == 0 { 1u8 } else { 0u8 },
        flag_value(sub8_spec(a, v, c).1, FLAG_N) == 1,
        flag_value(sub8_spec(a, v, c).1, FLAG_H) == 1 <==> a % 16 < v % 16 + c,
        flag_value(sub8_spec(a, v, c).1, FLAG_PV) == 1 <==> !fits_signed_byte(
            signed_byte(a) - signed_byte(v) - c,
        ),
        flag_value(sub8_spec(a, v, c).1, FLAG_S) == 1 <==> sub8_spec(a, v, c).0 >= 128,
{
    let res = a.wrapping_sub(v).wrapping_sub(c);
    lemma_sub8_bits(a, v, c, res);
    let pv: u8 = if (a ^ v) & (a ^ res) & 0x80 != 0 { 0x04 } else { 0 };
    let cb: u8 = if (a as u16) < v as u16 + c as u16 { 0x01 } else { 0 };
    lemma_flag_parts(res, zero_bit(res), a ^ v ^ res, pv, cb);
}

/// The eight ALU operations in opcode order, as arithmetic: ADD, ADC, SUB
/// and SBC give the sum or difference modulo 256 (ADC and SBC taking the
/// carry flag in as 0 or 1) with the carry flag set exactly when the sum
/// passes 255 or the subtrahend exceeds `a`; AND, XOR and OR give the
/// bitwise results with carry clear (AND setting H); CP leaves `a` and
/// sets the flags of `a - v`, zero exactly when they are equal. The zero
/// flag marks a zero result and the subtract flag the subtractions.
pub proof fn law_alu_arithmetic(a: u8, v: u8, f: u8)
    ensures
        alu8_spec(0, a, v, f).0 as int == (a + v) % 256,
        alu8_spec(1, a, v, f).0 as int == (a + v + flag_value(f, FLAG_C)) % 256,
        alu8_spec(2, a, v, f).0 as int == (a - v) % 256,
        alu8_spec(3, a, v, f).0 as int == (a - v - flag_value(f, FLAG_C)) % 256,
        alu8_spec(4, a, v, f).0 == a & v,
        alu8_spec(5, a, v, f).0 == a ^ v,
        alu8_spec(6, a, v, f).0 == a | v,
        alu8_spec(7, a, v, f).0 == a,
        flag_value(alu8_spec(0, a, v, f).1, FLAG_C) == 1 <==> a + v > 255,
        flag_value(alu8_spec(1, a, v, f).1, FLAG_C) == 1 <==> a + v + flag_value(f, FLAG_C) > 255,
        flag_value(alu8_spec(2, a, v, f).1, FLAG_C) == 1 <==> a < v,
        flag_value(alu8_spec(3, a, v, f).1, FLAG_C) == 1 <==> a < v + flag_value(f, FLAG_C),
        flag_value(alu8_spec(4, a, v, f).1, FLAG_C) == 0,
        flag_value(alu8_spec(5, a, v, f).1, FLAG_C) == 0,
        flag_value(alu8_spec(6, a, v, f).1, FLAG_C) == 0,
        flag_value(alu8_spec(7, a, v, f).1, FLAG_C) == 1 <==> a < v,
        flag_value(alu8_spec(4, a, v, f).1, FLAG_H) == 1,
        forall|op: u8|
            op < 7 ==> (flag_value(#[trigger] alu8_spec(op, a, v, f).1, FLAG_Z) == 1 <==> alu8_spec(
                op,
                a,
                v,
                f,
            ).0 == 0),
        flag_value(alu8_spec(7, a, v, f).1, FLAG_Z) == 1 <==> a == v,
        forall|op: u8|
            op < 8 ==> (flag_value(#[trigger] alu8_spec(op, a, v, f).1, FLAG_N) == 1 <==> (op == 2
                || op == 3 || op == 7)),
{
    let c = f & 1;
    lemma_byte_bits(f);
    lemma_add8(a, v, 0);
    lemma_add8(a, v, c);
    lemma_sub8(a, v, 0);
    lemma_sub8(a, v, c);
    lemma_szp_flags(a & v, 0x10, 0, 0);
    lemma_szp_flags(a ^ v, 0, 0, 0);
    lemma_szp_flags(a | v, 0, 0, 0);
    let sf = sub8_spec(a, v, 0).1;
    assert((sf & 0xD7) | (v & 0x28) == (sf & 0xD7) | (v & 0x28));
    lemma_cp_flags(sf, v);
    assert((a - v) % 256 == 0 <==> a == v);
}

/// CP keeps the carry, zero, subtract, half carry, overflow and sign bits
/// of the subtraction.
proof fn lemma_cp_flags(sf: u8, v: u8)
    ensures
        ((sf & 0xD7) | (v & 0x28)) & 0x01 == sf & 0x01,
        ((sf & 0xD7) | (v & 0x28)) & 0x02 == sf & 0x02,
        ((sf & 0xD7) | (v & 0x28)) & 0x04 == sf & 0x04,
        ((sf & 0xD7) | (v & 0x28)) & 0x10 == sf & 0x10,
        ((sf & 0xD7) | (v & 0x28)) & 0x40 == sf & 0x40,
        ((sf & 0xD7) | (v & 0x28)) & 0x80 == sf & 0x80,
{
    assert(((sf & 0xD7) | (v & 0x28)) & 0x01 == sf & 0x01 && ((sf & 0xD7) | (v & 0x28)) & 0x02 == sf
        & 0x02 && ((sf & 0xD7) | (v & 0x28)) & 0x04 == sf & 0x04 && ((sf & 0xD7) | (v & 0x28)) & 0x10
        == sf & 0x10 && ((sf & 0xD7) | (v & 0x28)) & 0x40 == sf & 0x40 && ((sf & 0xD7) | (v & 0x28))
        & 0x80 == sf & 0x80) by (bit_vector);
}

/// The eight rotates and shifts in opcode order, as arithmetic on the
/// byte: RLC, RL, SLA and SLL double it modulo 256 and bring in bit 7, the
/// carry flag, a zero and a one; RRC, RR, SRA and SRL halve it and bring
/// into bit 7 bit 0, the carry flag, bit 7 itself and a zero. The carry
/// flag receives the bit shifted out (bit 7 going left, bit 0 going
/// right), the zero flag marks a zero result, H and N are cleared.
pub proof fn law_rotate_shift_arithmetic(v: u8, f: u8)
    ensures
        rot8_spec(0, v, f).0 as int == (v * 2) % 256 + v / 128,
        rot8_spec(1, v, f).0 as int == v / 2 + (v % 2) * 128,
        rot8_spec(2, v, f).0 as int == (v * 2) % 256 + flag_value(f, FLAG_C),
        rot8_spec(3, v, f).0 as int == v / 2 + flag_value(f, FLAG_C) * 128,
        rot8_spec(4, v, f).0 as int == (v * 2) % 256,
        rot8_spec(5, v, f).0 as int == v / 2 + (v / 128) * 128,
        rot8_spec(6, v, f).0 as int == (v * 2) % 256 + 1,
        rot8_spec(7, v, f).0 as int == v / 2,
        forall|op: u8|
            op < 8 && op % 2 == 0 ==> flag_value(#[trigger] rot8_spec(op, v, f).1, FLAG_C) as int == v
                / 128,
        forall|op: u8|
            op < 8 && op % 2 == 1 ==> flag_value(#[trigger] rot8_spec(op, v, f).1, FLAG_C) as int == v
                % 2,
        forall|op: u8|
            op < 8 ==> (flag_value(#[trigger] rot8_spec(op, v, f).1, FLAG_Z) == 1 <==> rot8_spec(
                op,
                v,
                f,
            ).0 == 0),
        forall|op: u8|
            op < 8 ==> flag_value(#[trigger] rot8_spec(op, v, f).1, FLAG_N) == 0 && flag_value(
                rot8_spec(op, v, f).1,
                FLAG_H,
            ) == 0,
{
    let c = f & 1;
    lemma_byte_bits(f);
    lemma_byte_bits(v);
    let hi = v >> 7u8;
    let lo = v & 1;
    assert(((v << 1u8) | (v >> 7u8)) as int == (v * 2) % 256 + v / 128 && ((v >> 1u8) | (v << 7u8))
        as int == v / 2 + (v % 2) * 128 && (c <= 1 ==> ((v << 1u8) | c) as int == (v * 2) % 256 + c)
        && (c <= 1 ==> ((v >> 1u8) | (c << 7u8)) as int == v / 2 + c * 128) && (v << 1u8) as int == (v
        * 2) % 256 && ((v >> 1u8) | (v & 0x80)) as int == v / 2 + (v / 128) * 128 && ((v << 1u8) | 1)
        as int == (v * 2) % 256 + 1 && (v >> 1u8) as int == v / 2) by (bit_vector);
    assert forall|op: u8| op < 8 implies {
        let r = #[trigger] rot8_spec(op, v, f);
        &&& (op % 2 == 0 ==> flag_value(r.1, FLAG_C) as int == v / 128)
        &&& (op % 2 == 1 ==> flag_value(r.1, FLAG_C) as int == v % 2)
        &&& (flag_value(r.1, FLAG_Z) == 1 <==> r.0 == 0)
        &&& flag_value(r.1, FLAG_N) == 0
        &&& flag_value(r.1, FLAG_H) == 0
    } by {
        let r = rot8_spec(op, v, f);
        if op == 0 || op == 2 || op == 4 || op == 6 {
            lemma_szp_flags(r.0, 0, 0, hi);
        } else {
            lemma_szp_flags(r.0, 0, 0, lo);
        }
    }
}

/// What the fields of an opcode byte select: the opcodes of each group
/// that a mask picks out, and the register, condition and restart numbers
/// read from bits 0-2 and 3-5.
proof fn lemma_opcode_fields(op: u8)
    ensures
        op & 7 < 8,
        (op >> 3u8) & 7 < 8,
        op & 0xC7 == 0x46 && op != 0x76 ==> (op == 0x46 || op == 0x4E || op == 0x56 || op == 0x5E
            || op == 0x66 || op == 0x6E || op == 0x7E) && (op >> 3u8) & 7 != 6,
        op & 0xF8 == 0x70 && op != 0x76 ==> op == 0x70 || op == 0x71 || op == 0x72 || op == 0x73 || op
            == 0x74 || op == 0x75 || op == 0x77,
        op & 0xC7 == 0x86 ==> 0x80 <= op && op <= 0xBF && op & 0x07 == 6,
        op & 0xC7 == 0xC2 ==> op == 0xC2 || op == 0xCA || op == 0xD2 || op == 0xDA || op == 0xE2 || op
            == 0xEA || op == 0xF2 || op == 0xFA,
        op & 0xC7 == 0xC4 ==> op == 0xC4 || op == 0xCC || op == 0xD4 || op == 0xDC || op == 0xE4 || op
            == 0xEC || op == 0xF4 || op == 0xFC,
        op & 0xC7 == 0xC0 ==> op == 0xC0 || op == 0xC8 || op == 0xD0 || op == 0xD8 || op == 0xE0 || op
            == 0xE8 || op == 0xF0 || op == 0xF8,
        op & 0xC7 == 0xC6 ==> op == 0xC6 || op == 0xCE || op == 0xD6 || op == 0xDE || op == 0xE6 || op
            == 0xEE || op == 0xF6 || op == 0xFE,
        op & 0xC7 == 0x06 ==> op == 0x06 || op == 0x0E || op == 0x16 || op == 0x1E || op == 0x26 || op
            == 0x2E || op == 0x36 || op == 0x3E,
        op == 0x20 ==> (op >> 3u8) & 3 == 0,
        op == 0x28 ==> (op >> 3u8) & 3 == 1,
        op == 0x30 ==> (op >> 3u8) & 3 == 2,
        op == 0x38 ==> (op >> 3u8) & 3 == 3,
        ((op & 0x38) as u16) as int == ((op / 8) % 8) * 8,
{
    assert(op & 7 < 8 && (op >> 3u8) & 7 < 8 && (op & 0xC7 == 0x46 && op != 0x76 ==> (op == 0x46 || op
        == 0x4E || op == 0x56 || op == 0x5E || op == 0x66 || op == 0x6E || op == 0x7E) && (op >> 3u8)
        & 7 != 6) && (op & 0xF8 == 0x70 && op != 0x76 ==> op == 0x70 || op == 0x71 || op == 0x72 || op
        == 0x73 || op == 0x74 || op == 0x75 || op == 0x77) && (op & 0xC7 == 0x86 ==> 0x80 <= op && op
        <= 0xBF && op & 0x07 == 6) && (op & 0xC7 == 0xC2 ==> op == 0xC2 || op == 0xCA || op == 0xD2
        || op == 0xDA || op == 0xE2 || op == 0xEA || op == 0xF2 || op == 0xFA) && (op & 0xC7 == 0xC4
        ==> op == 0xC4 || op == 0xCC || op == 0xD4 || op == 0xDC || op == 0xE4 || op == 0xEC || op
        == 0xF4 || op == 0xFC) && (op & 0xC7 == 0xC0 ==> op == 0xC0 || op == 0xC8 || op == 0xD0 || op
        == 0xD8 || op == 0xE0 || op == 0xE8 || op == 0xF0 || op == 0xF8) && (op & 0xC7 == 0xC6 ==> op
        == 0xC6 || op == 0xCE || op == 0xD6 || op == 0xDE || op == 0xE6 || op == 0xEE || op == 0xF6
        || op == 0xFE) && (op & 0xC7 == 0x06 ==> op == 0x06 || op == 0x0E || op == 0x16 || op == 0x1E
        || op == 0x26 || op == 0x2E || op == 0x36 || op == 0x3E) && (op == 0x20 ==> (op >> 3u8) & 3
        == 0) && (op == 0x28 ==> (op >> 3u8) & 3 == 1) && (op == 0x30 ==> (op >> 3u8) & 3 == 2) && (op
        == 0x38 ==> (op >> 3u8) & 3 == 3) && ((op & 0x38) as u16) as int == ((op / 8) % 8) * 8)
        by (bit_vector);
}

/// An instruction under a DD or FD prefix whose second byte is neither a
/// prefix nor ED is the table's entry for that byte, both bytes fetched.
proof fn lemma_decode_indexed(s: CpuState, m: Map<u16, u8>, pin: u8)
    requires
        m[s.pc] == 0xDD || m[s.pc] == 0xFD,
        m[s.pc.wrapping_add(1)] != 0xDD && m[s.pc.wrapping_add(1)] != 0xFD && m[s.pc.wrapping_add(1)]
            != 0xED,
    ensures
        decode(s, m, pin) == with_bytes(
            seq![m[s.pc], m[s.pc.wrapping_add(1)]],
            index_table(after_fetch(after_fetch(s)), m, pin, m[s.pc], m[s.pc.wrapping_add(1)]),
        ),
{
    let prefix = m[s.pc];
    let s1 = after_fetch(s);
    let sub = m[s1.pc];
    lemma_run_is_index_op(s1, m, pin, prefix);
    let out = index_table(after_fetch(s1), m, pin, prefix, sub);
    assert(seq![prefix] + (seq![sub] + out.bytes) =~= seq![prefix, sub] + out.bytes);
}

/// The address of the (IX+d) or (IY+d) operand of the instruction at PC,
/// whose first byte is the DD or FD prefix: the index register plus the
/// displacement byte at PC+2 read as a signed byte, wrapping at 64 KiB.
pub open spec fn operand_address(s: CpuState, m: Map<u16, u8>) -> int {
    offset16(index_reg(s, m[s.pc]), signed_byte(m[s.pc.wrapping_add(2)]))
}

/// LD r,(IX+d) and LD r,(IY+d) load register r with the byte at the index
/// register plus the signed displacement (0xFE reads IX-2), leave that
/// address in WZ and memory as it was, take 19 T-states and go on after
/// the three bytes.
#[verifier::rlimit(100)]
pub proof fn law_indexed_load(s: CpuState, m: Map<u16, u8>, pin: u8)
    requires
        m[s.pc] == 0xDD || m[s.pc] == 0xFD,
        m[s.pc.wrapping_add(1)] & 0xC7 == 0x46,
        m[s.pc.wrapping_add(1)] != 0x76,
    ensures
        ({
            let out = decode(s, m, pin);
            &&& out.state.wz as int == operand_address(s, m)
            &&& reg8(out.state, m, (m[s.pc.wrapping_add(1)] >> 3u8) & 7) == m[out.state.wz]
            &&& out.memory == m
            &&& out.state.pc == s.pc.wrapping_add(3)
            &&& out.result == Ok::<u32, Fault>(19)
        }),
{
    let sub = m[s.pc.wrapping_add(1)];
    lemma_opcode_fields(sub);
    lemma_decode_indexed(s, m, pin);
    reveal(index_table);
    let s2 = after_fetch(after_fetch(s));
    assert(s2.pc == s.pc.wrapping_add(2));
    lemma_add_signed(index_reg(s, m[s.pc]), m[s2.pc]);
    assert(index_table(s2, m, pin, m[s.pc], sub) == crate::index::ld_r_index_mem(s2, m, m[s.pc], sub));
    let out = decode(s, m, pin);
    assert(out.state.wz == crate::index::index_addr(s2, m[s.pc], m[s2.pc]));
    assert(out.state.wz as int == operand_address(s, m));
    assert(out.memory == m);
    assert(out.state.pc == s.pc.wrapping_add(3));
    assert(out.result == Ok::<u32, Fault>(19));
    let r = (sub >> 3u8) & 7;
    lemma_opcode_fields(sub);
    assert(reg8(out.state, m, r) == m[out.state.wz]) by {
        if r == 0 {
        } else if r == 1 {
        } else if r == 2 {
        } else if r == 3 {
        } else if r == 4 {
        } else if r == 5 {
        } else {
        }
    }
}

/// LD (IX+d),r and LD (IY+d),r store register r (H and L the real ones) at
/// the index register plus the signed displacement; LD (IX+d),n stores the
/// byte after the displacement there. Both leave the address in WZ, take
/// 19 T-states and go on after the instruction's bytes.
#[verifier::rlimit(100)]
pub proof fn law_indexed_store(s: CpuState, m: Map<u16, u8>, pin: u8)
    requires
        m[s.pc] == 0xDD || m[s.pc] == 0xFD,
        (m[s.pc.wrapping_add(1)] & 0xF8 == 0x70 && m[s.pc.wrapping_add(1)] != 0x76) || m[s.pc.wrapping_add(
            1,
        )] == 0x36,
    ensures
        ({
            let sub = m[s.pc.wrapping_add(1)];
            let out = decode(s, m, pin);
            &&& out.state.wz as int == operand_address(s, m)
            &&& sub != 0x36 ==> out.memory == m.insert(out.state.wz, reg8(s, m, sub & 7))
                && out.state.pc == s.pc.wrapping_add(3)
            &&& sub == 0x36 ==> out.memory == m.insert(out.state.wz, m[s.pc.wrapping_add(3)])
                && out.state.pc == s.pc.wrapping_add(4)
            &&& out.result == Ok::<u32, Fault>(19)
        }),
{
    let sub = m[s.pc.wrapping_add(1)];
    lemma_opcode_fields(sub);
    lemma_decode_indexed(s, m, pin);
    reveal(index_table);
    let s2 = after_fetch(after_fetch(s));
    assert(s2.pc == s.pc.wrapping_add(2));
    assert(s2.pc.wrapping_add(1) == s.pc.wrapping_add(3));
    lemma_add_signed(index_reg(s, m[s.pc]), m[s2.pc]);
    let r = sub & 7;
    if sub != 0x36 {
        assert(reg8(s2, m, r) == reg8(s, m, r)) by {
            if r == 6 {
                assert(s2.hl() == s.hl());
            }
        }
    }
}

/// ALU A,(IX+d) and ALU A,(IY+d) combine A with the byte at the index
/// register plus the signed displacement, by the operation in bits 3-5 of
/// the opcode, leaving the address in WZ and memory as it was.
#[verifier::rlimit(100)]
pub proof fn law_indexed_alu(s: CpuState, m: Map<u16, u8>, pin: u8)
    requires
        m[s.pc] == 0xDD || m[s.pc] == 0xFD,
        m[s.pc.wrapping_add(1)] & 0xC7 == 0x86,
    ensures
        ({
            let sub = m[s.pc.wrapping_add(1)];
            let out = decode(s, m, pin);
            let r = alu8_spec((sub >> 3u8) & 7, s.a, m[out.state.wz], s.f);
            &&& out.state.wz as int == operand_address(s, m)
            &&& out.state.a == r.0 && out.state.f == r.1
            &&& out.memory == m
            &&& out.state.pc == s.pc.wrapping_add(3)
            &&& out.result == Ok::<u32, Fault>(19)
        }),
{
    let sub = m[s.pc.wrapping_add(1)];
    lemma_opcode_fields(sub);
    lemma_decode_indexed(s, m, pin);
    reveal(index_table);
    let s2 = after_fetch(after_fetch(s));
    assert(s2.pc == s.pc.wrapping_add(2));
    lemma_add_signed(index_reg(s, m[s.pc]), m[s2.pc]);
}

/// INC (IX+d) and DEC (IX+d) (and the IY forms) add or subtract one,
/// modulo 256, at the index register plus the signed displacement.
#[verifier::rlimit(100)]
pub proof fn law_indexed_inc_dec(s: CpuState, m: Map<u16, u8>, pin: u8)
    requires
        m[s.pc] == 0xDD || m[s.pc] == 0xFD,
        m[s.pc.wrapping_add(1)] == 0x34 || m[s.pc.wrapping_add(1)] == 0x35,
    ensures
        ({
            let out = decode(s, m, pin);
            let at = out.state.wz;
            &&& at as int == operand_address(s, m)
            &&& out.memory == m.insert(at, out.memory[at])
            &&& m[s.pc.wrapping_add(1)] == 0x34 ==> out.memory[at] as int == (m[at] + 1) % 256
            &&& m[s.pc.wrapping_add(1)] == 0x35 ==> out.memory[at] as int == (m[at] - 1) % 256
            &&& out.state.pc == s.pc.wrapping_add(3)
            &&& out.result == Ok::<u32, Fault>(23)
        }),
{
    lemma_decode_indexed(s, m, pin);
    reveal(index_table);
    let s2 = after_fetch(after_fetch(s));
    assert(s2.pc == s.pc.wrapping_add(2));
    lemma_add_signed(index_reg(s, m[s.pc]), m[s2.pc]);
    let out = decode(s, m, pin);
    let at = out.state.wz;
    assert(out.memory == m.insert(at, out.memory[at]));
}

/// The DDCB and FDCB group (rotates, shifts, BIT, RES and SET of (IX+d))
/// works on the byte at the index register plus the signed displacement
/// that follows the CB byte, the last byte being the operation.
#[verifier::rlimit(100)]
pub proof fn law_indexed_bit_group_address(s: CpuState, m: Map<u16, u8>, pin: u8)
    requires
        m[s.pc] == 0xDD || m[s.pc] == 0xFD,
        m[s.pc.wrapping_add(1)] == 0xCB,
    ensures
        ({
            let out = decode(s, m, pin);
            let op = m[s.pc.wrapping_add(3)];
            &&& out.state.wz as int == operand_address(s, m)
            &&& op <= 0x3F ==> out.memory == m.insert(
                out.state.wz,
                rot8_spec((op >> 3u8) & 7, m[out.state.wz], s.f).0,
            )
            &&& 0x40 <= op <= 0x7F ==> out.memory == m
            &&& out.state.pc == s.pc.wrapping_add(4)
        }),
{
    lemma_decode_indexed(s, m, pin);
    reveal(index_table);
    let s2 = after_fetch(after_fetch(s));
    assert(s2.pc == s.pc.wrapping_add(2));
    assert(s2.pc.wrapping_add(1) == s.pc.wrapping_add(3));
    lemma_add_signed(index_reg(s, m[s.pc]), m[s2.pc]);
}

/// The flag that condition code `cc` tests: Z for NZ/Z, C for NC/C, P/V
/// for PO/PE, S for P/M. An even code asks for the flag clear, an odd one
/// for it set.
pub open spec fn tested_flag(cc: u8) -> u8 {
    if cc < 2 {
        FLAG_Z
    } else if cc < 4 {
        FLAG_C
    } else if cc < 6 {
        FLAG_PV
    } else {
        FLAG_S
    }
}

/// JP cc,nn, CALL cc,nn and RET cc transfer control exactly when the flag
/// that their condition tests has the value it asks for (so JP M jumps on
/// a set sign flag and JP P on a clear one): to the operand word for JP
/// and CALL, to the word on top of the stack for RET; otherwise execution
/// goes on after the instruction. A CALL that is taken pushes the address
/// after it.
#[verifier::rlimit(100)]
pub proof fn law_conditional_transfers(s: CpuState, m: Map<u16, u8>, pin: u8)
    requires
        m[s.pc] & 0xC7 == 0xC2 || m[s.pc] & 0xC7 == 0xC4 || m[s.pc] & 0xC7 == 0xC0,
    ensures
        ({
            let op = m[s.pc];
            let cc = (op >> 3u8) & 7;
            let taken = flag_value(s.f, tested_flag(cc)) == cc % 2;
            let nn = word(m[s.pc.wrapping_add(1)], m[s.pc.wrapping_add(2)]);
            let out = decode(s, m, pin);
            &&& op & 0xC7 == 0xC2 ==> out.state.pc == if taken {
                nn
            } else {
                s.pc.wrapping_add(3)
            }
            &&& op & 0xC7 == 0xC4 ==> out.state.pc == if taken {
                nn
            } else {
                s.pc.wrapping_add(3)
            }
            &&& op & 0xC7 == 0xC4 && taken ==> out.state.sp == s.sp.wrapping_sub(2) && top_word(
                out.state,
                out.memory,
            ) == s.pc.wrapping_add(3)
            &&& op & 0xC7 == 0xC0 ==> out.state.pc == if taken {
                top_word(s, m)
            } else {
                s.pc.wrapping_add(1)
            }
        }),
{
    let op = m[s.pc];
    let cc = (op >> 3u8) & 7;
    lemma_opcode_fields(op);
    law_condition_codes(s.f);
    reveal(main_op);
    let s1 = after_fetch(s);
    assert(s1.pc.wrapping_add(1) == s.pc.wrapping_add(2));
    assert(s1.pc.wrapping_add(1).wrapping_add(1) == s.pc.wrapping_add(3));
    if op & 0xC7 == 0xC4 {
        let sp = s.sp;
        let ret = s.pc.wrapping_add(3);
        assert(sp.wrapping_sub(2).wrapping_add(1) == sp.wrapping_sub(1));
        assert(sp.wrapping_sub(2) != sp.wrapping_sub(1));
        crate::laws::lemma_pair_high_low(ret);
    }
}

/// JR e jumps, and JR cc,e (NZ, Z, NC, C) jumps exactly when its flag has
/// the value asked for, by the displacement read as a signed byte from the
/// address after the instruction; DJNZ counts B down modulo 256 and jumps
/// the same way exactly when B has not reached zero. Otherwise execution
/// goes on after the two bytes.
#[verifier::rlimit(100)]
pub proof fn law_relative_transfers(s: CpuState, m: Map<u16, u8>, pin: u8)
    requires
        m[s.pc] == 0x10 || m[s.pc] == 0x18 || m[s.pc] == 0x20 || m[s.pc] == 0x28 || m[s.pc] == 0x30
            || m[s.pc] == 0x38,
    ensures
        ({
            let op = m[s.pc];
            let cc = (op >> 3u8) & 3;
            let next = s.pc.wrapping_add(2);
            let out = decode(s, m, pin);
            let taken = if op == 0x10 {
                out.state.b != 0
            } else {
                op == 0x18 || flag_value(s.f, tested_flag(cc)) == cc % 2
            };
            &&& op == 0x10 ==> out.state.b as int == (s.b - 1) % 256
            &&& taken ==> out.state.pc as int == offset16(next, signed_byte(m[s.pc.wrapping_add(1)]))
            &&& !taken ==> out.state.pc == next
            &&& out.memory == m
        }),
{
    let op = m[s.pc];
    let cc = (op >> 3u8) & 3;
    lemma_opcode_fields(op);
    law_condition_codes(s.f);
    reveal(main_op);
    let s1 = after_fetch(s);
    assert(s1.pc.wrapping_add(1) == s.pc.wrapping_add(2));
    lemma_add_signed(s.pc.wrapping_add(2), m[s1.pc]);
    let out = decode(s, m, pin);
    if op == 0x10 {
        assert(out == with_bytes(seq![op], crate::control::djnz(s1, m)));
    } else {
        assert(out == with_bytes(seq![op], crate::control::jr(s1, m, op)));
    }
}

/// Half carry, overflow and sign of ADD, ADC, SUB, SBC and CP: H marks a
/// carry out of (or borrow into) the low nibble, P/V a signed result
/// outside -128..127, S a result with bit 7 set (for CP, the difference).
pub proof fn law_alu_half_carry_overflow(a: u8, v: u8, f: u8)
    ensures
        flag_value(alu8_spec(0, a, v, f).1, FLAG_H) == 1 <==> a % 16 + v % 16 > 15,
        flag_value(alu8_spec(1, a, v, f).1, FLAG_H) == 1 <==> a % 16 + v % 16 + flag_value(f, FLAG_C)
            > 15,
        flag_value(alu8_spec(2, a, v, f).1, FLAG_H) == 1 <==> a % 16 < v % 16,
        flag_value(alu8_spec(3, a, v, f).1, FLAG_H) == 1 <==> a % 16 < v % 16 + flag_value(f, FLAG_C),
        flag_value(alu8_spec(7, a, v, f).1, FLAG_H) == 1 <==> a % 16 < v % 16,
        flag_value(alu8_spec(0, a, v, f).1, FLAG_PV) == 1 <==> !fits_signed_byte(
            signed_byte(a) + signed_byte(v),
        ),
        flag_value(alu8_spec(1, a, v, f).1, FLAG_PV) == 1 <==> !fits_signed_byte(
            signed_byte(a) + signed_byte(v) + flag_value(f, FLAG_C),
        ),
        flag_value(alu8_spec(2, a, v, f).1, FLAG_PV) == 1 <==> !fits_signed_byte(
            signed_byte(a) - signed_byte(v),
        ),
        flag_value(alu8_spec(3, a, v, f).1, FLAG_PV) == 1 <==> !fits_signed_byte(
            signed_byte(a) - signed_byte(v) - flag_value(f, FLAG_C),
        ),
        flag_value(alu8_spec(7, a, v, f).1, FLAG_PV) == 1 <==> !fits_signed_byte(
            signed_byte(a) - signed_byte(v),
        ),
        forall|op: u8|
            op < 7 ==> (flag_value(#[trigger] alu8_spec(op, a, v, f).1, FLAG_S) == 1 <==> alu8_spec(
                op,
                a,
                v,
                f,
            ).0 >= 128),
        flag_value(alu8_spec(7, a, v, f).1, FLAG_S) == 1 <==> (a - v) % 256 >= 128,
{
    let c = f & 1;
    lemma_byte_bits(f);
    lemma_add8(a, v, 0);
    lemma_add8(a, v, c);
    lemma_sub8(a, v, 0);
    lemma_sub8(a, v, c);
    lemma_cp_flags(sub8_spec(a, v, 0).1, v);
    lemma_szp_flags(a & v, 0x10, 0, 0);
    lemma_szp_flags(a ^ v, 0, 0, 0);
    lemma_szp_flags(a | v, 0, 0, 0);
}

/// INC and DEC of a byte add or subtract one modulo 256 and keep the carry
/// flag; H marks a carry out of (or borrow into) the low nibble, P/V a
/// signed result outside -128..127, Z a zero result, N the decrement.
pub proof fn law_inc_dec_arithmetic(v: u8, f: u8)
    ensures
        inc8_spec(v, f).0 as int == (v + 1) % 256,
        dec8_spec(v, f).0 as int == (v - 1) % 256,
        flag_value(inc8_spec(v, f).1, FLAG_C) == flag_value(f, FLAG_C),
        flag_value(dec8_spec(v, f).1, FLAG_C) == flag_value(f, FLAG_C),
        flag_value(inc8_spec(v, f).1, FLAG_H) == 1 <==> v % 16 == 15,
        flag_value(dec8_spec(v, f).1, FLAG_H) == 1 <==> v % 16 == 0,
        flag_value(inc8_spec(v, f).1, FLAG_PV) == 1 <==> !fits_signed_byte(signed_byte(v) + 1),
        flag_value(dec8_spec(v, f).1, FLAG_PV) == 1 <==> !fits_signed_byte(signed_byte(v) - 1),
        flag_value(inc8_spec(v, f).1, FLAG_Z) == 1 <==> inc8_spec(v, f).0 == 0,
        flag_value(dec8_spec(v, f).1, FLAG_Z) == 1 <==> dec8_spec(v, f).0 == 0,
        flag_value(inc8_spec(v, f).1, FLAG_N) == 0,
        flag_value(dec8_spec(v, f).1, FLAG_N) == 1,
{
    let up = v.wrapping_add(1);
    let down = v.wrapping_sub(1);
    let zu = zero_bit(up);
    let zd = zero_bit(down);
    let hu: u8 = if v & 0x0F == 0x0F { 0x10 } else { 0 };
    let hd: u8 = if v & 0x0F == 0 { 0x10 } else { 0 };
    let pu: u8 = if v == 0x7F { 0x04 } else { 0 };
    let pd: u8 = if v == 0x80 { 0x04 } else { 0 };
    lemma_byte_bits(v);
    assert(({
        let fu = (up & 0xA8) | zu | hu | pu | (f & 0x01);
        let fd = (down & 0xA8) | zd | hd | pd | 0x02 | (f & 0x01);
        &&& fu & 0x01 == f & 0x01
        &&& fu & 0x10 == hu
        &&& fu & 0x04 == pu
        &&& fu & 0x40 == zu
        &&& fu & 0x02 == 0
        &&& fd & 0x01 == f & 0x01
        &&& fd & 0x10 == hd
        &&& fd & 0x04 == pd
        &&& fd & 0x40 == zd
        &&& fd & 0x02 == 0x02
    })) by (bit_vector)
        requires
            zu == 0 || zu == 0x40,
            hu == 0 || hu == 0x10,
            pu == 0 || pu == 0x04,
            zd == 0 || zd == 0x40,
            hd == 0 || hd == 0x10,
            pd == 0 || pd == 0x04,
    ;
}

/// ADD HL,rr, ADC HL,rr and SBC HL,rr (carry in `c`, 0 or 1) give the sum
/// or difference modulo 65536, with the carry flag set exactly when the
/// sum passes 0xFFFF or the subtrahend exceeds HL; ADC and SBC set Z
/// exactly on a zero result; only SBC sets N; ADD keeps S, Z and P/V.
pub proof fn law_arithmetic16(hl: u16, v: u16, f: u8, c: u8)
    requires
        c <= 1,
    ensures
        add16_spec(hl, v, f).0 as int == (hl + v) % 0x10000,
        adc16_spec(hl, v, c).0 as int == (hl + v + c) % 0x10000,
        sbc16_spec(hl, v, c).0 as int == (hl - v - c) % 0x10000,
        flag_value(add16_spec(hl, v, f).1, FLAG_C) == 1 <==> hl + v > 0xFFFF,
        flag_value(adc16_spec(hl, v, c).1, FLAG_C) == 1 <==> hl + v + c > 0xFFFF,
        flag_value(sbc16_spec(hl, v, c).1, FLAG_C) == 1 <==> hl < v + c,
        flag_value(adc16_spec(hl, v, c).1, FLAG_Z) == 1 <==> adc16_spec(hl, v, c).0 == 0,
        flag_value(sbc16_spec(hl, v, c).1, FLAG_Z) == 1 <==> sbc16_spec(hl, v, c).0 == 0,
        flag_value(add16_spec(hl, v, f).1, FLAG_N) == 0,
        flag_value(adc16_spec(hl, v, c).1, FLAG_N) == 0,
        flag_value(sbc16_spec(hl, v, c).1, FLAG_N) == 1,
        add16_spec(hl, v, f).1 & 0xC4 == f & 0xC4,
{
    let sum: u32 = (hl as u32 + v as u32) as u32;
    let r: u16 = sum as u16;
    let hb: u8 = if (hl ^ v ^ r) & 0x1000 != 0 { 0x10 } else { 0 };
    let cb: u8 = if sum > 0xFFFF { 0x01 } else { 0 };
    let sum2: u32 = (hl as u32 + v as u32 + c as u32) as u32;
    let r2: u16 = sum2 as u16;
    let z2: u8 = if r2 == 0 { 0x40 } else { 0 };
    let h2: u8 = if (hl ^ v ^ r2) & 0x1000 != 0 { 0x10 } else { 0 };
    let p2: u8 = if (hl ^ v ^ 0x8000) & (hl ^ r2) & 0x8000 != 0 { 0x04 } else { 0 };
    let c2: u8 = if sum2 > 0xFFFF { 0x01 } else { 0 };
    let r3 = hl.wrapping_sub(v).wrapping_sub(c as u16);
    let z3: u8 = if r3 == 0 { 0x40 } else { 0 };
    let h3: u8 = if (hl ^ v ^ r3) & 0x1000 != 0 { 0x10 } else { 0 };
    let p3: u8 = if (hl ^ v) & (hl ^ r3) & 0x8000 != 0 { 0x04 } else { 0 };
    let c3: u8 = if (hl as u32) < v as u32 + c as u32 { 0x01 } else { 0 };
    assert(({
        let fa = (f & 0xC4) | (((r >> 8u16) as u8) & 0x28) | hb | cb;
        let fc = (((r2 >> 8u16) as u8) & 0xA8) | z2 | h2 | p2 | c2;
        let fs = (((r3 >> 8u16) as u8) & 0xA8) | z3 | h3 | p3 | 0x02 | c3;
        &&& r as u32 == sum % 0x10000
        &&& r2 as u32 == sum2 % 0x10000
        &&& fa & 0x01 == cb
        &&& fa & 0x02 == 0
        &&& fa & 0xC4 == f & 0xC4
        &&& fc & 0x01 == c2
        &&& fc & 0x02 == 0
        &&& fc & 0x40 == z2
        &&& fs & 0x01 == c3
        &&& fs & 0x02 == 0x02
        &&& fs & 0x40 == z3
    })) by (bit_vector)
        requires
            r == sum as u16,
            r2 == sum2 as u16,
            hb == 0 || hb == 0x10,
            cb == 0 || cb == 0x01,
            z2 == 0 || z2 == 0x40,
            h2 == 0 || h2 == 0x10,
            p2 == 0 || p2 == 0x04,
            c2 == 0 || c2 == 0x01,
            z3 == 0 || z3 == 0x40,
            h3 == 0 || h3 == 0x10,
            p3 == 0 || p3 == 0x04,
            c3 == 0 || c3 == 0x01,
    ;
}

/// Bit `i` of `x`.
pub open spec fn bit_of(x: u8, i: u8) -> bool {
    (x >> i) & 1 == 1
}

/// RES b and SET b clear or set bit b and keep every other bit; BIT b sets
/// Z and P/V exactly when bit b is clear, sets H, clears N and keeps the
/// carry.
pub proof fn law_bit_operations(v: u8, b: u8, i: u8, set: bool, xy: u8, f: u8)
    requires
        b < 8,
        i < 8,
    ensures
        bit_of(crate::rotate::res_set_value(v, b, set), i) == if i == b {
            set
        } else {
            bit_of(v, i)
        },
        flag_value(bit_flags(b, v, xy, f), FLAG_Z) == 1 <==> !bit_of(v, b),
        flag_value(bit_flags(b, v, xy, f), FLAG_PV) == 1 <==> !bit_of(v, b),
        flag_value(bit_flags(b, v, xy, f), FLAG_H) == 1,
        flag_value(bit_flags(b, v, xy, f), FLAG_N) == 0,
        flag_value(bit_flags(b, v, xy, f), FLAG_C) == flag_value(f, FLAG_C),
{
    let tested = v & (1u8 << b);
    let z: u8 = if tested == 0 { 0x44 } else { 0 };
    let sb: u8 = if b == 7 && tested != 0 { 0x80 } else { 0 };
    assert(({
        let fb = (f & 0x01) | 0x10 | z | sb | (xy & 0x28);
        &&& ((v | (1u8 << b)) >> i) & 1 == 1 <==> (i == b || (v >> i) & 1 == 1)
        &&& ((v & !(1u8 << b)) >> i) & 1 == 1 <==> (i != b && (v >> i) & 1 == 1)
        &&& (tested == 0) <==> !((v >> b) & 1 == 1)
        &&& fb & 0x40 != 0 <==> z == 0x44
        &&& fb & 0x04 != 0 <==> z == 0x44
        &&& fb & 0x10 == 0x10
        &&& fb & 0x02 == 0
        &&& fb & 0x01 == f & 0x01
    })) by (bit_vector)
        requires
            b < 8,
            i < 8,
            tested == v & (1u8 << b),
            z == 0 || z == 0x44,
            sb == 0 || sb == 0x80,
    ;
}

/// RLD moves the low nibble of (HL) up, the high nibble of (HL) into the
/// low nibble of A and the low nibble of A into the low nibble of (HL);
/// RRD turns the same three nibbles the other way. The high nibble of A
/// stays.
pub proof fn law_nibble_rotates(s: CpuState, m: Map<u16, u8>)
    ensures
        ({
            let t = m[s.hl()];
            let left = crate::rotate::rxd(s, m, true);
            let right = crate::rotate::rxd(s, m, false);
            &&& left.state.a as int == (s.a / 16) * 16 + t / 16
            &&& left.memory[s.hl()] as int == (t % 16) * 16 + s.a % 16
            &&& right.state.a as int == (s.a / 16) * 16 + t % 16
            &&& right.memory[s.hl()] as int == (s.a % 16) * 16 + t / 16
            &&& left.memory == m.insert(s.hl(), left.memory[s.hl()])
            &&& right.memory == m.insert(s.hl(), right.memory[s.hl()])
        }),
{
    let t = m[s.hl()];
    let a = s.a;
    assert(((a & 0xF0) | (t >> 4u8)) as int == (a / 16) * 16 + t / 16 && ((t << 4u8) | (a & 0x0F)) as int
        == (t % 16) * 16 + a % 16 && ((a & 0xF0) | (t & 0x0F)) as int == (a / 16) * 16 + t % 16 && ((a
        << 4u8) | (t >> 4u8)) as int == (a % 16) * 16 + t / 16) by (bit_vector);
}

/// RLCA, RRCA, RLA and RRA rotate A as RLC, RRC, RL and RR do, with the
/// bit shifted out in the carry, and keep S, Z and P/V.
pub proof fn law_accumulator_rotates(s: CpuState, m: Map<u16, u8>)
    ensures
        ({
            let a = s.a;
            let c = flag_value(s.f, FLAG_C);
            &&& crate::rotate::rot_a(s, m, 0x07).state.a as int == (a * 2) % 256 + a / 128
            &&& crate::rotate::rot_a(s, m, 0x0F).state.a as int == a / 2 + (a % 2) * 128
            &&& crate::rotate::rot_a(s, m, 0x17).state.a as int == (a * 2) % 256 + c
            &&& crate::rotate::rot_a(s, m, 0x1F).state.a as int == a / 2 + c * 128
            &&& flag_value(crate::rotate::rot_a(s, m, 0x07).state.f, FLAG_C) as int == a / 128
            &&& flag_value(crate::rotate::rot_a(s, m, 0x17).state.f, FLAG_C) as int == a / 128
            &&& flag_value(crate::rotate::rot_a(s, m, 0x0F).state.f, FLAG_C) as int == a % 2
            &&& flag_value(crate::rotate::rot_a(s, m, 0x1F).state.f, FLAG_C) as int == a % 2
            &&& forall|op: u8|
                (op == 0x07 || op == 0x0F || op == 0x17 || op == 0x1F) ==> #[trigger] crate::rotate::rot_a(
                    s,
                    m,
                    op,
                ).state.f & 0xC4 == s.f & 0xC4
        }),
{
    let v = s.a;
    let f = s.f;
    law_rotate_shift_arithmetic(v, f);
    let hi = v >> 7u8;
    let lo = v & 1;
    lemma_byte_bits(v);
    assert forall|op: u8| (op == 0x07 || op == 0x0F || op == 0x17 || op == 0x1F) implies {
        let out = #[trigger] crate::rotate::rot_a(s, m, op);
        let cb = if op == 0x07 || op == 0x17 { hi } else { lo };
        &&& out.state.f & 0xC4 == f & 0xC4
        &&& out.state.f & 0x01 == cb
    } by {
        let out = crate::rotate::rot_a(s, m, op);
        let res = out.state.a;
        let cb = if op == 0x07 || op == 0x17 { hi } else { lo };
        assert(((f & 0xC4) | (res & 0x28) | cb) & 0xC4 == f & 0xC4 && ((f & 0xC4) | (res & 0x28) | cb)
            & 0x01 == cb) by (bit_vector)
            requires
                cb <= 1,
        ;
    }
    assert(crate::rotate::rot_a(s, m, 0x07).state.a == rot8_spec(0, v, f).0);
    assert(crate::rotate::rot_a(s, m, 0x0F).state.a == rot8_spec(1, v, f).0);
    assert(crate::rotate::rot_a(s, m, 0x17).state.a == rot8_spec(2, v, f).0);
    assert(crate::rotate::rot_a(s, m, 0x1F).state.a == rot8_spec(3, v, f).0);
}

/// NEG leaves 0 - A modulo 256 in A, with the carry flag set exactly when
/// A was not zero, and N set.
pub proof fn law_negate(s: CpuState, m: Map<u16, u8>)
    ensures
        crate::arith::neg(s, m).state.a as int == (0 - s.a) % 256,
        flag_value(crate::arith::neg(s, m).state.f, FLAG_C) == 1 <==> s.a != 0,
        flag_value(crate::arith::neg(s, m).state.f, FLAG_N) == 1,
{
    lemma_sub8(0, s.a, 0);
}

/// Whether both nibbles of `x` are decimal digits.
pub open spec fn is_bcd(x: u8) -> bool {
    x % 16 <= 9 && x / 16 <= 9
}

/// The number 0 to 99 that a packed decimal byte stands for.
pub open spec fn bcd_value(x: u8) -> int {
    (x / 16) * 10 + x % 16
}

/// DAA after adding two packed decimal bytes (ADD, or ADC with carry in
/// `c`) leaves the packed decimal sum modulo 100 in A, with the carry flag
/// set exactly when the decimal sum reached 100.
pub proof fn law_decimal_adjust_add(a: u8, v: u8, c: u8)
    requires
        is_bcd(a),
        is_bcd(v),
        c <= 1,
    ensures
        ({
            let sum = add8_spec(a, v, c);
            let d = daa_spec(sum.0, sum.1);
            &&& is_bcd(d.0)
            &&& bcd_value(d.0) == (bcd_value(a) + bcd_value(v) + c) % 100
            &&& flag_value(d.1, FLAG_C) == 1 <==> bcd_value(a) + bcd_value(v) + c >= 100
        }),
{
    let sum = add8_spec(a, v, c);
    let r = sum.0;
    let fl = sum.1;
    lemma_add8(a, v, c);
    lemma_add8(a, v, c);
    let h: u8 = if a % 16 + v % 16 + c > 15 { 1 } else { 0 };
    let cy: u8 = if a + v + c > 255 { 1 } else { 0 };
    assert(fl & 0x10 != 0 <==> h == 1);
    assert(fl & 0x01 != 0 <==> cy == 1);
    assert(fl & 0x02 == 0);
    let diff: u8 = (if h == 1 || r & 0x0F > 9 { 0x06u8 } else { 0 }) | (if cy == 1 || r > 0x99 {
        0x60u8
    } else {
        0
    });
    let out = r.wrapping_add(diff);
    assert(daa_spec(r, fl).0 == out);
    assert(({
        &&& out % 16 <= 9 && out / 16 <= 9
        &&& (out / 16) * 10 + out % 16 == ((a / 16) * 10 + a % 16 + (v / 16) * 10 + v % 16 + c) % 100
        &&& (cy == 1 || r > 0x99) <==> (a / 16) * 10 + a % 16 + (v / 16) * 10 + v % 16 + c >= 100
    })) by (bit_vector)
        requires
            a % 16 <= 9 && a / 16 <= 9,
            v % 16 <= 9 && v / 16 <= 9,
            c <= 1,
            r == (a as u16 + v as u16 + c as u16) as u8,
            h == 1 <==> a % 16 + v % 16 + c > 15,
            h <= 1,
            cy == 1 <==> a + v + c > 255,
            cy <= 1,
            diff == (if h == 1 || r & 0x0F > 9 { 0x06u8 } else { 0 }) | (if cy == 1 || r > 0x99 {
                0x60u8
            } else {
                0
            }),
            out == r.wrapping_add(diff),
    ;
    assert(flag_value(daa_spec(r, fl).1, FLAG_C) == 1 <==> (cy == 1 || r > 0x99)) by {
        let hb: u8 = if r & 0x0F > 9 { 0x10 } else { 0 };
        let cb: u8 = if fl & 0x01 != 0 || r > 0x99 { 0x01 } else { 0 };
        lemma_byte_bits(fl);
        lemma_szp_flags(out, hb, fl & 0x02, cb);
    }
}

/// DAA after subtracting one packed decimal byte from another (SUB, or SBC
/// with borrow in `c`) leaves the packed decimal difference modulo 100 in
/// A, with the carry flag set exactly when the decimal difference was
/// negative.
pub proof fn law_decimal_adjust_sub(a: u8, v: u8, c: u8)
    requires
        is_bcd(a),
        is_bcd(v),
        c <= 1,
    ensures
        ({
            let diff = sub8_spec(a, v, c);
            let d = daa_spec(diff.0, diff.1);
            &&& is_bcd(d.0)
            &&& bcd_value(d.0) == (bcd_value(a) - bcd_value(v) - c) % 100
            &&& flag_value(d.1, FLAG_C) == 1 <==> bcd_value(a) < bcd_value(v) + c
        }),
{
    let sd = sub8_spec(a, v, c);
    let r = sd.0;
    let fl = sd.1;
    lemma_sub8(a, v, c);
    lemma_sub8(a, v, c);
    let h: u8 = if a % 16 < v % 16 + c { 1 } else { 0 };
    let cy: u8 = if a < v + c { 1 } else { 0 };
    assert(fl & 0x10 != 0 <==> h == 1);
    assert(fl & 0x01 != 0 <==> cy == 1);
    assert(fl & 0x02 != 0);
    let corr: u8 = (if h == 1 || r & 0x0F > 9 { 0x06u8 } else { 0 }) | (if cy == 1 || r > 0x99 {
        0x60u8
    } else {
        0
    });
    let out = r.wrapping_sub(corr);
    assert(daa_spec(r, fl).0 == out);
    assert(({
        &&& out % 16 <= 9 && out / 16 <= 9
        &&& (out / 16) * 10 + out % 16 == ((a / 16) * 10 + a % 16 - (v / 16) * 10 - v % 16 - c) % 100
        &&& (cy == 1 || r > 0x99) <==> (a / 16) * 10 + a % 16 < (v / 16) * 10 + v % 16 + c
    })) by (bit_vector)
        requires
            a % 16 <= 9 && a / 16 <= 9,
            v % 16 <= 9 && v / 16 <= 9,
            c <= 1,
            r == a.wrapping_sub(v).wrapping_sub(c),
            h == 1 <==> a % 16 < v % 16 + c,
            h <= 1,
            cy == 1 <==> a < v + c,
            cy <= 1,
            corr == (if h == 1 || r & 0x0F > 9 { 0x06u8 } else { 0 }) | (if cy == 1 || r > 0x99 {
                0x60u8
            } else {
                0
            }),
            out == r.wrapping_sub(corr),
    ;
    assert(flag_value(daa_spec(r, fl).1, FLAG_C) == 1 <==> (cy == 1 || r > 0x99)) by {
        let hb: u8 = if fl & 0x10 != 0 && r & 0x0F < 6 { 0x10 } else { 0 };
        let cb: u8 = if fl & 0x01 != 0 || r > 0x99 { 0x01 } else { 0 };
        lemma_byte_bits(fl);
        lemma_szp_flags(out, hb, fl & 0x02, cb);
    }
}

/// A register pair is its high byte times 256 plus its low byte, and an
/// operand word is little-endian: its first byte is the low one.
pub proof fn law_byte_pairs(h: u8, l: u8, v: u16)
    ensures
        crate::state::pair(h, l) as int == h * 256 + l,
        word(l, h) as int == h * 256 + l,
        crate::state::high(v) as int == v / 256,
        crate::state::low(v) as int == v % 256,
{
    assert(((h as u16) << 8u16) | (l as u16) == (h as u16) * 256 + (l as u16) && ((v >> 8u16) as u8)
        as int == v / 256 && (v as u8) as int == v % 256) by (bit_vector);
    assert(((h as u16) * 256 + (l as u16)) as int == h * 256 + l);
}

/// A push stores the word below SP, little-endian: its low byte at SP-2
/// and its high byte at SP-1, nothing else changed; the word on top of
/// the stack that SP-2 then points at is the word pushed.
pub proof fn law_push_stores_little_endian(s: CpuState, m: Map<u16, u8>, v: u16)
    ensures
        ({
            let pushed = crate::machine::push_mem(s, m, v);
            let below = CpuState { sp: s.sp.wrapping_sub(2), ..s };
            &&& pushed[s.sp.wrapping_sub(2)] as int == v % 256
            &&& pushed[s.sp.wrapping_sub(1)] as int == v / 256
            &&& forall|a: u16|
                a != s.sp.wrapping_sub(1) && a != s.sp.wrapping_sub(2) ==> #[trigger] pushed[a] == m[a]
            &&& top_word(below, pushed) == v
        }),
{
    let sp = s.sp;
    assert(sp.wrapping_sub(2).wrapping_add(1) == sp.wrapping_sub(1));
    assert(sp.wrapping_sub(2) != sp.wrapping_sub(1));
    law_byte_pairs(crate::state::high(v), crate::state::low(v), v);
    crate::laws::lemma_pair_high_low(v);
}

/// RST p pushes the address after it and jumps to p, eight times the
/// number in bits 3-5 of its opcode.
pub proof fn law_restart_targets(s: CpuState, m: Map<u16, u8>, op: u8)
    requires
        op & 0xC7 == 0xC7,
    ensures
        ({
            let out = crate::control::rst(s, m, op);
            &&& out.state.pc as int == ((op / 8) % 8) * 8
            &&& out.state.sp == s.sp.wrapping_sub(2)
            &&& top_word(out.state, out.memory) == s.pc
        }),
{
    lemma_opcode_fields(op);
    law_push_stores_little_endian(s, m, s.pc);
}

/// An accepted interrupt pushes PC and continues at 0x0066 for NMI, at
/// 0x0038 in mode 1, and in mode 2 at the word stored at I times 256 plus
/// the byte on the data bus.
pub proof fn law_interrupt_targets(s: CpuState, m: Map<u16, u8>, v: u8)
    ensures
        ({
            let nmi = crate::control::accept_nmi(s, m);
            let irq = crate::control::accept_maskable(s, m, v);
            let table = (s.i * 256 + v) as u16;
            &&& nmi.state.pc == 0x66 && top_word(nmi.state, nmi.memory) == s.pc
            &&& s.im == 1 ==> irq.state.pc == 0x38 && top_word(irq.state, irq.memory) == s.pc
            &&& s.im == 2 ==> irq.state.pc == word(irq.memory[table], irq.memory[table.wrapping_add(1)])
                && top_word(irq.state, irq.memory) == s.pc
        }),
{
    law_push_stores_little_endian(s, m, s.pc);
    law_byte_pairs(s.i, v, 0);
}

/// IN A,(n) and OUT (n),A address the port A times 256 plus n; IN r,(C)
/// and OUT (C),r the port BC. IN A,(n) loads A with what the device
/// answers, OUT (n),A sends A.
pub proof fn law_port_addresses(s: CpuState, m: Map<u16, u8>, pin: u8, op: u8)
    ensures
        ({
            let n = m[s.pc];
            let input = crate::io::in_a_n(s, m, pin);
            let output = crate::io::out_n_a(s, m);
            &&& input.io == seq![crate::machine::PortAccess::Read { port: (s.a * 256 + n) as u16, value: pin }]
            &&& input.state.a == pin
            &&& output.io == seq![crate::machine::PortAccess::Write { port: (s.a * 256 + n) as u16, value: s.a }]
            &&& crate::io::in_r_c(s, m, op, pin).io == seq![crate::machine::PortAccess::Read { port: (s.b * 256 + s.c) as u16, value: pin }]
            &&& crate::io::out_c_r(s, m, op).io[0] is Write
            &&& crate::io::out_c_r(s, m, op).io[0]->Write_port == (s.b * 256 + s.c) as u16
        }),
{
    law_byte_pairs(s.a, m[s.pc], 0);
    law_byte_pairs(s.b, s.c, 0);
}

/// The eight register operands in opcode order, B, C, D, E, H, L, (HL), A,
/// after a step that leaves HL as it was: register `idx` of the new state
/// and memory.
proof fn lemma_reg8_cases(idx: u8)
    requires
        idx < 8,
    ensures
        idx == 0 || idx == 1 || idx == 2 || idx == 3 || idx == 4 || idx == 5 || idx == 6 || idx == 7,
{
}

/// ALU A,r with r in B, C, D, E, H, L, (HL), A (opcodes 0x80 to 0xBF)
/// combines A with the operand that bits 0-2 name by the operation that
/// bits 3-5 name; ALU A,n (0xC6, 0xCE, ..., 0xFE) with the byte after the
/// opcode. Memory is left as it was.
#[verifier::rlimit(100)]
pub proof fn law_accumulator_operations(s: CpuState, m: Map<u16, u8>, pin: u8)
    requires
        (0x80 <= m[s.pc] && m[s.pc] <= 0xBF) || m[s.pc] & 0xC7 == 0xC6,
    ensures
        ({
            let op = m[s.pc];
            let out = decode(s, m, pin);
            let operand = if op < 0xC0 {
                reg8(s, m, op & 7)
            } else {
                m[s.pc.wrapping_add(1)]
            };
            let r = alu8_spec((op >> 3u8) & 7, s.a, operand, s.f);
            &&& out.state.a == r.0 && out.state.f == r.1
            &&& out.memory == m
            &&& out.state.pc == if op < 0xC0 {
                s.pc.wrapping_add(1)
            } else {
                s.pc.wrapping_add(2)
            }
        }),
{
    let op = m[s.pc];
    lemma_opcode_fields(op);
    reveal(main_op);
    let s1 = after_fetch(s);
    assert(s1.hl() == s.hl());
    assert(reg8(s1, m, op & 7) == reg8(s, m, op & 7));
}

/// LD r,r' copies the register (or (HL)) that bits 0-2 name into the one
/// that bits 3-5 name; LD r,n loads the byte after the opcode into it.
#[verifier::rlimit(100)]
pub proof fn law_register_loads(s: CpuState, m: Map<u16, u8>, pin: u8)
    requires
        (0x40 <= m[s.pc] && m[s.pc] <= 0x7F && m[s.pc] != 0x76) || m[s.pc] & 0xC7 == 0x06,
    ensures
        ({
            let op = m[s.pc];
            let out = decode(s, m, pin);
            let value = if op >= 0x40 {
                reg8(s, m, op & 7)
            } else {
                m[s.pc.wrapping_add(1)]
            };
            &&& reg8(out.state, out.memory, (op >> 3u8) & 7) == value
            &&& out.state.hl() == s.hl() || (op >> 3u8) & 7 == 4 || (op >> 3u8) & 7 == 5
        }),
{
    let op = m[s.pc];
    let dst = (op >> 3u8) & 7;
    lemma_opcode_fields(op);
    reveal(main_op);
    let s1 = after_fetch(s);
    assert(s1.hl() == s.hl());
    assert(reg8(s1, m, op & 7) == reg8(s, m, op & 7));
    lemma_reg8_cases(dst);
}

/// The CB group on B, C, D, E, H, L, (HL), A (named by bits 0-2): a rotate
/// or shift (0x00-0x3F) replaces the operand by its result, BIT (0x40-0x7F)
/// leaves registers and memory and sets Z exactly when the bit is clear,
/// RES and SET (0x80-0xFF) clear or set the bit that bits 3-5 name.
#[verifier::rlimit(100)]
pub proof fn law_bit_group(s: CpuState, m: Map<u16, u8>, pin: u8)
    requires
        m[s.pc] == 0xCB,
    ensures
        ({
            let sub = m[s.pc.wrapping_add(1)];
            let idx = sub & 7;
            let b = (sub >> 3u8) & 7;
            let v = reg8(s, m, idx);
            let out = decode(s, m, pin);
            &&& out.state.hl() == s.hl() || idx == 4 || idx == 5
            &&& sub < 0x40 ==> reg8(out.state, out.memory, idx) == rot8_spec(b, v, s.f).0
                && out.state.f == rot8_spec(b, v, s.f).1
            &&& 0x40 <= sub < 0x80 ==> out.memory == m && (flag_value(out.state.f, FLAG_Z) == 1
                <==> !bit_of(v, b))
            &&& 0x80 <= sub ==> reg8(out.state, out.memory, idx) == crate::rotate::res_set_value(
                v,
                b,
                sub >= 0xC0,
            )
            &&& out.state.pc == s.pc.wrapping_add(2)
        }),
{
    let sub = m[s.pc.wrapping_add(1)];
    let idx = sub & 7;
    let b = (sub >> 3u8) & 7;
    lemma_opcode_fields(sub);
    reveal(cb_op);
    let s2 = after_fetch(after_fetch(s));
    assert(s2.hl() == s.hl());
    assert(s2.pc == s.pc.wrapping_add(2));
    assert(reg8(s2, m, idx) == reg8(s, m, idx));
    lemma_reg8_cases(idx);
    let v = reg8(s, m, idx);
    let out = decode(s, m, pin);
    assert(s2.pc == after_fetch(s).pc.wrapping_add(1));
    if sub < 0x40 {
        assert(out.state == with_q(CpuState { f: rot8_spec(b, v, s.f).1, ..set_reg8(s2, idx, rot8_spec(b, v, s.f).0) }, true));
        assert(reg8(out.state, out.memory, idx) == rot8_spec(b, v, s.f).0) by {
            if idx == 6 {
            } else if idx == 7 {
            } else if idx < 3 {
            } else {
            }
        }
    } else if sub < 0x80 {
        let xy = if idx == 6 { crate::state::high(s2.wz) } else { v };
        law_bit_operations(v, b, 0, false, xy, s.f);
        assert(out.state.f == bit_flags(b, v, xy, s.f));
    } else {
        let w = crate::rotate::res_set_value(v, b, sub >= 0xC0);
        assert(out.state == with_q(set_reg8(s2, idx, w), false));
        assert(reg8(out.state, out.memory, idx) == w) by {
            if idx == 6 {
            } else if idx == 7 {
            } else if idx < 3 {
            } else {
            }
        }
    }
}

/// Whether `mask` is one bit of a byte.
pub open spec fn single_bit(mask: u8) -> bool {
    mask == 0x01 || mask == 0x02 || mask == 0x04 || mask == 0x08 || mask == 0x10 || mask == 0x20
        || mask == 0x40 || mask == 0x80
}

/// Setting one flag gives it the value asked for and leaves the others.
proof fn lemma_with_flag(byte: u8, set: u8, read: u8, on: bool)
    requires
        single_bit(set),
        single_bit(read),
    ensures
        flag_value(with_flag(byte, set, on), read) == if set == read {
            if on { 1u8 } else { 0u8 }
        } else {
            flag_value(byte, read)
        },
{
    assert(((byte | set) & read != 0 <==> (set == read || byte & read != 0)) && ((byte & !set) & read
        != 0 <==> (set != read && byte & read != 0))) by (bit_vector)
        requires
            set == 0x01 || set == 0x02 || set == 0x04 || set == 0x08 || set == 0x10 || set == 0x20
                || set == 0x40 || set == 0x80,
            read == 0x01 || read == 0x02 || read == 0x04 || read == 0x08 || read == 0x10 || read
                == 0x20 || read == 0x40 || read == 0x80,
    ;
}

/// CPI and CPD (and each round of CPIR and CPDR) compare A with the byte
/// at HL: Z is set exactly when they are equal, P/V exactly while the
/// decremented BC is nonzero, N is set and the carry kept. The repeating
/// forms go round again exactly when BC has not run out and no match was
/// found.
pub proof fn law_block_search(s: CpuState, m: Map<u16, u8>, increment: bool)
    ensures
        ({
            let f = block_cp_state(s, m, increment).f;
            &&& flag_value(f, FLAG_Z) == 1 <==> s.a == m[s.hl()]
            &&& flag_value(f, FLAG_PV) == 1 <==> s.bc().wrapping_sub(1) != 0
            &&& flag_value(f, FLAG_N) == 1
            &&& flag_value(f, FLAG_C) == flag_value(s.f, FLAG_C)
            &&& crate::blocks::block_cp_continues(s, m, increment) <==> (s.bc().wrapping_sub(1) != 0
                && s.a != m[s.hl()])
        }),
{
    let data = m[s.hl()];
    let bc = s.bc().wrapping_sub(1);
    let result = s.a.wrapping_sub(data);
    let f1 = with_flag(s.f, FLAG_N, true);
    let f2 = with_flag(f1, FLAG_PV, bc != 0);
    let f3 = with_flag(f2, FLAG_H, ((s.a ^ data ^ result) & 0x10) >> 4u8 != 0);
    let intermediate = result.wrapping_sub(flag_value(f3, FLAG_H));
    let f4 = with_flag(f3, crate::flags::FLAG_X, (intermediate & 0x08) >> 3u8 != 0);
    let f5 = with_flag(f4, crate::flags::FLAG_Y, (intermediate & 0x02) >> 1u8 != 0);
    let f6 = with_flag(f5, FLAG_S, result & 0x80 != 0);
    let f7 = with_flag(f6, FLAG_Z, result == 0);
    assert(f7 == crate::blocks::block_cp_flags(s, data, bc));
    assert forall|k: u8| single_bit(k) implies ({
        &&& flag_value(f7, k) == (if k == FLAG_Z { if result == 0 { 1u8 } else { 0u8 } } else if k == FLAG_S {
            if result & 0x80 != 0 { 1u8 } else { 0u8 } } else { flag_value(f5, k) })
    }) by {
        lemma_with_flag(f6, FLAG_Z, k, result == 0);
        lemma_with_flag(f5, FLAG_S, k, result & 0x80 != 0);
    }
    lemma_with_flag(f4, crate::flags::FLAG_Y, FLAG_PV, (intermediate & 0x02) >> 1u8 != 0);
    lemma_with_flag(f3, crate::flags::FLAG_X, FLAG_PV, (intermediate & 0x08) >> 3u8 != 0);
    lemma_with_flag(f2, FLAG_H, FLAG_PV, ((s.a ^ data ^ result) & 0x10) >> 4u8 != 0);
    lemma_with_flag(f1, FLAG_PV, FLAG_PV, bc != 0);
    lemma_with_flag(f4, crate::flags::FLAG_Y, FLAG_N, (intermediate & 0x02) >> 1u8 != 0);
    lemma_with_flag(f3, crate::flags::FLAG_X, FLAG_N, (intermediate & 0x08) >> 3u8 != 0);
    lemma_with_flag(f2, FLAG_H, FLAG_N, ((s.a ^ data ^ result) & 0x10) >> 4u8 != 0);
    lemma_with_flag(f1, FLAG_PV, FLAG_N, bc != 0);
    lemma_with_flag(s.f, FLAG_N, FLAG_N, true);
    lemma_with_flag(f4, crate::flags::FLAG_Y, FLAG_C, (intermediate & 0x02) >> 1u8 != 0);
    lemma_with_flag(f3, crate::flags::FLAG_X, FLAG_C, (intermediate & 0x08) >> 3u8 != 0);
    lemma_with_flag(f2, FLAG_H, FLAG_C, ((s.a ^ data ^ result) & 0x10) >> 4u8 != 0);
    lemma_with_flag(f1, FLAG_PV, FLAG_C, bc != 0);
    lemma_with_flag(s.f, FLAG_N, FLAG_C, true);
    assert(single_bit(FLAG_Z) && single_bit(FLAG_PV) && single_bit(FLAG_N) && single_bit(FLAG_C));
    assert(result == 0 <==> s.a == data);
}

/// One LDI/LDD transfer clears H and N, sets P/V exactly while the
/// decremented BC is nonzero, and keeps S, Z and the carry.
pub proof fn law_block_transfer_flags(s: CpuState, m: Map<u16, u8>, increment: bool)
    ensures
        ({
            let f = crate::blocks::block_ld_state(s, m, increment).f;
            &&& flag_value(f, FLAG_PV) == 1 <==> s.bc().wrapping_sub(1) != 0
            &&& flag_value(f, FLAG_H) == 0
            &&& flag_value(f, FLAG_N) == 0
            &&& flag_value(f, FLAG_C) == flag_value(s.f, FLAG_C)
            &&& flag_value(f, FLAG_Z) == flag_value(s.f, FLAG_Z)
            &&& flag_value(f, FLAG_S) == flag_value(s.f, FLAG_S)
        }),
{
    let data = m[s.hl()];
    let bc = s.bc().wrapping_sub(1);
    let f1a = with_flag(s.f, FLAG_N, false);
    let f1 = with_flag(f1a, FLAG_H, false);
    let f2 = with_flag(f1, FLAG_PV, bc != 0);
    let sum = s.a.wrapping_add(data);
    let f3 = with_flag(f2, crate::flags::FLAG_X, (sum & 0x08) >> 3u8 != 0);
    let f4 = with_flag(f3, crate::flags::FLAG_Y, (sum & 0x02) >> 1u8 != 0);
    assert(single_bit(FLAG_Z) && single_bit(FLAG_PV) && single_bit(FLAG_N) && single_bit(FLAG_C)
        && single_bit(FLAG_H) && single_bit(FLAG_S));
    assert forall|k: u8| single_bit(k) && k != crate::flags::FLAG_X && k != crate::flags::FLAG_Y implies flag_value(f4, k) == flag_value(f2, k) by {
        lemma_with_flag(f3, crate::flags::FLAG_Y, k, (sum & 0x02) >> 1u8 != 0);
        lemma_with_flag(f2, crate::flags::FLAG_X, k, (sum & 0x08) >> 3u8 != 0);
    }
    assert forall|k: u8| single_bit(k) implies flag_value(f2, k) == (if k == FLAG_PV { if bc != 0 { 1u8 } else { 0u8 } } else if k == FLAG_H || k == FLAG_N { 0u8 } else { flag_value(s.f, k) }) by {
        lemma_with_flag(f1, FLAG_PV, k, bc != 0);
        lemma_with_flag(f1a, FLAG_H, k, false);
        lemma_with_flag(s.f, FLAG_N, k, false);
    }
}

} // verus!
