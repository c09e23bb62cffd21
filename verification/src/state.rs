//! A snapshot of all CPU-owned execution state.

use vstd::prelude::*;
use crate::json::{push, push_bool, push_decimal, write_bool, write_decimal};

verus! {

/// All CPU-owned state: registers, interrupt machinery, and the lifecycle
/// requests. Host memory, ports, devices and counters are not part of it.
#[derive(Clone, Copy, Debug, PartialEq, Eq, Structural)]
pub struct CpuState {
    pub a: u8,
    pub f: u8,
    pub b: u8,
    pub c: u8,
    pub d: u8,
    pub e: u8,
    pub h: u8,
    pub l: u8,
    pub ix: u16,
    pub iy: u16,
    pub sp: u16,
    pub pc: u16,
    pub wz: u16,
    pub i: u8,
    pub r: u8,
    pub iff1: bool,
    pub iff2: bool,
    pub im: u8,
    pub af_alt: u16,
    pub bc_alt: u16,
    pub de_alt: u16,
    pub hl_alt: u16,
    pub q: u8,
    pub halted: bool,
    pub ei_delay: u8,
    pub reset_pending: bool,
    pub maskable_interrupt_vector: Option<u8>,
    pub non_maskable_interrupt_pending: bool,
}

/// The 16-bit value of a high/low byte pair.
pub open spec fn pair(high: u8, low: u8) -> u16 {
    ((high as u16) << 8u16) | (low as u16)
}

/// The high byte of a 16-bit value.
pub open spec fn high(v: u16) -> u8 {
    (v >> 8u16) as u8
}

/// The low byte of a 16-bit value.
pub open spec fn low(v: u16) -> u8 {
    v as u8
}

impl CpuState {
    pub open spec fn af(self) -> u16 {
        pair(self.a, self.f)
    }

    pub open spec fn bc(self) -> u16 {
        pair(self.b, self.c)
    }

    pub open spec fn de(self) -> u16 {
        pair(self.d, self.e)
    }

    pub open spec fn hl(self) -> u16 {
        pair(self.h, self.l)
    }

    pub open spec fn with_bc(self, v: u16) -> CpuState {
        CpuState { b: high(v), c: low(v), ..self }
    }

    pub open spec fn with_de(self, v: u16) -> CpuState {
        CpuState { d: high(v), e: low(v), ..self }
    }

    pub open spec fn with_hl(self, v: u16) -> CpuState {
        CpuState { h: high(v), l: low(v), ..self }
    }
}

/// `text` followed by `v` in decimal, or `null` when absent.
pub open spec fn write_optional(text: Seq<char>, v: Option<u8>) -> Seq<char> {
    match v {
        None => text + "null"@,
        Some(x) => write_decimal(text, x as nat),
    }
}

fn push_optional(out: &mut String, v: Option<u8>)
    ensures
        final(out)@ == write_optional(old(out)@, v),
{
    match v {
        None => push(out, "null"),
        Some(x) => push_decimal(out, x as u64),
    }
}

/// `text` followed by the state as one JSON object: every field under its
/// own name, keys sorted, no whitespace, numbers in decimal, the interrupt
/// vector `null` when none is pending.
pub open spec fn write_state(text: Seq<char>, s: CpuState) -> Seq<char> {
    let k0 = text + "{\"a\":"@;
    let v0 = write_decimal(k0, s.a as nat);
    let k1 = v0 + ",\"af_alt\":"@;
    let v1 = write_decimal(k1, s.af_alt as nat);
    let k2 = v1 + ",\"b\":"@;
    let v2 = write_decimal(k2, s.b as nat);
    let k3 = v2 + ",\"bc_alt\":"@;
    let v3 = write_decimal(k3, s.bc_alt as nat);
    let k4 = v3 + ",\"c\":"@;
    let v4 = write_decimal(k4, s.c as nat);
    let k5 = v4 + ",\"d\":"@;
    let v5 = write_decimal(k5, s.d as nat);
    let k6 = v5 + ",\"de_alt\":"@;
    let v6 = write_decimal(k6, s.de_alt as nat);
    let k7 = v6 + ",\"e\":"@;
    let v7 = write_decimal(k7, s.e as nat);
    let k8 = v7 + ",\"ei_delay\":"@;
    let v8 = write_decimal(k8, s.ei_delay as nat);
    let k9 = v8 + ",\"f\":"@;
    let v9 = write_decimal(k9, s.f as nat);
    let k10 = v9 + ",\"h\":"@;
    let v10 = write_decimal(k10, s.h as nat);
    let k11 = v10 + ",\"halted\":"@;
    let v11 = write_bool(k11, s.halted);
    let k12 = v11 + ",\"hl_alt\":"@;
    let v12 = write_decimal(k12, s.hl_alt as nat);
    let k13 = v12 + ",\"i\":"@;
    let v13 = write_decimal(k13, s.i as nat);
    let k14 = v13 + ",\"iff1\":"@;
    let v14 = write_bool(k14, s.iff1);
    let k15 = v14 + ",\"iff2\":"@;
    let v15 = write_bool(k15, s.iff2);
    let k16 = v15 + ",\"im\":"@;
    let v16 = write_decimal(k16, s.im as nat);
    let k17 = v16 + ",\"ix\":"@;
    let v17 = write_decimal(k17, s.ix as nat);
    let k18 = v17 + ",\"iy\":"@;
    let v18 = write_decimal(k18, s.iy as nat);
    let k19 = v18 + ",\"l\":"@;
    let v19 = write_decimal(k19, s.l as nat);
    let k20 = v19 + ",\"maskable_interrupt_vector\":"@;
    let v20 = write_optional(k20, s.maskable_interrupt_vector);
    let k21 = v20 + ",\"non_maskable_interrupt_pending\":"@;
    let v21 = write_bool(k21, s.non_maskable_interrupt_pending);
    let k22 = v21 + ",\"pc\":"@;
    let v22 = write_decimal(k22, s.pc as nat);
    let k23 = v22 + ",\"q\":"@;
    let v23 = write_decimal(k23, s.q as nat);
    let k24 = v23 + ",\"r\":"@;
    let v24 = write_decimal(k24, s.r as nat);
    let k25 = v24 + ",\"reset_pending\":"@;
    let v25 = write_bool(k25, s.reset_pending);
    let k26 = v25 + ",\"sp\":"@;
    let v26 = write_decimal(k26, s.sp as nat);
    let k27 = v26 + ",\"wz\":"@;
    let v27 = write_decimal(k27, s.wz as nat);
    v27 + "}"@
}

impl CpuState {
    /// Append the state as one JSON object with sorted keys and no whitespace.
    pub fn write_json(&self, out: &mut String)
        ensures
            final(out)@ == write_state(old(out)@, *self),
    {
        push(out, "{\"a\":");
        push_decimal(out, self.a as u64);
        push(out, ",\"af_alt\":");
        push_decimal(out, self.af_alt as u64);
        push(out, ",\"b\":");
        push_decimal(out, self.b as u64);
        push(out, ",\"bc_alt\":");
        push_decimal(out, self.bc_alt as u64);
        push(out, ",\"c\":");
        push_decimal(out, self.c as u64);
        push(out, ",\"d\":");
        push_decimal(out, self.d as u64);
        push(out, ",\"de_alt\":");
        push_decimal(out, self.de_alt as u64);
        push(out, ",\"e\":");
        push_decimal(out, self.e as u64);
        push(out, ",\"ei_delay\":");
        push_decimal(out, self.ei_delay as u64);
        push(out, ",\"f\":");
        push_decimal(out, self.f as u64);
        push(out, ",\"h\":");
        push_decimal(out, self.h as u64);
        push(out, ",\"halted\":");
        push_bool(out, self.halted);
        push(out, ",\"hl_alt\":");
        push_decimal(out, self.hl_alt as u64);
        push(out, ",\"i\":");
        push_decimal(out, self.i as u64);
        push(out, ",\"iff1\":");
        push_bool(out, self.iff1);
        push(out, ",\"iff2\":");
        push_bool(out, self.iff2);
        push(out, ",\"im\":");
        push_decimal(out, self.im as u64);
        push(out, ",\"ix\":");
        push_decimal(out, self.ix as u64);
        push(out, ",\"iy\":");
        push_decimal(out, self.iy as u64);
        push(out, ",\"l\":");
        push_decimal(out, self.l as u64);
        push(out, ",\"maskable_interrupt_vector\":");
        push_optional(out, self.maskable_interrupt_vector);
        push(out, ",\"non_maskable_interrupt_pending\":");
        push_bool(out, self.non_maskable_interrupt_pending);
        push(out, ",\"pc\":");
        push_decimal(out, self.pc as u64);
        push(out, ",\"q\":");
        push_decimal(out, self.q as u64);
        push(out, ",\"r\":");
        push_decimal(out, self.r as u64);
        push(out, ",\"reset_pending\":");
        push_bool(out, self.reset_pending);
        push(out, ",\"sp\":");
        push_decimal(out, self.sp as u64);
        push(out, ",\"wz\":");
        push_decimal(out, self.wz as u64);
        push(out, "}");
    }
}

} // verus!
