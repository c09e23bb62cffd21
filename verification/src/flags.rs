//! The flag register F, held as its byte, with one accessor pair per flag.

use vstd::prelude::*;

verus! {

/// Carry.
pub const FLAG_C: u8 = 0x01;
/// Add/subtract.
pub const FLAG_N: u8 = 0x02;
/// Parity/overflow.
pub const FLAG_PV: u8 = 0x04;
/// Undocumented bit 3 (X).
pub const FLAG_X: u8 = 0x08;
/// Half carry.
pub const FLAG_H: u8 = 0x10;
/// Undocumented bit 5 (Y).
pub const FLAG_Y: u8 = 0x20;
/// Zero.
pub const FLAG_Z: u8 = 0x40;
/// Sign.
pub const FLAG_S: u8 = 0x80;

/// `byte` with the bits of `mask` set when `on`, cleared otherwise.
pub open spec fn with_flag(byte: u8, mask: u8, on: bool) -> u8 {
    if on {
        byte | mask
    } else {
        byte & !mask
    }
}

/// 1 when any bit of `mask` is set in `byte`, else 0.
pub open spec fn flag_value(byte: u8, mask: u8) -> u8 {
    if byte & mask != 0 {
        1
    } else {
        0
    }
}

/// The Z80 flag register.
#[derive(Clone, Copy, Debug, PartialEq, Eq, Structural)]
pub struct Flags {
    pub bits: u8,
}

impl Flags {
    /// Flags holding the given byte.
    pub fn new(byte: u8) -> (flags: Flags)
        ensures
            flags.bits == byte,
    {
        Flags { bits: byte }
    }

    /// The register as a byte.
    pub fn byte(&self) -> (byte: u8)
        ensures
            byte == self.bits,
    {
        self.bits
    }

    /// Load the whole register from a byte.
    pub fn set_byte(&mut self, byte: u8)
        ensures
            final(self).bits == byte,
    {
        self.bits = byte;
    }

    fn get(&self, mask: u8) -> (value: u8)
        ensures
            value == flag_value(self.bits, mask),
    {
        if self.bits & mask != 0 {
            1
        } else {
            0
        }
    }

    fn put(&mut self, mask: u8, value: u8)
        ensures
            final(self).bits == with_flag(old(self).bits, mask, value != 0),
    {
        if value != 0 {
            self.bits = self.bits | mask;
        } else {
            self.bits = self.bits & !mask;
        }
    }

    /// Carry as 0 or 1.
    pub fn c(&self) -> (v: u8)
        ensures
            v == flag_value(self.bits, FLAG_C),
    {
        self.get(FLAG_C)
    }

    /// Add/subtract as 0 or 1.
    pub fn n(&self) -> (v: u8)
        ensures
            v == flag_value(self.bits, FLAG_N),
    {
        self.get(FLAG_N)
    }

    /// Parity/overflow as 0 or 1.
    pub fn pv(&self) -> (v: u8)
        ensures
            v == flag_value(self.bits, FLAG_PV),
    {
        self.get(FLAG_PV)
    }

    /// Half carry as 0 or 1.
    pub fn h(&self) -> (v: u8)
        ensures
            v == flag_value(self.bits, FLAG_H),
    {
        self.get(FLAG_H)
    }

    /// Zero as 0 or 1.
    pub fn z(&self) -> (v: u8)
        ensures
            v == flag_value(self.bits, FLAG_Z),
    {
        self.get(FLAG_Z)
    }

    /// Sign as 0 or 1.
    pub fn s(&self) -> (v: u8)
        ensures
            v == flag_value(self.bits, FLAG_S),
    {
        self.get(FLAG_S)
    }

    /// Set carry when `v` is nonzero, clear it otherwise.
    pub fn set_c(&mut self, v: u8)
        ensures
            final(self).bits == with_flag(old(self).bits, FLAG_C, v != 0),
    {
        self.put(FLAG_C, v)
    }

    /// Set add/subtract when `v` is nonzero, clear it otherwise.
    pub fn set_n(&mut self, v: u8)
        ensures
            final(self).bits == with_flag(old(self).bits, FLAG_N, v != 0),
    {
        self.put(FLAG_N, v)
    }

    /// Set parity/overflow when `v` is nonzero, clear it otherwise.
    pub fn set_pv(&mut self, v: u8)
        ensures
            final(self).bits == with_flag(old(self).bits, FLAG_PV, v != 0),
    {
        self.put(FLAG_PV, v)
    }

    /// Set X (bit 3) when `v` is nonzero, clear it otherwise.
    pub fn set_x(&mut self, v: u8)
        ensures
            final(self).bits == with_flag(old(self).bits, FLAG_X, v != 0),
    {
        self.put(FLAG_X, v)
    }

    /// Set half carry when `v` is nonzero, clear it otherwise.
    pub fn set_h(&mut self, v: u8)
        ensures
            final(self).bits == with_flag(old(self).bits, FLAG_H, v != 0),
    {
        self.put(FLAG_H, v)
    }

    /// Set Y (bit 5) when `v` is nonzero, clear it otherwise.
    pub fn set_y(&mut self, v: u8)
        ensures
            final(self).bits == with_flag(old(self).bits, FLAG_Y, v != 0),
    {
        self.put(FLAG_Y, v)
    }

    /// Set zero when `v` is nonzero, clear it otherwise.
    pub fn set_z(&mut self, v: u8)
        ensures
            final(self).bits == with_flag(old(self).bits, FLAG_Z, v != 0),
    {
        self.put(FLAG_Z, v)
    }

    /// Set sign when `v` is nonzero, clear it otherwise.
    pub fn set_s(&mut self, v: u8)
        ensures
            final(self).bits == with_flag(old(self).bits, FLAG_S, v != 0),
    {
        self.put(FLAG_S, v)
    }
}

} // verus!
