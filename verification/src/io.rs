//! Port input and output, including the block I/O group.

use vstd::prelude::*;
use crate::alu::{parity, parity_even, szp, szp_flags, zero_bit};
use crate::machine::{
    Bus, Outcome, PortAccess, Z80, after_operand, last_port_input, reg8, set_reg8, with_q,
};
use crate::state::{CpuState, high, low, pair};

verus! {

/// IN A,(n): the port address is A:n; `pin` is the byte the device answered.
pub open spec fn in_a_n(s: CpuState, m: Map<u16, u8>, pin: u8) -> Outcome {
    let n = m[s.pc];
    let port = pair(s.a, n);
    Outcome {
        state: with_q(CpuState { a: pin, wz: port.wrapping_add(1), ..after_operand(s) }, false),
        memory: m,
        result: Ok(11),
        bytes: seq![n],
        io: seq![PortAccess::Read { port, value: pin }],
    }
}

/// OUT (n),A: the port address is A:n.
pub open spec fn out_n_a(s: CpuState, m: Map<u16, u8>) -> Outcome {
    let n = m[s.pc];
    let port = pair(s.a, n);
    Outcome {
        state: with_q(
            CpuState { wz: pair(s.a, n.wrapping_add(1)), ..after_operand(s) },
            false,
        ),
        memory: m,
        result: Ok(11),
        bytes: seq![n],
        io: seq![PortAccess::Write { port, value: s.a }],
    }
}

/// IN r,(C) (0x70 sets only the flags): S, Z, Y, X and P/V from the byte read.
pub open spec fn in_r_c(s: CpuState, m: Map<u16, u8>, opcode: u8, pin: u8) -> Outcome {
    let idx = (opcode >> 3u8) & 7;
    Outcome {
        state: with_q(
            CpuState {
                f: szp_flags(pin) | (s.f & 0x01),
                wz: s.bc().wrapping_add(1),
                ..set_reg8(s, idx, pin)
            },
            true,
        ),
        memory: m,
        result: Ok(12),
        bytes: seq![],
        io: seq![PortAccess::Read { port: s.bc(), value: pin }],
    }
}

/// OUT (C),r (0x71 writes 0).
pub open spec fn out_c_r(s: CpuState, m: Map<u16, u8>, opcode: u8) -> Outcome {
    let idx = (opcode >> 3u8) & 7;
    let v = if idx == 6 {
        0
    } else {
        reg8(s, m, idx)
    };
    Outcome {
        state: with_q(CpuState { wz: s.bc().wrapping_add(1), ..s }, false),
        memory: m,
        result: Ok(12),
        bytes: seq![],
        io: seq![PortAccess::Write { port: s.bc(), value: v }],
    }
}

/// The flags of a block I/O step: S, Z, Y, X from the decremented B, N from
/// bit 7 of the byte moved, H and C from the carry of `k`, and P/V the
/// parity of `(k & 7) ^ B`.
pub open spec fn block_io_flags(b: u8, value: u8, k: u16) -> u8 {
    (b & 0xA8) | zero_bit(b) | ((value >> 6u8) & 0x02) | (if k > 0xFF {
        0x11u8
    } else {
        0
    }) | (if parity_even(((k as u8) & 7) ^ b) {
        0x04u8
    } else {
        0
    })
}

/// P/V flipped unless `x` has even parity.
pub open spec fn parity_flip(x: u8) -> u8 {
    if parity_even(x) {
        0
    } else {
        0x04
    }
}

/// The flags when a repeating block I/O instruction goes round again: Y
/// and X from the high byte of the rewound PC, and H and P/V adjusted by
/// the interrupted transfer's carry.
pub open spec fn io_repeat_flags(f: u8, pc: u16, b: u8, value: u8) -> u8 {
    let f1 = (f & 0xD7) | (high(pc) & 0x28);
    if f1 & 0x01 != 0 {
        let f2 = f1 & 0xEF;
        if value & 0x80 != 0 {
            (f2 ^ parity_flip(b.wrapping_sub(1) & 7)) | (if b & 0x0F == 0 {
                0x10u8
            } else {
                0
            })
        } else {
            (f2 ^ parity_flip(b.wrapping_add(1) & 7)) | (if b & 0x0F == 0x0F {
                0x10u8
            } else {
                0
            })
        }
    } else {
        f1 ^ parity_flip(b & 7)
    }
}

/// The state after a block I/O step, rewound when it repeats.
pub open spec fn block_io_state(s1: CpuState, repeat: bool, value: u8) -> CpuState {
    if repeat && s1.b != 0 {
        let pc = s1.pc.wrapping_sub(2);
        CpuState { pc, wz: pc.wrapping_add(1), f: io_repeat_flags(s1.f, pc, s1.b, value), ..s1 }
    } else {
        s1
    }
}

/// INI, IND, INIR, INDR: `pin` is the byte the device answered.
pub open spec fn block_in(
    s: CpuState,
    m: Map<u16, u8>,
    pin: u8,
    increment: bool,
    repeat: bool,
) -> Outcome {
    let bc = s.bc();
    let b = s.b.wrapping_sub(1);
    let hl = s.hl();
    let hl2 = if increment {
        hl.wrapping_add(1)
    } else {
        hl.wrapping_sub(1)
    };
    let c2 = if increment {
        s.c.wrapping_add(1)
    } else {
        s.c.wrapping_sub(1)
    };
    let wz = if increment {
        bc.wrapping_add(1)
    } else {
        bc.wrapping_sub(1)
    };
    let k = (pin as u16 + c2 as u16) as u16;
    let s1 = CpuState { b, wz, f: block_io_flags(b, pin, k), ..s.with_hl(hl2) };
    Outcome {
        state: with_q(block_io_state(s1, repeat, pin), true),
        memory: m.insert(hl, pin),
        result: Ok(if repeat && b != 0 {
            21
        } else {
            16
        }),
        bytes: seq![],
        io: seq![PortAccess::Read { port: bc, value: pin }],
    }
}

/// OUTI, OUTD, OTIR, OTDR: B is decremented before it addresses the port.
pub open spec fn block_out(s: CpuState, m: Map<u16, u8>, increment: bool, repeat: bool) -> Outcome {
    let hl = s.hl();
    let value = m[hl];
    let b = s.b.wrapping_sub(1);
    let port = pair(b, s.c);
    let hl2 = if increment {
        hl.wrapping_add(1)
    } else {
        hl.wrapping_sub(1)
    };
    let wz = if increment {
        port.wrapping_add(1)
    } else {
        port.wrapping_sub(1)
    };
    let k = (value as u16 + low(hl2) as u16) as u16;
    let s1 = CpuState { b, wz, f: block_io_flags(b, value, k), ..s.with_hl(hl2) };
    Outcome {
        state: with_q(block_io_state(s1, repeat, value), true),
        memory: m,
        result: Ok(if repeat && b != 0 {
            21
        } else {
            16
        }),
        bytes: seq![],
        io: seq![PortAccess::Write { port, value }],
    }
}

fn block_io_flags_exec(b: u8, value: u8, k: u16) -> (f: u8)
    ensures
        f == block_io_flags(b, value, k),
{
    (b & 0xA8) | (if b == 0 {
        0x40u8
    } else {
        0
    }) | ((value >> 6u8) & 0x02) | (if k > 0xFF {
        0x11u8
    } else {
        0
    }) | (if parity(((k as u8) & 7) ^ b) {
        0x04u8
    } else {
        0
    })
}

fn parity_flip_exec(x: u8) -> (f: u8)
    ensures
        f == parity_flip(x),
{
    if parity(x) {
        0
    } else {
        0x04
    }
}

fn io_repeat_flags_exec(f: u8, pc: u16, b: u8, value: u8) -> (r: u8)
    ensures
        r == io_repeat_flags(f, pc, b, value),
{
    let f1 = (f & 0xD7) | (((pc >> 8u16) as u8) & 0x28);
    if f1 & 0x01 != 0 {
        let f2 = f1 & 0xEF;
        if value & 0x80 != 0 {
            (f2 ^ parity_flip_exec(b.wrapping_sub(1) & 7)) | (if b & 0x0F == 0 {
                0x10u8
            } else {
                0
            })
        } else {
            (f2 ^ parity_flip_exec(b.wrapping_add(1) & 7)) | (if b & 0x0F == 0x0F {
                0x10u8
            } else {
                0
            })
        }
    } else {
        f1 ^ parity_flip_exec(b & 7)
    }
}

impl<B: Bus> Z80<B> {
    pub(crate) fn op_in_a_n(&mut self) -> (t: u32)
        ensures
            final(self).ran(
                *old(self),
                in_a_n(old(self)@, old(self).mem(), last_port_input(final(self).log())),
                t,
            ),
    {
        let n = self.read_operand_byte();
        let port = ((self.a as u16) << 8u16) | (n as u16);
        let v = self.read_io(port);
        self.a = v;
        self.wz = port.wrapping_add(1);
        self.update_q(false);
        11
    }

    pub(crate) fn op_out_n_a(&mut self) -> (t: u32)
        ensures
            final(self).ran(*old(self), out_n_a(old(self)@, old(self).mem()), t),
    {
        let n = self.read_operand_byte();
        let a = self.a;
        let port = ((a as u16) << 8u16) | (n as u16);
        self.write_io(port, a);
        self.wz = ((a as u16) << 8u16) | (n.wrapping_add(1) as u16);
        self.update_q(false);
        11
    }

    pub(crate) fn op_in_r_c(&mut self, opcode: u8) -> (t: u32)
        ensures
            final(self).ran(
                *old(self),
                in_r_c(old(self)@, old(self).mem(), opcode, last_port_input(final(self).log())),
                t,
            ),
    {
        let bc = self.bc();
        let v = self.read_io(bc);
        let idx = (opcode >> 3u8) & 7;
        if idx != 6 {
            self.write_reg(idx, v);
        }
        let f = szp(v) | (self.f.byte() & 0x01);
        self.f.set_byte(f);
        self.wz = bc.wrapping_add(1);
        self.update_q(true);
        12
    }

    pub(crate) fn op_out_c_r(&mut self, opcode: u8) -> (t: u32)
        ensures
            final(self).ran(*old(self), out_c_r(old(self)@, old(self).mem(), opcode), t),
    {
        let idx = (opcode >> 3u8) & 7;
        let v = if idx == 6 {
            0
        } else {
            self.read_reg(idx)
        };
        let bc = self.bc();
        self.write_io(bc, v);
        self.wz = bc.wrapping_add(1);
        self.update_q(false);
        12
    }

    fn block_io_finish(&mut self, repeat: bool, value: u8) -> (t: u32)
        ensures
            final(self)@ == with_q(block_io_state(old(self)@, repeat, value), true),
            final(self).bus == old(self).bus,
            final(self).fetched@ == old(self).fetched@,
            t == if repeat && old(self)@.b != 0 {
                21u32
            } else {
                16u32
            },
    {
        if repeat && self.b != 0 {
            self.pc = self.pc.wrapping_sub(2);
            self.wz = self.pc.wrapping_add(1);
            let f = io_repeat_flags_exec(self.f.byte(), self.pc, self.b, value);
            self.f.set_byte(f);
            self.update_q(true);
            21
        } else {
            self.update_q(true);
            16
        }
    }

    fn block_in(&mut self, increment: bool, repeat: bool) -> (t: u32)
        ensures
            final(self).ran(
                *old(self),
                block_in(
                    old(self)@,
                    old(self).mem(),
                    last_port_input(final(self).log()),
                    increment,
                    repeat,
                ),
                t,
            ),
    {
        let bc = self.bc();
        let value = self.read_io(bc);
        let hl = self.hl();
        self.write_mem(hl, value);
        self.wz = if increment {
            bc.wrapping_add(1)
        } else {
            bc.wrapping_sub(1)
        };
        let c2 = if increment {
            self.c.wrapping_add(1)
        } else {
            self.c.wrapping_sub(1)
        };
        self.b = self.b.wrapping_sub(1);
        self.set_hl(
            if increment {
                hl.wrapping_add(1)
            } else {
                hl.wrapping_sub(1)
            },
        );
        let k = value as u16 + c2 as u16;
        let f = block_io_flags_exec(self.b, value, k);
        self.f.set_byte(f);
        self.block_io_finish(repeat, value)
    }

    fn block_out(&mut self, increment: bool, repeat: bool) -> (t: u32)
        ensures
            final(self).ran(*old(self), block_out(old(self)@, old(self).mem(), increment, repeat), t),
    {
        let hl = self.hl();
        let value = self.read_mem(hl);
        self.b = self.b.wrapping_sub(1);
        let port = self.bc();
        self.write_io(port, value);
        let hl2 = if increment {
            hl.wrapping_add(1)
        } else {
            hl.wrapping_sub(1)
        };
        self.set_hl(hl2);
        self.wz = if increment {
            port.wrapping_add(1)
        } else {
            port.wrapping_sub(1)
        };
        let k = value as u16 + (hl2 as u8) as u16;
        let f = block_io_flags_exec(self.b, value, k);
        self.f.set_byte(f);
        self.block_io_finish(repeat, value)
    }

    pub(crate) fn op_ini(&mut self) -> (t: u32)
        ensures
            final(self).ran(
                *old(self),
                block_in(old(self)@, old(self).mem(), last_port_input(final(self).log()), true, false),
                t,
            ),
    {
        self.block_in(true, false)
    }

    pub(crate) fn op_ind(&mut self) -> (t: u32)
        ensures
            final(self).ran(
                *old(self),
                block_in(old(self)@, old(self).mem(), last_port_input(final(self).log()), false, false),
                t,
            ),
    {
        self.block_in(false, false)
    }

    pub(crate) fn op_inir(&mut self) -> (t: u32)
        ensures
            final(self).ran(
                *old(self),
                block_in(old(self)@, old(self).mem(), last_port_input(final(self).log()), true, true),
                t,
            ),
    {
        self.block_in(true, true)
    }

    pub(crate) fn op_indr(&mut self) -> (t: u32)
        ensures
            final(self).ran(
                *old(self),
                block_in(old(self)@, old(self).mem(), last_port_input(final(self).log()), false, true),
                t,
            ),
    {
        self.block_in(false, true)
    }

    pub(crate) fn op_outi(&mut self) -> (t: u32)
        ensures
            final(self).ran(*old(self), block_out(old(self)@, old(self).mem(), true, false), t),
    {
        self.block_out(true, false)
    }

    pub(crate) fn op_outd(&mut self) -> (t: u32)
        ensures
            final(self).ran(*old(self), block_out(old(self)@, old(self).mem(), false, false), t),
    {
        self.block_out(false, false)
    }

    pub(crate) fn op_otir(&mut self) -> (t: u32)
        ensures
            final(self).ran(*old(self), block_out(old(self)@, old(self).mem(), true, true), t),
    {
        self.block_out(true, true)
    }

    pub(crate) fn op_otdr(&mut self) -> (t: u32)
        ensures
            final(self).ran(*old(self), block_out(old(self)@, old(self).mem(), false, true), t),
    {
        self.block_out(false, true)
    }
}

} // verus!
