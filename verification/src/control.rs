//! Control flow: jumps, calls, returns, restarts, HALT, interrupt control,
//! and the acceptance of RESET, NMI and maskable interrupts.

use vstd::prelude::*;
use crate::machine::{
    Bus, Fault, Outcome, Z80, after_operand, condition, inc_r, push_mem, quiet, top_word,
    with_q, word,
};
use crate::state::CpuState;

verus! {

/// `pc` moved by the signed displacement `d`.
pub open spec fn relative(pc: u16, d: u8) -> u16 {
    pc.wrapping_add(d as i8 as i16 as u16)
}

/// NOP (4 T-states) or an ED no-op (8 T-states).
pub open spec fn no_op(s: CpuState, m: Map<u16, u8>, t: u32) -> Outcome {
    quiet(with_q(s, false), m, t, seq![])
}

/// HALT: the CPU idles at the following instruction until an interrupt.
pub open spec fn halt(s: CpuState, m: Map<u16, u8>) -> Outcome {
    quiet(with_q(CpuState { halted: true, ..s }, false), m, 4, seq![])
}

/// DJNZ e.
pub open spec fn djnz(s: CpuState, m: Map<u16, u8>) -> Outcome {
    let d = m[s.pc];
    let s1 = after_operand(s);
    let b = s.b.wrapping_sub(1);
    if b != 0 {
        let target = relative(s1.pc, d);
        quiet(with_q(CpuState { b, pc: target, wz: target, ..s1 }, false), m, 13, seq![d])
    } else {
        quiet(with_q(CpuState { b, ..s1 }, false), m, 8, seq![d])
    }
}

/// Whether JR `opcode` (0x18, or 0x20/0x28/0x30/0x38 for NZ/Z/NC/C) jumps.
pub open spec fn jr_taken(f: u8, opcode: u8) -> bool {
    opcode == 0x18 || condition(f, (opcode >> 3u8) & 3)
}

/// JR e and JR cc,e.
pub open spec fn jr(s: CpuState, m: Map<u16, u8>, opcode: u8) -> Outcome {
    let d = m[s.pc];
    let s1 = after_operand(s);
    if jr_taken(s.f, opcode) {
        let target = relative(s1.pc, d);
        quiet(with_q(CpuState { pc: target, wz: target, ..s1 }, false), m, 12, seq![d])
    } else {
        quiet(with_q(s1, false), m, 7, seq![d])
    }
}

/// Whether the JP, CALL or RET form `opcode` transfers control
/// (`unconditional` is its unconditional opcode).
pub open spec fn cc_taken(f: u8, opcode: u8, unconditional: u8) -> bool {
    opcode == unconditional || condition(f, (opcode >> 3u8) & 7)
}

/// JP nn and JP cc,nn: WZ takes the target either way.
pub open spec fn jp(s: CpuState, m: Map<u16, u8>, opcode: u8) -> Outcome {
    let lo = m[s.pc];
    let hi = m[s.pc.wrapping_add(1)];
    let nn = word(lo, hi);
    let s1 = after_operand(after_operand(s));
    let pc = if cc_taken(s.f, opcode, 0xC3) {
        nn
    } else {
        s1.pc
    };
    quiet(with_q(CpuState { pc, wz: nn, ..s1 }, false), m, 10, seq![lo, hi])
}

/// JP (HL).
pub open spec fn jp_hl(s: CpuState, m: Map<u16, u8>) -> Outcome {
    quiet(with_q(CpuState { pc: s.hl(), ..s }, false), m, 4, seq![])
}

/// CALL nn and CALL cc,nn: WZ takes the target either way.
pub open spec fn call(s: CpuState, m: Map<u16, u8>, opcode: u8) -> Outcome {
    let lo = m[s.pc];
    let hi = m[s.pc.wrapping_add(1)];
    let nn = word(lo, hi);
    let s1 = after_operand(after_operand(s));
    if cc_taken(s.f, opcode, 0xCD) {
        quiet(
            with_q(CpuState { sp: s1.sp.wrapping_sub(2), pc: nn, wz: nn, ..s1 }, false),
            push_mem(s1, m, s1.pc),
            17,
            seq![lo, hi],
        )
    } else {
        quiet(with_q(CpuState { wz: nn, ..s1 }, false), m, 10, seq![lo, hi])
    }
}

/// RET.
pub open spec fn ret(s: CpuState, m: Map<u16, u8>) -> Outcome {
    let pc = top_word(s, m);
    quiet(with_q(CpuState { sp: s.sp.wrapping_add(2), pc, wz: pc, ..s }, false), m, 10, seq![])
}

/// RET cc.
pub open spec fn ret_cc(s: CpuState, m: Map<u16, u8>, opcode: u8) -> Outcome {
    if condition(s.f, (opcode >> 3u8) & 7) {
        let pc = top_word(s, m);
        quiet(with_q(CpuState { sp: s.sp.wrapping_add(2), pc, wz: pc, ..s }, false), m, 11, seq![])
    } else {
        quiet(with_q(s, false), m, 5, seq![])
    }
}

/// RST p.
pub open spec fn rst(s: CpuState, m: Map<u16, u8>, opcode: u8) -> Outcome {
    let target = (opcode & 0x38) as u16;
    quiet(
        with_q(CpuState { sp: s.sp.wrapping_sub(2), pc: target, wz: target, ..s }, false),
        push_mem(s, m, s.pc),
        11,
        seq![],
    )
}

/// RETN and RETI: return and copy IFF2 into IFF1.
pub open spec fn retn(s: CpuState, m: Map<u16, u8>) -> Outcome {
    let pc = top_word(s, m);
    quiet(
        with_q(CpuState { sp: s.sp.wrapping_add(2), pc, wz: pc, iff1: s.iff2, ..s }, false),
        m,
        14,
        seq![],
    )
}

/// IM 0, IM 1, IM 2.
pub open spec fn im(s: CpuState, m: Map<u16, u8>, mode: u8) -> Outcome {
    quiet(with_q(CpuState { im: mode, ..s }, false), m, 8, seq![])
}

/// DI (`enable` false) or EI (`enable` true). EI holds off maskable
/// interrupts until one more instruction has run.
pub open spec fn interrupt_enable(s: CpuState, m: Map<u16, u8>, enable: bool) -> Outcome {
    quiet(
        with_q(
            CpuState {
                iff1: enable,
                iff2: enable,
                ei_delay: if enable {
                    1
                } else {
                    s.ei_delay
                },
                ..s
            },
            false,
        ),
        m,
        4,
        seq![],
    )
}

/// RESET: PC, I, R and the interrupt state cleared, the request consumed;
/// 3 T-states. Other registers keep their values.
pub open spec fn accept_reset(s: CpuState, m: Map<u16, u8>) -> Outcome {
    quiet(
        CpuState {
            pc: 0,
            i: 0,
            r: 0,
            iff1: false,
            iff2: false,
            im: 0,
            halted: false,
            ei_delay: 0,
            q: 0,
            reset_pending: false,
            ..s
        },
        m,
        3,
        seq![],
    )
}

/// NMI: PC pushed, execution at 0x0066 with IFF1 cleared (IFF2 keeps the
/// previous enable state); 11 T-states.
pub open spec fn accept_nmi(s: CpuState, m: Map<u16, u8>) -> Outcome {
    quiet(
        CpuState {
            sp: s.sp.wrapping_sub(2),
            pc: 0x66,
            wz: 0x66,
            iff1: false,
            halted: false,
            r: inc_r(s.r),
            q: 0,
            non_maskable_interrupt_pending: false,
            ..s
        },
        push_mem(s, m, s.pc),
        11,
        seq![],
    )
}

/// Whether a requested maskable interrupt is accepted at this boundary.
pub open spec fn can_accept_maskable(s: CpuState) -> bool {
    s.maskable_interrupt_vector is Some && s.iff1 && s.ei_delay == 0
}

/// The state when a maskable interrupt is acknowledged, before the jump.
pub open spec fn acknowledged(s: CpuState) -> CpuState {
    CpuState {
        iff1: false,
        iff2: false,
        halted: false,
        r: inc_r(s.r),
        q: 0,
        maskable_interrupt_vector: None,
        ..s
    }
}

/// A maskable interrupt with data-bus byte `v`. Mode 1 restarts at 0x0038
/// (13 T-states); mode 2 jumps through the word at `I:v` (19 T-states);
/// mode 0 executes `v`, which must be an RST opcode (13 T-states) and
/// otherwise faults with nothing changed.
pub open spec fn accept_maskable(s: CpuState, m: Map<u16, u8>, v: u8) -> Outcome {
    let s1 = acknowledged(s);
    let m1 = push_mem(s, m, s.pc);
    let sp = s.sp.wrapping_sub(2);
    if s.im == 1 {
        quiet(CpuState { sp, pc: 0x38, wz: 0x38, ..s1 }, m1, 13, seq![])
    } else if s.im == 2 {
        let table = ((s.i as u16) << 8u16) | (v as u16);
        let target = word(m1[table], m1[table.wrapping_add(1)]);
        quiet(CpuState { sp, pc: target, wz: target, ..s1 }, m1, 19, seq![])
    } else if v & 0xC7 == 0xC7 {
        let target = (v & 0x38) as u16;
        quiet(CpuState { sp, pc: target, wz: target, ..s1 }, m1, 13, seq![])
    } else {
        Outcome {
            state: s,
            memory: m,
            result: Err(Fault::UnsupportedInterruptVector { vector: v, pc: s.pc }),
            bytes: seq![],
            io: seq![],
        }
    }
}

impl<B: Bus> Z80<B> {
    pub(crate) fn op_nop(&mut self) -> (t: u32)
        ensures
            final(self).ran(*old(self), no_op(old(self)@, old(self).mem(), 4), t),
    {
        self.update_q(false);
        4
    }

    pub(crate) fn op_ed_nop(&mut self) -> (t: u32)
        ensures
            final(self).ran(*old(self), no_op(old(self)@, old(self).mem(), 8), t),
    {
        self.update_q(false);
        8
    }

    pub(crate) fn op_halt(&mut self) -> (t: u32)
        ensures
            final(self).ran(*old(self), halt(old(self)@, old(self).mem()), t),
    {
        self.halted = true;
        self.update_q(false);
        4
    }

    pub(crate) fn op_djnz(&mut self) -> (t: u32)
        ensures
            final(self).ran(*old(self), djnz(old(self)@, old(self).mem()), t),
    {
        let d = self.read_operand_byte();
        self.b = self.b.wrapping_sub(1);
        self.update_q(false);
        if self.b != 0 {
            let target = self.pc.wrapping_add(d as i8 as i16 as u16);
            self.pc = target;
            self.wz = target;
            13
        } else {
            8
        }
    }

    pub(crate) fn op_jr(&mut self, opcode: u8) -> (t: u32)
        ensures
            final(self).ran(*old(self), jr(old(self)@, old(self).mem(), opcode), t),
    {
        let d = self.read_operand_byte();
        let taken = opcode == 0x18 || self.condition((opcode >> 3u8) & 3);
        self.update_q(false);
        if taken {
            let target = self.pc.wrapping_add(d as i8 as i16 as u16);
            self.pc = target;
            self.wz = target;
            12
        } else {
            7
        }
    }

    pub(crate) fn op_jp(&mut self, opcode: u8) -> (t: u32)
        ensures
            final(self).ran(*old(self), jp(old(self)@, old(self).mem(), opcode), t),
    {
        let nn = self.read_operand_word();
        if opcode == 0xC3 || self.condition((opcode >> 3u8) & 7) {
            self.pc = nn;
        }
        self.wz = nn;
        self.update_q(false);
        10
    }

    pub(crate) fn op_jp_hl(&mut self) -> (t: u32)
        ensures
            final(self).ran(*old(self), jp_hl(old(self)@, old(self).mem()), t),
    {
        self.pc = self.hl();
        self.update_q(false);
        4
    }

    pub(crate) fn op_call(&mut self, opcode: u8) -> (t: u32)
        ensures
            final(self).ran(*old(self), call(old(self)@, old(self).mem(), opcode), t),
    {
        let nn = self.read_operand_word();
        self.wz = nn;
        if opcode == 0xCD || self.condition((opcode >> 3u8) & 7) {
            let pc = self.pc;
            self.push_word(pc);
            self.pc = nn;
            self.update_q(false);
            17
        } else {
            self.update_q(false);
            10
        }
    }

    pub(crate) fn op_ret(&mut self) -> (t: u32)
        ensures
            final(self).ran(*old(self), ret(old(self)@, old(self).mem()), t),
    {
        let pc = self.pop_word();
        self.pc = pc;
        self.wz = pc;
        self.update_q(false);
        10
    }

    pub(crate) fn op_ret_cc(&mut self, opcode: u8) -> (t: u32)
        ensures
            final(self).ran(*old(self), ret_cc(old(self)@, old(self).mem(), opcode), t),
    {
        if self.condition((opcode >> 3u8) & 7) {
            let pc = self.pop_word();
            self.pc = pc;
            self.wz = pc;
            self.update_q(false);
            11
        } else {
            self.update_q(false);
            5
        }
    }

    pub(crate) fn op_rst(&mut self, opcode: u8) -> (t: u32)
        ensures
            final(self).ran(*old(self), rst(old(self)@, old(self).mem(), opcode), t),
    {
        let pc = self.pc;
        self.push_word(pc);
        let target = (opcode & 0x38) as u16;
        self.pc = target;
        self.wz = target;
        self.update_q(false);
        11
    }

    fn op_return_from_interrupt(&mut self) -> (t: u32)
        ensures
            final(self).ran(*old(self), retn(old(self)@, old(self).mem()), t),
    {
        let pc = self.pop_word();
        self.pc = pc;
        self.wz = pc;
        self.iff1 = self.iff2;
        self.update_q(false);
        14
    }

    pub(crate) fn op_retn(&mut self) -> (t: u32)
        ensures
            final(self).ran(*old(self), retn(old(self)@, old(self).mem()), t),
    {
        self.op_return_from_interrupt()
    }

    pub(crate) fn op_reti(&mut self) -> (t: u32)
        ensures
            final(self).ran(*old(self), retn(old(self)@, old(self).mem()), t),
    {
        self.op_return_from_interrupt()
    }

    pub(crate) fn op_im(&mut self, mode: u8) -> (t: u32)
        ensures
            final(self).ran(*old(self), im(old(self)@, old(self).mem(), mode), t),
    {
        self.im = mode;
        self.update_q(false);
        8
    }

    pub(crate) fn op_interrupt_enable(&mut self, enable: bool) -> (t: u32)
        ensures
            final(self).ran(*old(self), interrupt_enable(old(self)@, old(self).mem(), enable), t),
    {
        self.iff1 = enable;
        self.iff2 = enable;
        if enable {
            self.ei_delay = 1;
        }
        self.update_q(false);
        4
    }

    pub(crate) fn accept_reset(&mut self) -> (t: u32)
        ensures
            final(self).ran(*old(self), accept_reset(old(self)@, old(self).mem()), t),
    {
        self.pc = 0;
        self.i = 0;
        self.r = 0;
        self.iff1 = false;
        self.iff2 = false;
        self.im = 0;
        self.halted = false;
        self.ei_delay = 0;
        self.q = 0;
        self.reset_pending = false;
        3
    }

    pub(crate) fn accept_non_maskable_interrupt(&mut self) -> (t: u32)
        ensures
            final(self).ran(*old(self), accept_nmi(old(self)@, old(self).mem()), t),
    {
        self.non_maskable_interrupt_pending = false;
        self.halted = false;
        self.iff1 = false;
        self.inc_r();
        let pc = self.pc;
        self.push_word(pc);
        self.pc = 0x66;
        self.wz = 0x66;
        self.q = 0;
        11
    }

    pub(crate) fn can_accept_maskable_interrupt(&self) -> (accept: bool)
        ensures
            accept == can_accept_maskable(self@),
    {
        self.pending_maskable_interrupt.is_some() && self.iff1 && self.ei_delay == 0
    }

    pub(crate) fn accept_maskable_interrupt(&mut self) -> (r: Result<u32, Fault>)
        requires
            can_accept_maskable(old(self)@),
        ensures
            final(self).follows(
                *old(self),
                accept_maskable(
                    old(self)@,
                    old(self).mem(),
                    old(self)@.maskable_interrupt_vector->Some_0,
                ),
            ),
            r == accept_maskable(
                old(self)@,
                old(self).mem(),
                old(self)@.maskable_interrupt_vector->Some_0,
            ).result,
    {
        let v = match self.pending_maskable_interrupt {
            Some(v) => v,
            None => 0,
        };
        if self.im != 1 && self.im != 2 && v & 0xC7 != 0xC7 {
            return Err(Fault::UnsupportedInterruptVector { vector: v, pc: self.pc });
        }
        self.pending_maskable_interrupt = None;
        self.iff1 = false;
        self.iff2 = false;
        self.halted = false;
        self.inc_r();
        self.q = 0;
        let pc = self.pc;
        self.push_word(pc);
        if self.im == 1 {
            self.pc = 0x38;
            self.wz = 0x38;
            Ok(13)
        } else if self.im == 2 {
            let table = ((self.i as u16) << 8u16) | (v as u16);
            let lo = self.read_mem(table);
            let hi = self.read_mem(table.wrapping_add(1));
            let target = ((hi as u16) << 8u16) | (lo as u16);
            self.pc = target;
            self.wz = target;
            Ok(19)
        } else {
            let target = (v & 0x38) as u16;
            self.pc = target;
            self.wz = target;
            Ok(13)
        }
    }
}

} // verus!
