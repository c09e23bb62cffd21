//! Block transfer and search instructions: LDI, LDD, CPI, CPD and their
//! repeating forms.

use vstd::prelude::*;
use crate::flags::{
    FLAG_H, FLAG_N, FLAG_PV, FLAG_X, FLAG_Y, FLAG_Z, flag_value, with_flag,
};
use crate::machine::{Bus, Outcome, Z80, quiet, sz_flags, with_q};
use crate::state::CpuState;

verus! {

/// `v` moved one step up (`increment`) or down.
pub open spec fn step16(v: u16, increment: bool) -> u16 {
    if increment {
        v.wrapping_add(1)
    } else {
        v.wrapping_sub(1)
    }
}

/// The state after one LDI/LDD transfer: HL and DE stepped, BC decremented,
/// H and N cleared, P/V set while BC is nonzero, and X and Y from bits 3
/// and 1 of A plus the byte moved.
pub open spec fn block_ld_state(s: CpuState, m: Map<u16, u8>, increment: bool) -> CpuState {
    let data = m[s.hl()];
    let bc = s.bc().wrapping_sub(1);
    let f1 = with_flag(with_flag(s.f, FLAG_N, false), FLAG_H, false);
    let f2 = with_flag(f1, FLAG_PV, bc != 0);
    let sum = s.a.wrapping_add(data);
    let f3 = with_flag(f2, FLAG_X, (sum & 0x08) >> 3u8 != 0);
    let f4 = with_flag(f3, FLAG_Y, (sum & 0x02) >> 1u8 != 0);
    CpuState {
        f: f4,
        ..s.with_hl(step16(s.hl(), increment)).with_de(step16(s.de(), increment)).with_bc(bc)
    }
}

/// The flags after one CPI/CPD comparison of A with the byte at HL.
pub open spec fn block_cp_flags(s: CpuState, data: u8, bc: u16) -> u8 {
    let result = s.a.wrapping_sub(data);
    let f1 = with_flag(s.f, FLAG_N, true);
    let f2 = with_flag(f1, FLAG_PV, bc != 0);
    let f3 = with_flag(f2, FLAG_H, ((s.a ^ data ^ result) & 0x10) >> 4u8 != 0);
    let intermediate = result.wrapping_sub(flag_value(f3, FLAG_H));
    let f4 = with_flag(f3, FLAG_X, (intermediate & 0x08) >> 3u8 != 0);
    let f5 = with_flag(f4, FLAG_Y, (intermediate & 0x02) >> 1u8 != 0);
    sz_flags(f5, result)
}

/// The state after one CPI/CPD comparison: HL and WZ stepped, BC
/// decremented, N set, H, S and Z from A - (HL), P/V set while BC is
/// nonzero, X and Y from bits 3 and 1 of A - (HL) - H; carry kept.
pub open spec fn block_cp_state(s: CpuState, m: Map<u16, u8>, increment: bool) -> CpuState {
    let data = m[s.hl()];
    let bc = s.bc().wrapping_sub(1);
    CpuState {
        wz: step16(s.wz, increment),
        f: block_cp_flags(s, data, bc),
        ..s.with_hl(step16(s.hl(), increment)).with_bc(bc)
    }
}

/// Whether a repeating search goes round again: BC nonzero and no match.
pub open spec fn block_cp_continues(s: CpuState, m: Map<u16, u8>, increment: bool) -> bool {
    s.bc().wrapping_sub(1) != 0 && flag_value(block_cp_state(s, m, increment).f, FLAG_Z) == 0
}

/// The rewind of a repeating block instruction: PC back by 2, WZ = PC + 1,
/// and X and Y from bits 11 and 13 of the rewound PC.
pub open spec fn block_repeat_state(s: CpuState) -> CpuState {
    let pc = s.pc.wrapping_sub(2);
    let f1 = with_flag(s.f, FLAG_X, ((pc >> 11u16) & 1) as u8 != 0);
    let f2 = with_flag(f1, FLAG_Y, ((pc >> 13u16) & 1) as u8 != 0);
    CpuState { pc, wz: pc.wrapping_add(1), f: f2, ..s }
}

/// LDI/LDD (`repeat` false) or LDIR/LDDR (`repeat` true): 21 T-states per
/// repeat, 16 on the last.
pub open spec fn ld_block(s: CpuState, m: Map<u16, u8>, increment: bool, repeat: bool) -> Outcome {
    let s1 = block_ld_state(s, m, increment);
    let again = repeat && s.bc().wrapping_sub(1) != 0;
    let s2 = if again {
        block_repeat_state(s1)
    } else {
        s1
    };
    quiet(with_q(s2, true), m.insert(s.de(), m[s.hl()]), if again {
        21
    } else {
        16
    }, seq![])
}

/// CPI/CPD (`repeat` false) or CPIR/CPDR (`repeat` true): 21 T-states per
/// repeat, 16 on the last.
pub open spec fn cp_block(s: CpuState, m: Map<u16, u8>, increment: bool, repeat: bool) -> Outcome {
    let s1 = block_cp_state(s, m, increment);
    let again = repeat && block_cp_continues(s, m, increment);
    let s2 = if again {
        block_repeat_state(s1)
    } else {
        s1
    };
    quiet(with_q(s2, true), m, if again {
        21
    } else {
        16
    }, seq![])
}

impl<B: Bus> Z80<B> {
    pub(crate) fn block_ld(&mut self, increment: bool) -> (repeat: bool)
        ensures
            final(self)@ == block_ld_state(old(self)@, old(self).mem(), increment),
            final(self).mem() == old(self).mem().insert(old(self)@.de(), old(self).mem()[old(self)@.hl()]),
            final(self).log() == old(self).log(),
            final(self).queue() == old(self).queue(),
            final(self).fetched@ == old(self).fetched@,
            repeat == (old(self)@.bc().wrapping_sub(1) != 0),
    {
        let src = self.hl();
        let data = self.read_mem(src);
        let dst = self.de();
        self.write_mem(dst, data);
        let (hl, de) = if increment {
            (src.wrapping_add(1), dst.wrapping_add(1))
        } else {
            (src.wrapping_sub(1), dst.wrapping_sub(1))
        };
        self.h = (hl >> 8u16) as u8;
        self.l = hl as u8;
        self.d = (de >> 8u16) as u8;
        self.e = de as u8;
        self.f.set_n(0);
        self.f.set_h(0);
        let bc = self.bc().wrapping_sub(1);
        self.f.set_pv(
            if bc != 0 {
                1
            } else {
                0
            },
        );
        self.b = (bc >> 8u16) as u8;
        self.c = bc as u8;
        // LD group: X/Y come from A + transferred byte, landing in bits 3 and 1
        // (not 3 and 5). Y here is bit 1 of that sum, the documented-undocumented rule.
        let sum = self.a.wrapping_add(data);
        self.f.set_x((sum & 0x08) >> 3u8);
        self.f.set_y((sum & 0x02) >> 1u8);
        bc != 0
    }

    pub(crate) fn block_cp(&mut self, increment: bool) -> (repeat: bool)
        ensures
            final(self)@ == block_cp_state(old(self)@, old(self).mem(), increment),
            final(self).mem() == old(self).mem(),
            final(self).log() == old(self).log(),
            final(self).queue() == old(self).queue(),
            final(self).fetched@ == old(self).fetched@,
            repeat == block_cp_continues(old(self)@, old(self).mem(), increment),
    {
        let src = self.hl();
        let data = self.read_mem(src);
        let hl = if increment {
            self.wz = self.wz.wrapping_add(1);
            src.wrapping_add(1)
        } else {
            self.wz = self.wz.wrapping_sub(1);
            src.wrapping_sub(1)
        };
        self.h = (hl >> 8u16) as u8;
        self.l = hl as u8;
        let result = self.a.wrapping_sub(data);
        self.f.set_n(1);
        let bc = self.bc().wrapping_sub(1);
        self.f.set_pv(
            if bc != 0 {
                1
            } else {
                0
            },
        );
        self.b = (bc >> 8u16) as u8;
        self.c = bc as u8;
        self.f.set_h(((self.a ^ data ^ result) & 0x10) >> 4u8);
        // X/Y come from A - (HL) - H, the ALU's intermediate before the final
        // correction, and land in bits 3 and 1 (not 3 and 5) for the CP group.
        let intermediate = result.wrapping_sub(self.f.h());
        self.f.set_x((intermediate & 0x08) >> 3u8);
        self.f.set_y((intermediate & 0x02) >> 1u8);
        self.set_sz(result);
        bc != 0 && self.f.z() == 0
    }

    pub(crate) fn block_repeat(&mut self)
        ensures
            final(self)@ == block_repeat_state(old(self)@),
            final(self).bus == old(self).bus,
            final(self).fetched@ == old(self).fetched@,
    {
        self.pc = self.pc.wrapping_sub(2);
        self.wz = self.pc.wrapping_add(1);
        // On a repeat the CPU rewinds PC by 2 and re-fetches; X/Y then sample bits 3
        // and 5 of the rewound PC's high byte (PC bits 11 and 13), and WZ = PC + 1.
        self.f.set_x(((self.pc >> 11u16) & 1) as u8);
        self.f.set_y(((self.pc >> 13u16) & 1) as u8);
    }

    /// LDI -- (DE) <- (HL); HL++, DE++, BC--.
    pub(crate) fn op_ldi(&mut self) -> (t: u32)
        ensures
            final(self).ran(*old(self), ld_block(old(self)@, old(self).mem(), true, false), t),
    {
        self.block_ld(true);
        self.update_q(true);
        16
    }

    /// LDD -- (DE) <- (HL); HL--, DE--, BC--.
    pub(crate) fn op_ldd(&mut self) -> (t: u32)
        ensures
            final(self).ran(*old(self), ld_block(old(self)@, old(self).mem(), false, false), t),
    {
        self.block_ld(false);
        self.update_q(true);
        16
    }

    /// CPI -- compare A with (HL); HL++, BC--.
    pub(crate) fn op_cpi(&mut self) -> (t: u32)
        ensures
            final(self).ran(*old(self), cp_block(old(self)@, old(self).mem(), true, false), t),
    {
        self.block_cp(true);
        self.update_q(true);
        16
    }

    /// CPD -- compare A with (HL); HL--, BC--.
    pub(crate) fn op_cpd(&mut self) -> (t: u32)
        ensures
            final(self).ran(*old(self), cp_block(old(self)@, old(self).mem(), false, false), t),
    {
        self.block_cp(false);
        self.update_q(true);
        16
    }

    /// LDIR -- LDI repeated while BC != 0; 21 T-states per repeat, 16 on the last.
    pub(crate) fn op_ldir(&mut self) -> (t: u32)
        ensures
            final(self).ran(*old(self), ld_block(old(self)@, old(self).mem(), true, true), t),
    {
        let repeat = self.block_ld(true);
        if repeat {
            self.block_repeat();
        }
        self.update_q(true);
        if repeat {
            21
        } else {
            16
        }
    }

    /// LDDR -- LDD repeated while BC != 0; 21 T-states per repeat, 16 on the last.
    pub(crate) fn op_lddr(&mut self) -> (t: u32)
        ensures
            final(self).ran(*old(self), ld_block(old(self)@, old(self).mem(), false, true), t),
    {
        let repeat = self.block_ld(false);
        if repeat {
            self.block_repeat();
        }
        self.update_q(true);
        if repeat {
            21
        } else {
            16
        }
    }

    /// CPIR -- CPI repeated while BC != 0 and A != (HL); 21 T-states per repeat, 16 last.
    pub(crate) fn op_cpir(&mut self) -> (t: u32)
        ensures
            final(self).ran(*old(self), cp_block(old(self)@, old(self).mem(), true, true), t),
    {
        let repeat = self.block_cp(true);
        if repeat {
            self.block_repeat();
        }
        self.update_q(true);
        if repeat {
            21
        } else {
            16
        }
    }

    /// CPDR -- CPD repeated while BC != 0 and A != (HL); 21 T-states per repeat, 16 last.
    pub(crate) fn op_cpdr(&mut self) -> (t: u32)
        ensures
            final(self).ran(*old(self), cp_block(old(self)@, old(self).mem(), false, true), t),
    {
        let repeat = self.block_cp(false);
        if repeat {
            self.block_repeat();
        }
        self.update_q(true);
        if repeat {
            21
        } else {
            16
        }
    }
}

} // verus!
