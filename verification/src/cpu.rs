//! Public Z80 CPU API: `step`, state capture/restore, and the lifecycle requests.

use vstd::prelude::*;
use crate::control::{accept_maskable, accept_nmi, accept_reset};
use crate::dispatch::decode;
use crate::machine::{Bus, Fault, Outcome, PortAccess, Z80, inc_r, last_port_input, quiet, with_q};
use crate::state::CpuState;
use crate::trace::{BoundaryKind, boundary};

verus! {

/// A halted CPU's idle boundary: a refresh cycle and nothing else.
pub open spec fn halt_idle(s: CpuState, m: Map<u16, u8>) -> Outcome {
    quiet(with_q(CpuState { r: inc_r(s.r), ..s }, false), m, 4, seq![])
}

/// An instruction-or-idle outcome with one step of a pending EI delay spent.
pub open spec fn spend_ei_delay(before: CpuState, out: Outcome) -> Outcome {
    if before.ei_delay > 0 && out.result is Ok && out.state.ei_delay > 0 {
        Outcome { state: CpuState { ei_delay: (out.state.ei_delay - 1) as u8, ..out.state }, ..out }
    } else {
        out
    }
}

/// One processor boundary from state `s` and memory `m`, the kind of work
/// chosen in the order RESET, NMI, acceptable maskable interrupt, halted
/// idle, instruction. `pin` is the byte a port read answers.
pub open spec fn step_outcome(s: CpuState, m: Map<u16, u8>, pin: u8) -> Outcome {
    match boundary(s) {
        BoundaryKind::Reset => accept_reset(s, m),
        BoundaryKind::NonMaskableInterrupt => accept_nmi(s, m),
        BoundaryKind::MaskableInterrupt => accept_maskable(s, m, s.maskable_interrupt_vector->Some_0),
        BoundaryKind::HaltIdle => spend_ei_delay(s, halt_idle(s, m)),
        BoundaryKind::Instruction => spend_ei_delay(s, decode(s, m, pin)),
    }
}

/// One point of a run: the CPU state, the memory, and every port access
/// so far.
pub type RunPoint = (CpuState, Map<u16, u8>, Seq<PortAccess>);

/// `b` is what one boundary of `t` T-states makes of `a`: the step the
/// instruction set defines, its port reads answering as `b`'s log says.
#[verifier::opaque]
pub open spec fn steps_to(a: RunPoint, b: RunPoint, t: u32) -> bool {
    let out = step_outcome(a.0, a.1, last_port_input(b.2));
    &&& out.result == Ok::<u32, Fault>(t)
    &&& b.0 == out.state
    &&& b.1 == out.memory
    &&& b.2 == a.2 + out.io
}

/// Each point of `trace` is one completed boundary after the one before,
/// the `i`-th taking `times[i]` T-states.
pub open spec fn runs(trace: Seq<RunPoint>, times: Seq<u32>) -> bool {
    &&& trace.len() == times.len() + 1
    &&& forall|i: int| 0 <= i < times.len() ==> steps_to(#[trigger] trace[i], trace[i + 1], times[i])
}

/// The T-states of a run: the sum of its boundaries' times.
pub open spec fn total_time(times: Seq<u32>) -> int
    decreases times.len(),
{
    if times.len() == 0 {
        0
    } else {
        total_time(times.drop_last()) + times.last()
    }
}

/// A run one boundary longer.
pub proof fn lemma_runs_extend(trace: Seq<RunPoint>, times: Seq<u32>, p: RunPoint, t: u32)
    requires
        runs(trace, times),
        steps_to(trace.last(), p, t),
    ensures
        runs(trace.push(p), times.push(t)),
        total_time(times.push(t)) == total_time(times) + t,
{
    assert(times.push(t).drop_last() =~= times);
    let tr = trace.push(p);
    let ts = times.push(t);
    assert forall|i: int| 0 <= i < ts.len() implies steps_to(#[trigger] tr[i], tr[i + 1], ts[i]) by {
        if i < times.len() {
            assert(tr[i] == trace[i]);
            assert(tr[i + 1] == trace[i + 1]);
        }
    }
}

impl<B: Bus> Z80<B> {
    /// The CPU's point in a run.
    pub open spec fn point(&self) -> RunPoint {
        (self@, self.mem(), self.log())
    }

    /// `step`, stated over run points.
    pub(crate) fn step_traced(&mut self) -> (r: Result<u32, Fault>)
        ensures
            r matches Ok(t) ==> steps_to(old(self).point(), final(self).point(), t),
            r matches Err(f) ==> exists|pin: u8|
                #[trigger] step_outcome(old(self)@, old(self).mem(), pin).result == Err::<u32, Fault>(f),
            r matches Ok(t) ==> 3 <= t <= crate::laws::MAX_BOUNDARY_T_STATES,
            final(self).queue() == old(self).queue(),
    {
        let r = self.step();
        proof {
            reveal(steps_to);
            let pin = last_port_input(self.log());
            assert(step_outcome(old(self)@, old(self).mem(), pin).result == r);
            crate::laws::law_boundary_time(old(self)@, old(self).mem(), pin);
        }
        r
    }

    /// Advance one instruction boundary and return its documented T-state count.
    ///
    /// An asserted RESET takes priority over NMI and an accepted maskable
    /// interrupt; each is serviced before instruction fetch. A halted CPU
    /// consumes a four-T-state idle cycle until an accepted interrupt wakes
    /// it. T-states are instruction/lifecycle totals, not externally
    /// observable bus cycles. An instruction boundary replaces the recorded
    /// instruction bytes; the others leave them.
    pub fn step(&mut self) -> (r: Result<u32, Fault>)
        ensures
            ({
                let out = step_outcome(
                    old(self)@,
                    old(self).mem(),
                    last_port_input(final(self).log()),
                );
                &&& final(self)@ == out.state
                &&& final(self).mem() == out.memory
                &&& final(self).log() =~= old(self).log() + out.io
            &&& final(self).queue() == old(self).queue()
                &&& final(self).queue() == old(self).queue()
                &&& r == out.result
                &&& final(self).fetched@ == if boundary(old(self)@) is Instruction {
                    out.bytes
                } else {
                    old(self).fetched@
                }
            }),
    {
        if self.reset_pending {
            return Ok(self.accept_reset());
        }
        if self.non_maskable_interrupt_pending {
            return Ok(self.accept_non_maskable_interrupt());
        }
        if self.can_accept_maskable_interrupt() {
            return self.accept_maskable_interrupt();
        }

        let delay_was_active = self.ei_delay > 0;
        let t_states = if self.halted {
            self.inc_r();
            self.update_q(false);
            4
        } else {
            self.decode_and_execute()?
        };
        if delay_was_active && self.ei_delay > 0 {
            self.ei_delay -= 1;
        }
        Ok(t_states)
    }

    /// Return a snapshot of all CPU-owned execution state.
    ///
    /// Host memory, ports, devices, scheduling, and counters are not included.
    pub fn capture_state(&self) -> (state: CpuState)
        ensures
            state == self@,
    {
        CpuState {
            a: self.a,
            f: self.f.byte(),
            b: self.b,
            c: self.c,
            d: self.d,
            e: self.e,
            h: self.h,
            l: self.l,
            ix: self.ix,
            iy: self.iy,
            sp: self.sp,
            pc: self.pc,
            wz: self.wz,
            i: self.i,
            r: self.r,
            iff1: self.iff1,
            iff2: self.iff2,
            im: self.im,
            af_alt: self.af_,
            bc_alt: self.bc_,
            de_alt: self.de_,
            hl_alt: self.hl_,
            q: self.q,
            halted: self.halted,
            ei_delay: self.ei_delay,
            reset_pending: self.reset_pending,
            maskable_interrupt_vector: self.pending_maskable_interrupt,
            non_maskable_interrupt_pending: self.non_maskable_interrupt_pending,
        }
    }

    /// Restore a previously captured CPU state without touching the host.
    pub fn restore_state(&mut self, state: &CpuState)
        ensures
            final(self)@ == *state,
            final(self).bus == old(self).bus,
            final(self).fetched@ == old(self).fetched@,
    {
        self.a = state.a;
        self.f.set_byte(state.f);
        self.b = state.b;
        self.c = state.c;
        self.d = state.d;
        self.e = state.e;
        self.h = state.h;
        self.l = state.l;
        self.ix = state.ix;
        self.iy = state.iy;
        self.sp = state.sp;
        self.pc = state.pc;
        self.wz = state.wz;
        self.i = state.i;
        self.r = state.r;
        self.iff1 = state.iff1;
        self.iff2 = state.iff2;
        self.im = state.im;
        self.af_ = state.af_alt;
        self.bc_ = state.bc_alt;
        self.de_ = state.de_alt;
        self.hl_ = state.hl_alt;
        self.q = state.q;
        self.halted = state.halted;
        self.ei_delay = state.ei_delay;
        self.reset_pending = state.reset_pending;
        self.pending_maskable_interrupt = state.maskable_interrupt_vector;
        self.non_maskable_interrupt_pending = state.non_maskable_interrupt_pending;
    }

    /// Whether the host has asserted RESET.
    pub fn reset_pending(&self) -> (pending: bool)
        ensures
            pending == self@.reset_pending,
    {
        self.reset_pending
    }

    /// Assert RESET for servicing at the next instruction boundary.
    pub fn request_reset(&mut self)
        ensures
            final(self)@ == (CpuState { reset_pending: true, ..old(self)@ }),
            final(self).bus == old(self).bus,
            final(self).fetched@ == old(self).fetched@,
    {
        self.reset_pending = true;
    }

    /// Release the host-controlled RESET line.
    pub fn clear_reset(&mut self)
        ensures
            final(self)@ == (CpuState { reset_pending: false, ..old(self)@ }),
            final(self).bus == old(self).bus,
            final(self).fetched@ == old(self).fetched@,
    {
        self.reset_pending = false;
    }

    /// Whether a device has requested a maskable interrupt not yet accepted.
    pub fn maskable_interrupt_pending(&self) -> (pending: bool)
        ensures
            pending == self@.maskable_interrupt_vector is Some,
    {
        self.pending_maskable_interrupt.is_some()
    }

    /// Assert the maskable-interrupt request line between instruction boundaries.
    pub fn request_maskable_interrupt(&mut self, vector_byte: u8)
        ensures
            final(self)@ == (CpuState {
                maskable_interrupt_vector: Some(vector_byte),
                ..old(self)@
            }),
            final(self).bus == old(self).bus,
            final(self).fetched@ == old(self).fetched@,
    {
        self.pending_maskable_interrupt = Some(vector_byte);
    }

    /// Deassert a previously requested but not-yet-accepted interrupt.
    pub fn clear_maskable_interrupt(&mut self)
        ensures
            final(self)@ == (CpuState { maskable_interrupt_vector: None, ..old(self)@ }),
            final(self).bus == old(self).bus,
            final(self).fetched@ == old(self).fetched@,
    {
        self.pending_maskable_interrupt = None;
    }

    /// Whether a device has requested a non-maskable interrupt not yet accepted.
    pub fn non_maskable_interrupt_pending(&self) -> (pending: bool)
        ensures
            pending == self@.non_maskable_interrupt_pending,
    {
        self.non_maskable_interrupt_pending
    }

    /// Latch an NMI request for service at the next instruction boundary.
    pub fn request_non_maskable_interrupt(&mut self)
        ensures
            final(self)@ == (CpuState { non_maskable_interrupt_pending: true, ..old(self)@ }),
            final(self).bus == old(self).bus,
            final(self).fetched@ == old(self).fetched@,
    {
        self.non_maskable_interrupt_pending = true;
    }

    /// Cancel a requested NMI that has not yet reached an instruction boundary.
    pub fn clear_non_maskable_interrupt(&mut self)
        ensures
            final(self)@ == (CpuState { non_maskable_interrupt_pending: false, ..old(self)@ }),
            final(self).bus == old(self).bus,
            final(self).fetched@ == old(self).fetched@,
    {
        self.non_maskable_interrupt_pending = false;
    }
}

} // verus!
