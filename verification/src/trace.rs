//! Trace records, one per processor boundary, as JSON Lines objects.
//!
//! A record carries the boundary kind, the T-states it consumed, the
//! instruction's address and bytes (no mnemonic), and the complete state
//! before and after.

use vstd::prelude::*;
use crate::control::can_accept_maskable;
use crate::cpu::step_outcome;
use crate::json::{push, push_decimal, push_hex, write_decimal, write_hex};
use crate::machine::{Bus, Fault, Z80, last_port_input};
use crate::state::write_state;
use vstd::slice::slice_to_vec;
use crate::state::CpuState;

verus! {

pub const TRACE_SCHEMA_VERSION: u32 = 1;

/// Kind of work performed by one `step()` call.
#[derive(Clone, Copy, Debug, PartialEq, Eq, Structural)]
pub enum BoundaryKind {
    Instruction,
    HaltIdle,
    Reset,
    NonMaskableInterrupt,
    MaskableInterrupt,
}

/// The schema's name of a boundary kind.
pub open spec fn kind_name(kind: BoundaryKind) -> Seq<char> {
    match kind {
        BoundaryKind::Instruction => "instruction"@,
        BoundaryKind::HaltIdle => "halt_idle"@,
        BoundaryKind::Reset => "reset"@,
        BoundaryKind::NonMaskableInterrupt => "non_maskable_interrupt"@,
        BoundaryKind::MaskableInterrupt => "maskable_interrupt"@,
    }
}

impl BoundaryKind {
    pub fn as_str(self) -> (name: &'static str)
        ensures
            name@ == kind_name(self),
    {
        match self {
            BoundaryKind::Instruction => "instruction",
            BoundaryKind::HaltIdle => "halt_idle",
            BoundaryKind::Reset => "reset",
            BoundaryKind::NonMaskableInterrupt => "non_maskable_interrupt",
            BoundaryKind::MaskableInterrupt => "maskable_interrupt",
        }
    }
}

/// The kind of the next boundary: reset, NMI, acceptable maskable, halted,
/// else instruction.
pub open spec fn boundary(s: CpuState) -> BoundaryKind {
    if s.reset_pending {
        BoundaryKind::Reset
    } else if s.non_maskable_interrupt_pending {
        BoundaryKind::NonMaskableInterrupt
    } else if can_accept_maskable(s) {
        BoundaryKind::MaskableInterrupt
    } else if s.halted {
        BoundaryKind::HaltIdle
    } else {
        BoundaryKind::Instruction
    }
}

/// Classify the next boundary from the state and lifecycle requests, in the
/// order the schema fixes: reset, NMI, acceptable maskable, halted, else
/// instruction.
pub fn boundary_kind(state: &CpuState) -> (kind: BoundaryKind)
    ensures
        kind == boundary(*state),
{
    if state.reset_pending {
        return BoundaryKind::Reset;
    }
    if state.non_maskable_interrupt_pending {
        return BoundaryKind::NonMaskableInterrupt;
    }
    if state.maskable_interrupt_vector.is_some() && state.iff1 && state.ei_delay == 0 {
        return BoundaryKind::MaskableInterrupt;
    }
    if state.halted {
        return BoundaryKind::HaltIdle;
    }
    BoundaryKind::Instruction
}

/// The bytes one instruction occupied, prefixes and operands included.
#[derive(Clone, Debug, PartialEq, Eq)]
pub struct InstructionBytes {
    pub address: u16,
    pub data: Vec<u8>,
}

/// Before/after evidence for one processor boundary.
#[derive(Clone, Debug, PartialEq, Eq)]
pub struct StepRecord {
    pub sequence: u64,
    pub kind: BoundaryKind,
    pub t_states: u32,
    pub instruction: Option<InstructionBytes>,
    pub before: CpuState,
    pub after: CpuState,
}

/// `text` followed by the instruction object: its address in decimal and
/// its bytes as one lowercase hex string; `null` when there is none.
pub open spec fn write_instruction(text: Seq<char>, instruction: Option<InstructionBytes>) -> Seq<
    char,
> {
    match instruction {
        None => text + "null"@,
        Some(bytes) => write_hex(
            write_decimal(text + "{\"address\":"@, bytes.address as nat) + ",\"data\":\""@,
            bytes.data@,
        ) + "\"}"@,
    }
}

/// The record as one JSON object: keys sorted, no whitespace, no newline.
pub open spec fn record_json(r: StepRecord) -> Seq<char> {
    let t1 = write_state(Seq::<char>::empty() + "{\"after\":"@, r.after);
    let t2 = write_state(t1 + ",\"before\":"@, r.before);
    let t3 = write_instruction(t2 + ",\"instruction\":"@, r.instruction);
    let t4 = (t3 + ",\"kind\":\""@) + kind_name(r.kind);
    let t5 = write_decimal(t4 + "\",\"sequence\":"@, r.sequence as nat);
    let t6 = write_decimal(t5 + ",\"t_states\":"@, r.t_states as nat);
    write_decimal(t6 + ",\"version\":"@, TRACE_SCHEMA_VERSION as nat) + "}"@
}

impl StepRecord {
    /// Encode as one JSON object with sorted keys and no whitespace, without
    /// a newline.
    pub fn to_json(&self) -> (text: String)
        ensures
            text@ == record_json(*self),
    {
        let mut out = String::new();
        push(&mut out, "{\"after\":");
        self.after.write_json(&mut out);
        push(&mut out, ",\"before\":");
        self.before.write_json(&mut out);
        push(&mut out, ",\"instruction\":");
        match &self.instruction {
            None => push(&mut out, "null"),
            Some(instruction) => {
                push(&mut out, "{\"address\":");
                push_decimal(&mut out, instruction.address as u64);
                push(&mut out, ",\"data\":\"");
                push_hex(&mut out, instruction.data.as_slice());
                push(&mut out, "\"}");
            },
        }
        push(&mut out, ",\"kind\":\"");
        push(&mut out, self.kind.as_str());
        push(&mut out, "\",\"sequence\":");
        push_decimal(&mut out, self.sequence);
        push(&mut out, ",\"t_states\":");
        push_decimal(&mut out, self.t_states as u64);
        push(&mut out, ",\"version\":");
        push_decimal(&mut out, TRACE_SCHEMA_VERSION as u64);
        push(&mut out, "}");
        out
    }

    /// Append the record to `out` as one JSON Lines record: the object and
    /// a newline.
    pub fn write_to(&self, out: &mut String)
        ensures
            final(out)@ == old(out)@ + record_json(*self) + "\n"@,
    {
        let line = self.to_json();
        push(out, line.as_str());
        push(out, "\n");
    }
}

/// Advance `cpu` one boundary and return its record.
///
/// On a [`Fault`] the CPU is left as `step` leaves it and no record is
/// produced.
pub fn step_record<B: Bus>(cpu: &mut Z80<B>, sequence: u64) -> (r: Result<StepRecord, Fault>)
    ensures
        ({
            let out = step_outcome(
                old(cpu)@,
                old(cpu).mem(),
                last_port_input(final(cpu).log()),
            );
            &&& final(cpu)@ == out.state
            &&& final(cpu).mem() == out.memory
            &&& final(cpu).log() =~= old(cpu).log() + out.io
            &&& final(cpu).queue() == old(cpu).queue()
            &&& match r {
                Ok(record) => {
                    &&& out.result == Ok::<u32, Fault>(record.t_states)
                    &&& record.sequence == sequence
                    &&& record.kind == boundary(old(cpu)@)
                    &&& record.before == old(cpu)@
                    &&& record.after == final(cpu)@
                    &&& match record.instruction {
                        Some(bytes) => {
                            &&& record.kind == BoundaryKind::Instruction
                            &&& bytes.address == old(cpu)@.pc
                            &&& bytes.data@ == out.bytes
                        },
                        None => record.kind != BoundaryKind::Instruction,
                    }
                },
                Err(fault) => out.result == Err::<u32, Fault>(fault),
            }
        }),
{
    let before = cpu.capture_state();
    let kind = boundary_kind(&before);
    let t_states = cpu.step()?;
    let after = cpu.capture_state();
    let instruction = if kind == BoundaryKind::Instruction {
        Some(
            InstructionBytes { address: before.pc, data: slice_to_vec(cpu.last_instruction_bytes()) },
        )
    } else {
        None
    };
    Ok(StepRecord { sequence, kind, t_states, instruction, before, after })
}

} // verus!
