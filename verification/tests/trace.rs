use z80_rust::trace::{boundary_kind, step_record, BoundaryKind, InstructionBytes, StepRecord};
use z80_rust::{Bus, CpuState, Fault, Z80};

struct Ram {
    memory: Vec<u8>,
}

impl Bus for Ram {
    fn read_byte(&mut self, addr: u16) -> u8 {
        self.memory[addr as usize]
    }

    fn write_byte(&mut self, addr: u16, value: u8) {
        self.memory[addr as usize] = value;
    }

    fn read_port(&mut self, _addr: u16) -> u8 {
        0xFF
    }

    fn write_port(&mut self, _addr: u16, _value: u8) {}
}

fn cpu_with(program: &[u8]) -> Z80<Ram> {
    let mut memory = vec![0u8; 0x10000];
    memory[..program.len()].copy_from_slice(program);
    Z80::new(Ram { memory })
}

const POWER_ON_JSON: &str = "{\"a\":255,\"af_alt\":0,\"b\":0,\"bc_alt\":0,\"c\":0,\"d\":0,\"de_alt\":0,\"e\":0,\"ei_delay\":0,\"f\":255,\"h\":0,\"halted\":false,\"hl_alt\":0,\"i\":0,\"iff1\":false,\"iff2\":false,\"im\":0,\"ix\":0,\"iy\":0,\"l\":0,\"maskable_interrupt_vector\":null,\"non_maskable_interrupt_pending\":false,\"pc\":0,\"q\":0,\"r\":0,\"reset_pending\":false,\"sp\":65535,\"wz\":0}";

#[test]
fn kind_names_follow_the_schema() {
    assert_eq!(BoundaryKind::Instruction.as_str(), "instruction");
    assert_eq!(BoundaryKind::HaltIdle.as_str(), "halt_idle");
    assert_eq!(BoundaryKind::Reset.as_str(), "reset");
    assert_eq!(BoundaryKind::NonMaskableInterrupt.as_str(), "non_maskable_interrupt");
    assert_eq!(BoundaryKind::MaskableInterrupt.as_str(), "maskable_interrupt");
}

#[test]
fn boundary_kind_priority() {
    let base = cpu_with(&[]).capture_state();
    assert_eq!(boundary_kind(&base), BoundaryKind::Instruction);
    let halted = CpuState { halted: true, ..base.clone() };
    assert_eq!(boundary_kind(&halted), BoundaryKind::HaltIdle);
    let masked = CpuState { maskable_interrupt_vector: Some(0xFF), ..halted.clone() };
    assert_eq!(boundary_kind(&masked), BoundaryKind::HaltIdle);
    let enabled = CpuState { iff1: true, ..masked.clone() };
    assert_eq!(boundary_kind(&enabled), BoundaryKind::MaskableInterrupt);
    let delayed = CpuState { ei_delay: 1, ..enabled.clone() };
    assert_eq!(boundary_kind(&delayed), BoundaryKind::HaltIdle);
    let nmi = CpuState { non_maskable_interrupt_pending: true, ..enabled.clone() };
    assert_eq!(boundary_kind(&nmi), BoundaryKind::NonMaskableInterrupt);
    let reset = CpuState { reset_pending: true, ..nmi.clone() };
    assert_eq!(boundary_kind(&reset), BoundaryKind::Reset);
}

#[test]
fn state_json_has_sorted_keys() {
    let state = cpu_with(&[]).capture_state();
    let mut out = String::new();
    state.write_json(&mut out);
    assert_eq!(out, POWER_ON_JSON);
}

#[test]
fn pending_vector_is_written_in_decimal() {
    let mut cpu = cpu_with(&[]);
    cpu.request_maskable_interrupt(0xFF);
    let mut out = String::new();
    cpu.capture_state().write_json(&mut out);
    assert!(out.contains("\"maskable_interrupt_vector\":255,"));
}

#[test]
fn step_record_of_a_nop() {
    let mut cpu = cpu_with(&[0x00]);
    let record = step_record(&mut cpu, 7).unwrap();
    assert_eq!(record.sequence, 7);
    assert_eq!(record.kind, BoundaryKind::Instruction);
    assert_eq!(record.t_states, 4);
    assert_eq!(record.instruction, Some(InstructionBytes { address: 0, data: vec![0x00] }));
    assert_eq!(record.after.pc, 1);
    assert_eq!(record.after.r, 1);
    let after_json = POWER_ON_JSON.replace("\"pc\":0,", "\"pc\":1,").replace("\"r\":0,", "\"r\":1,");
    let expected = format!(
        "{{\"after\":{},\"before\":{},\"instruction\":{{\"address\":0,\"data\":\"00\"}},\"kind\":\"instruction\",\"sequence\":7,\"t_states\":4,\"version\":1}}",
        after_json, POWER_ON_JSON
    );
    assert_eq!(record.to_json(), expected);
    let mut line = String::from("x");
    record.write_to(&mut line);
    assert_eq!(line, format!("x{}\n", expected));
}

#[test]
fn interrupt_records_carry_no_instruction() {
    let mut cpu = cpu_with(&[0x00]);
    cpu.request_non_maskable_interrupt();
    let record = step_record(&mut cpu, 0).unwrap();
    assert_eq!(record.kind, BoundaryKind::NonMaskableInterrupt);
    assert_eq!(record.instruction, None);
    assert_eq!(record.t_states, 11);
    assert!(record.to_json().contains("\"instruction\":null,\"kind\":\"non_maskable_interrupt\""));
}

#[test]
fn instruction_bytes_are_written_as_lowercase_hex() {
    let mut cpu = cpu_with(&[0xDD, 0x21, 0xAB, 0xCD]);
    let record = step_record(&mut cpu, 1).unwrap();
    assert_eq!(record.instruction, Some(InstructionBytes { address: 0, data: vec![0xDD, 0x21, 0xAB, 0xCD] }));
    assert!(record.to_json().contains("\"instruction\":{\"address\":0,\"data\":\"dd21abcd\"}"));
}

#[test]
fn fault_produces_no_record() {
    let mut cpu = Z80::new(Ram { memory: vec![0xFD; 0x10000] });
    let r: Result<StepRecord, Fault> = step_record(&mut cpu, 0);
    assert_eq!(r, Err(Fault::UnhandledIndexOpcode { prefix: 0xFD, opcode: 0xFD, pc: 0xFFFF }));
}

#[test]
fn prefix_run_is_one_record() {
    let mut cpu = cpu_with(&[0xFD, 0xED, 0x00]);
    let record = step_record(&mut cpu, 0).unwrap();
    assert_eq!(record.t_states, 12);
    assert_eq!(record.instruction, Some(InstructionBytes { address: 0, data: vec![0xFD, 0xED, 0x00] }));
}
