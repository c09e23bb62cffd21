use z80_rust::{Bus, CpuState, Fault, Z80};

struct Ram {
    memory: Vec<u8>,
    port_value: u8,
    reads: Vec<u16>,
    writes: Vec<(u16, u8)>,
}

impl Ram {
    fn with_program(origin: u16, program: &[u8]) -> Ram {
        let mut memory = vec![0u8; 0x10000];
        for (i, byte) in program.iter().enumerate() {
            memory[(origin as usize + i) & 0xFFFF] = *byte;
        }
        Ram { memory, port_value: 0xFF, reads: Vec::new(), writes: Vec::new() }
    }
}

impl Bus for Ram {
    fn read_byte(&mut self, addr: u16) -> u8 {
        self.memory[addr as usize]
    }

    fn write_byte(&mut self, addr: u16, value: u8) {
        self.memory[addr as usize] = value;
    }

    fn read_port(&mut self, addr: u16) -> u8 {
        self.reads.push(addr);
        self.port_value
    }

    fn write_port(&mut self, addr: u16, value: u8) {
        self.writes.push((addr, value));
    }
}

fn cpu_with(program: &[u8]) -> Z80<Ram> {
    let mut cpu = Z80::new(Ram::with_program(0, program));
    cpu.sp = 0xFF00;
    cpu
}

#[test]
fn capture_then_restore_round_trips() {
    let mut cpu = cpu_with(&[0x00]);
    cpu.a = 0x12;
    cpu.f.set_byte(0xD7);
    cpu.request_maskable_interrupt(0xFF);
    let snapshot: CpuState = cpu.capture_state();
    let mut other = cpu_with(&[0x00]);
    other.restore_state(&snapshot);
    assert_eq!(other.capture_state(), snapshot);
    assert_eq!(snapshot.f, 0xD7);
    assert_eq!(snapshot.maskable_interrupt_vector, Some(0xFF));
}

#[test]
fn add_sets_flags() {
    // LD A,0x7F ; ADD A,0x01
    let mut cpu = cpu_with(&[0x3E, 0x7F, 0xC6, 0x01]);
    assert_eq!(cpu.step(), Ok(7));
    assert_eq!(cpu.step(), Ok(7));
    assert_eq!(cpu.a, 0x80);
    // S, H, P/V set; N, C clear; Y and X from 0x80 (clear).
    assert_eq!(cpu.f.byte(), 0x94);
    assert_eq!(cpu.pc, 4);
}

#[test]
fn nop_takes_four_t_states_and_refreshes() {
    let mut cpu = cpu_with(&[0x00]);
    assert_eq!(cpu.step(), Ok(4));
    assert_eq!(cpu.pc, 1);
    assert_eq!(cpu.r, 1);
    assert_eq!(cpu.last_instruction_bytes(), &[0x00][..]);
}

#[test]
fn refresh_keeps_bit_seven() {
    let mut cpu = cpu_with(&[0x00]);
    cpu.r = 0xFF;
    assert_eq!(cpu.step(), Ok(4));
    assert_eq!(cpu.r, 0x80);
}

#[test]
fn load_immediate_pair_and_memory() {
    // LD BC,0x1234 ; LD HL,0x8000 ; LD (HL),0x55
    let mut cpu = cpu_with(&[0x01, 0x34, 0x12, 0x21, 0x00, 0x80, 0x36, 0x55]);
    assert_eq!(cpu.step(), Ok(10));
    assert_eq!((cpu.b, cpu.c), (0x12, 0x34));
    assert_eq!(cpu.step(), Ok(10));
    assert_eq!(cpu.hl(), 0x8000);
    assert_eq!(cpu.step(), Ok(10));
    assert_eq!(cpu.bus.memory[0x8000], 0x55);
    assert_eq!(cpu.pc, 8);
}

#[test]
fn inc_wraps_to_zero_and_keeps_carry() {
    let mut cpu = cpu_with(&[0x3C]);
    cpu.a = 0xFF;
    cpu.f.set_byte(0x01);
    assert_eq!(cpu.step(), Ok(4));
    assert_eq!(cpu.a, 0x00);
    assert_eq!(cpu.f.byte(), 0x51);
}

#[test]
fn dec_overflows_from_0x80() {
    let mut cpu = cpu_with(&[0x3D]);
    cpu.a = 0x80;
    cpu.f.set_byte(0x00);
    assert_eq!(cpu.step(), Ok(4));
    assert_eq!(cpu.a, 0x7F);
    assert_eq!(cpu.f.byte(), 0x3E);
}

#[test]
fn sub_immediate_borrows() {
    let mut cpu = cpu_with(&[0xD6, 0x20]);
    cpu.a = 0x10;
    assert_eq!(cpu.step(), Ok(7));
    assert_eq!(cpu.a, 0xF0);
    assert_eq!(cpu.f.byte(), 0xA3);
}

#[test]
fn compare_takes_undocumented_bits_from_operand() {
    let mut cpu = cpu_with(&[0xFE, 0x28]);
    cpu.a = 0x28;
    assert_eq!(cpu.step(), Ok(7));
    assert_eq!(cpu.a, 0x28);
    // Z and N set; Y and X from the operand 0x28.
    assert_eq!(cpu.f.byte(), 0x6A);
}

#[test]
fn logical_operations_set_parity() {
    // AND 0x0F ; XOR A ; OR 0x81
    let mut cpu = cpu_with(&[0xE6, 0x0F, 0xAF, 0xF6, 0x81]);
    cpu.a = 0xF0;
    assert_eq!(cpu.step(), Ok(7));
    assert_eq!(cpu.a, 0x00);
    assert_eq!(cpu.f.byte(), 0x54);
    cpu.a = 0x5A;
    assert_eq!(cpu.step(), Ok(4));
    assert_eq!(cpu.a, 0x00);
    assert_eq!(cpu.f.byte(), 0x44);
    assert_eq!(cpu.step(), Ok(7));
    assert_eq!(cpu.a, 0x81);
    assert_eq!(cpu.f.byte(), 0x84);
}

#[test]
fn daa_corrects_bcd_addition() {
    // ADD A,0x27 ; DAA
    let mut cpu = cpu_with(&[0xC6, 0x27, 0x27]);
    cpu.a = 0x15;
    assert_eq!(cpu.step(), Ok(7));
    assert_eq!(cpu.a, 0x3C);
    assert_eq!(cpu.step(), Ok(4));
    assert_eq!(cpu.a, 0x42);
    assert_eq!(cpu.f.byte(), 0x14);
}

#[test]
fn relative_jumps() {
    // JR +2 ; (skipped) ; JR NZ,+5 with Z set
    let mut cpu = cpu_with(&[0x18, 0x02, 0x00, 0x00, 0x20, 0x05]);
    assert_eq!(cpu.step(), Ok(12));
    assert_eq!(cpu.pc, 4);
    assert_eq!(cpu.step(), Ok(7));
    assert_eq!(cpu.pc, 6);
}

#[test]
fn djnz_loops_until_b_is_zero() {
    let mut cpu = cpu_with(&[0x10, 0xFE]);
    cpu.b = 2;
    assert_eq!(cpu.step(), Ok(13));
    assert_eq!((cpu.b, cpu.pc), (1, 0));
    assert_eq!(cpu.step(), Ok(8));
    assert_eq!((cpu.b, cpu.pc), (0, 2));
}

#[test]
fn call_and_return() {
    let mut program = vec![0u8; 0x1001];
    program[0..3].copy_from_slice(&[0xCD, 0x00, 0x10]);
    program[0x1000] = 0xC9;
    let mut cpu = cpu_with(&program);
    assert_eq!(cpu.step(), Ok(17));
    assert_eq!(cpu.pc, 0x1000);
    assert_eq!(cpu.sp, 0xFEFE);
    assert_eq!(cpu.bus.memory[0xFEFE], 0x03);
    assert_eq!(cpu.bus.memory[0xFEFF], 0x00);
    assert_eq!(cpu.step(), Ok(10));
    assert_eq!(cpu.pc, 3);
    assert_eq!(cpu.sp, 0xFF00);
}

#[test]
fn push_then_pop_moves_a_pair() {
    // PUSH BC ; POP DE
    let mut cpu = cpu_with(&[0xC5, 0xD1]);
    cpu.b = 0x12;
    cpu.c = 0x34;
    assert_eq!(cpu.step(), Ok(11));
    assert_eq!(cpu.step(), Ok(10));
    assert_eq!(cpu.de(), 0x1234);
    assert_eq!(cpu.sp, 0xFF00);
}

#[test]
fn exchanges_are_involutions() {
    // EX DE,HL twice ; EXX twice
    let mut cpu = cpu_with(&[0xEB, 0xEB, 0xD9, 0xD9]);
    cpu.d = 0x11;
    cpu.e = 0x22;
    cpu.h = 0x33;
    cpu.l = 0x44;
    cpu.bc_ = 0xAAAA;
    let before = cpu.capture_state();
    assert_eq!(cpu.step(), Ok(4));
    assert_eq!((cpu.de(), cpu.hl()), (0x3344, 0x1122));
    assert_eq!(cpu.step(), Ok(4));
    assert_eq!(cpu.step(), Ok(4));
    assert_eq!(cpu.bc(), 0xAAAA);
    assert_eq!(cpu.step(), Ok(4));
    let after = cpu.capture_state();
    assert_eq!((after.b, after.c, after.d, after.e, after.h, after.l), (before.b, before.c, before.d, before.e, before.h, before.l));
    assert_eq!((after.bc_alt, after.de_alt, after.hl_alt), (before.bc_alt, before.de_alt, before.hl_alt));
}

#[test]
fn ldir_repeats_until_bc_is_zero() {
    let mut cpu = cpu_with(&[0xED, 0xB0]);
    cpu.h = 0x80;
    cpu.l = 0x00;
    cpu.d = 0x90;
    cpu.e = 0x00;
    cpu.b = 0;
    cpu.c = 2;
    cpu.bus.memory[0x8000] = 0xAA;
    cpu.bus.memory[0x8001] = 0xBB;
    assert_eq!(cpu.step(), Ok(21));
    assert_eq!(cpu.pc, 0);
    assert_eq!(cpu.bc(), 1);
    assert_eq!(cpu.step(), Ok(16));
    assert_eq!(cpu.pc, 2);
    assert_eq!(cpu.bc(), 0);
    assert_eq!(cpu.bus.memory[0x9000], 0xAA);
    assert_eq!(cpu.bus.memory[0x9001], 0xBB);
    assert_eq!((cpu.hl(), cpu.de()), (0x8002, 0x9002));
    assert_eq!(cpu.f.pv(), 0);
}

#[test]
fn port_output_and_input() {
    // OUT (0x34),A ; IN A,(0x34)
    let mut cpu = cpu_with(&[0xD3, 0x34, 0xDB, 0x34]);
    cpu.a = 0x12;
    cpu.bus.port_value = 0x5A;
    assert_eq!(cpu.step(), Ok(11));
    assert_eq!(cpu.bus.writes, vec![(0x1234, 0x12)]);
    assert_eq!(cpu.step(), Ok(11));
    assert_eq!(cpu.bus.reads, vec![0x1234]);
    assert_eq!(cpu.a, 0x5A);
}

#[test]
fn in_register_from_c_sets_flags() {
    // IN B,(C)
    let mut cpu = cpu_with(&[0xED, 0x40]);
    cpu.b = 0x12;
    cpu.c = 0x34;
    cpu.f.set_byte(0x01);
    cpu.bus.port_value = 0x00;
    assert_eq!(cpu.step(), Ok(12));
    assert_eq!(cpu.bus.reads, vec![0x1234]);
    assert_eq!(cpu.b, 0x00);
    assert_eq!(cpu.f.byte(), 0x45);
}

#[test]
fn halt_idles_until_an_interrupt() {
    let mut cpu = cpu_with(&[0x76]);
    assert_eq!(cpu.step(), Ok(4));
    let halted = cpu.capture_state();
    assert!(halted.halted);
    assert_eq!(halted.pc, 1);
    assert_eq!(cpu.step(), Ok(4));
    assert_eq!(cpu.pc, 1);
    assert_eq!(cpu.r, 2);
    cpu.request_non_maskable_interrupt();
    assert_eq!(cpu.step(), Ok(11));
    assert_eq!(cpu.pc, 0x66);
    assert!(!cpu.capture_state().halted);
}

#[test]
fn ei_delays_acceptance_by_one_instruction() {
    // EI ; NOP ; NOP
    let mut cpu = cpu_with(&[0xFB, 0x00, 0x00]);
    cpu.im = 1;
    cpu.request_maskable_interrupt(0xFF);
    assert_eq!(cpu.step(), Ok(4));
    assert!(cpu.iff1 && cpu.iff2);
    assert_eq!(cpu.pc, 1);
    // The instruction after EI runs before the interrupt is taken.
    assert_eq!(cpu.step(), Ok(4));
    assert_eq!(cpu.pc, 2);
    assert!(cpu.maskable_interrupt_pending());
    assert_eq!(cpu.step(), Ok(13));
    assert_eq!(cpu.pc, 0x38);
    assert_eq!(cpu.sp, 0xFEFE);
    assert_eq!(cpu.bus.memory[0xFEFE], 0x02);
    assert!(!cpu.iff1 && !cpu.iff2);
    assert!(!cpu.maskable_interrupt_pending());
}

#[test]
fn maskable_interrupt_needs_iff1() {
    let mut cpu = cpu_with(&[0x00, 0x00]);
    cpu.im = 1;
    cpu.request_maskable_interrupt(0xFF);
    assert_eq!(cpu.step(), Ok(4));
    assert_eq!(cpu.pc, 1);
    assert!(cpu.maskable_interrupt_pending());
    cpu.clear_maskable_interrupt();
    assert!(!cpu.maskable_interrupt_pending());
}

#[test]
fn mode_two_jumps_through_the_vector_table() {
    let mut cpu = cpu_with(&[0x00]);
    cpu.im = 2;
    cpu.i = 0x80;
    cpu.iff1 = true;
    cpu.iff2 = true;
    cpu.pc = 0x1234;
    cpu.bus.memory[0x8010] = 0x00;
    cpu.bus.memory[0x8011] = 0x90;
    cpu.request_maskable_interrupt(0x10);
    assert_eq!(cpu.step(), Ok(19));
    assert_eq!(cpu.pc, 0x9000);
    assert_eq!(cpu.wz, 0x9000);
    assert_eq!(cpu.bus.memory[0xFEFE], 0x34);
    assert_eq!(cpu.bus.memory[0xFEFF], 0x12);
}

#[test]
fn mode_zero_executes_a_restart_vector() {
    let mut cpu = cpu_with(&[0x00]);
    cpu.im = 0;
    cpu.iff1 = true;
    cpu.request_maskable_interrupt(0xD7);
    assert_eq!(cpu.step(), Ok(13));
    assert_eq!(cpu.pc, 0x10);
}

#[test]
fn mode_zero_refuses_other_vectors() {
    let mut cpu = cpu_with(&[0x00]);
    cpu.im = 0;
    cpu.iff1 = true;
    cpu.pc = 0x4000;
    cpu.request_maskable_interrupt(0x00);
    let before = cpu.capture_state();
    assert_eq!(cpu.step(), Err(Fault::UnsupportedInterruptVector { vector: 0x00, pc: 0x4000 }));
    assert_eq!(cpu.capture_state(), before);
}

#[test]
fn nmi_keeps_the_previous_enable_in_iff2() {
    let mut cpu = cpu_with(&[0x00]);
    cpu.iff1 = true;
    cpu.iff2 = true;
    cpu.pc = 0x1234;
    cpu.request_non_maskable_interrupt();
    assert!(cpu.non_maskable_interrupt_pending());
    assert_eq!(cpu.step(), Ok(11));
    assert_eq!(cpu.pc, 0x66);
    assert!(!cpu.iff1);
    assert!(cpu.iff2);
    assert!(!cpu.non_maskable_interrupt_pending());
    assert_eq!(cpu.bus.memory[0xFEFE], 0x34);
    assert_eq!(cpu.bus.memory[0xFEFF], 0x12);
}

#[test]
fn cleared_nmi_is_not_serviced() {
    let mut cpu = cpu_with(&[0x00]);
    cpu.request_non_maskable_interrupt();
    cpu.clear_non_maskable_interrupt();
    assert_eq!(cpu.step(), Ok(4));
    assert_eq!(cpu.pc, 1);
}

#[test]
fn reset_comes_first_and_clears_the_control_state() {
    let mut cpu = cpu_with(&[0x00]);
    cpu.pc = 0x1234;
    cpu.i = 0x12;
    cpu.r = 0x34;
    cpu.im = 2;
    cpu.iff1 = true;
    cpu.iff2 = true;
    cpu.a = 0x77;
    cpu.request_reset();
    cpu.request_non_maskable_interrupt();
    assert!(cpu.reset_pending());
    assert_eq!(cpu.step(), Ok(3));
    let s = cpu.capture_state();
    assert_eq!((s.pc, s.i, s.r, s.im), (0, 0, 0, 0));
    assert!(!s.iff1 && !s.iff2 && !s.reset_pending);
    assert_eq!(s.a, 0x77);
    assert!(s.non_maskable_interrupt_pending);
}

#[test]
fn clear_reset_withdraws_the_request() {
    let mut cpu = cpu_with(&[0x00]);
    cpu.request_reset();
    cpu.clear_reset();
    assert!(!cpu.reset_pending());
    assert_eq!(cpu.step(), Ok(4));
}

#[test]
fn index_register_loads_and_displacement_stores() {
    // LD IX,0x8000 ; LD (IX+5),0x77 ; LD A,(IX+5)
    let mut cpu = cpu_with(&[0xDD, 0x21, 0x00, 0x80, 0xDD, 0x36, 0x05, 0x77, 0xDD, 0x7E, 0x05]);
    assert_eq!(cpu.step(), Ok(14));
    assert_eq!(cpu.ix, 0x8000);
    assert_eq!(cpu.step(), Ok(19));
    assert_eq!(cpu.bus.memory[0x8005], 0x77);
    assert_eq!(cpu.step(), Ok(19));
    assert_eq!(cpu.a, 0x77);
    assert_eq!(cpu.wz, 0x8005);
    assert_eq!(cpu.last_instruction_bytes(), &[0xDD, 0x7E, 0x05][..]);
}

#[test]
fn stray_prefix_costs_four_t_states_and_a_refresh() {
    // DD DD 21 34 12: the second DD decides, LD IX,0x1234.
    let mut cpu = cpu_with(&[0xDD, 0xDD, 0x21, 0x34, 0x12]);
    assert_eq!(cpu.step(), Ok(18));
    assert_eq!(cpu.ix, 0x1234);
    assert_eq!(cpu.r, 3);
    assert_eq!(cpu.pc, 5);
    assert_eq!(cpu.last_instruction_bytes(), &[0xDD, 0xDD, 0x21, 0x34, 0x12][..]);
}

#[test]
fn last_prefix_of_a_run_decides_the_index_register() {
    let mut cpu = cpu_with(&[0xDD, 0xFD, 0xDD, 0xFD, 0x21, 0xCD, 0xAB]);
    assert_eq!(cpu.step(), Ok(26));
    assert_eq!(cpu.iy, 0xABCD);
    assert_eq!(cpu.ix, 0);
    assert_eq!(cpu.r, 5);
}

#[test]
fn ed_after_a_prefix_runs_unchanged() {
    // FD ED 44: NEG, four T-states late.
    let mut cpu = cpu_with(&[0xFD, 0xED, 0x44]);
    cpu.a = 0x01;
    assert_eq!(cpu.step(), Ok(12));
    assert_eq!(cpu.a, 0xFF);
    assert_eq!(cpu.r, 3);
    assert_eq!(cpu.pc, 3);
}

#[test]
fn prefix_run_is_a_single_boundary() {
    // DD DD 00: two prefixes and a NOP in one step; the interrupt waits.
    let mut cpu = cpu_with(&[0xDD, 0xDD, 0x00]);
    cpu.im = 1;
    cpu.request_maskable_interrupt(0xFF);
    assert_eq!(cpu.step(), Ok(12));
    assert_eq!(cpu.pc, 3);
    cpu.iff1 = true;
    assert_eq!(cpu.step(), Ok(13));
    assert_eq!(cpu.pc, 0x38);
}

#[test]
fn memory_of_prefixes_only_faults() {
    let mut cpu = Z80::new(Ram { memory: vec![0xDD; 0x10000], port_value: 0xFF, reads: vec![], writes: vec![] });
    assert_eq!(
        cpu.step(),
        Err(Fault::UnhandledIndexOpcode { prefix: 0xDD, opcode: 0xDD, pc: 0xFFFF })
    );
}

#[test]
fn rotate_and_bit_test() {
    // RLC B ; BIT 7,A
    let mut cpu = cpu_with(&[0xCB, 0x00, 0xCB, 0x7F]);
    cpu.b = 0x81;
    cpu.a = 0x80;
    cpu.f.set_byte(0x00);
    assert_eq!(cpu.step(), Ok(8));
    assert_eq!(cpu.b, 0x03);
    assert_eq!(cpu.f.byte(), 0x05);
    assert_eq!(cpu.step(), Ok(8));
    assert_eq!(cpu.f.byte(), 0x91);
}

#[test]
fn sixteen_bit_arithmetic() {
    // ADD HL,BC ; SBC HL,DE
    let mut cpu = cpu_with(&[0x09, 0xED, 0x52]);
    cpu.h = 0x0F;
    cpu.l = 0xFF;
    cpu.c = 0x01;
    cpu.e = 0x01;
    cpu.f.set_byte(0x00);
    assert_eq!(cpu.step(), Ok(11));
    assert_eq!(cpu.hl(), 0x1000);
    assert_eq!(cpu.f.byte(), 0x10);
    assert_eq!(cpu.wz, 0x1000);
    assert_eq!(cpu.step(), Ok(15));
    assert_eq!(cpu.hl(), 0x0FFF);
    assert_eq!(cpu.f.byte(), 0x1A);
}

#[test]
fn ld_a_i_copies_iff2_to_parity() {
    let mut cpu = cpu_with(&[0xED, 0x57]);
    cpu.i = 0x80;
    cpu.iff2 = true;
    cpu.f.set_byte(0x01);
    assert_eq!(cpu.step(), Ok(9));
    assert_eq!(cpu.a, 0x80);
    assert_eq!(cpu.f.byte(), 0x85);
}

#[test]
fn scf_after_a_non_flag_instruction_mixes_f_into_x_and_y() {
    // NOP ; SCF
    let mut cpu = cpu_with(&[0x00, 0x37]);
    cpu.a = 0x00;
    cpu.f.set_byte(0x28);
    assert_eq!(cpu.step(), Ok(4));
    assert_eq!(cpu.q, 0);
    assert_eq!(cpu.step(), Ok(4));
    assert_eq!(cpu.f.byte(), 0x29);
    assert_eq!(cpu.q, 0x29);
}

#[test]
fn scf_after_a_flag_instruction_takes_x_and_y_from_a() {
    // SCF ; SCF
    let mut cpu = cpu_with(&[0x37, 0x37]);
    cpu.a = 0x00;
    cpu.f.set_byte(0x28);
    assert_eq!(cpu.step(), Ok(4));
    assert_eq!(cpu.f.byte(), 0x29);
    assert_eq!(cpu.step(), Ok(4));
    assert_eq!(cpu.f.byte(), 0x01);
}

#[test]
fn power_on_state() {
    let cpu = cpu_with(&[]);
    let s = cpu.capture_state();
    assert_eq!((s.a, s.f, s.pc, s.i, s.r, s.im), (0xFF, 0xFF, 0, 0, 0, 0));
    assert!(!s.iff1 && !s.iff2 && !s.halted);
    assert_eq!(s.maskable_interrupt_vector, None);
}

#[test]
fn decode_and_execute_ignores_pending_requests() {
    let mut cpu = cpu_with(&[0x3E, 0x2A]);
    cpu.request_non_maskable_interrupt();
    assert_eq!(cpu.decode_and_execute(), Ok(7));
    assert_eq!(cpu.a, 0x2A);
    assert!(cpu.non_maskable_interrupt_pending());
    assert_eq!(cpu.last_instruction_bytes(), &[0x3E, 0x2A][..]);
}

#[test]
fn second_ei_spends_the_first_delay() {
    // EI ; EI ; NOP: after the second EI the interrupt is taken at once.
    let mut cpu = cpu_with(&[0xFB, 0xFB, 0x00]);
    cpu.im = 1;
    cpu.request_maskable_interrupt(0xFF);
    assert_eq!(cpu.step(), Ok(4));
    assert_eq!(cpu.step(), Ok(4));
    assert_eq!(cpu.ei_delay, 0);
    assert_eq!(cpu.step(), Ok(13));
    assert_eq!(cpu.pc, 0x38);
}

fn time_of(program: &[u8]) -> u32 {
    let mut cpu = cpu_with(program);
    cpu.c = 1;
    cpu.step().unwrap()
}

#[test]
fn timings_match_the_documented_table() {
    let table: &[(&[u8], u32)] = &[
        (&[0x00], 4),
        (&[0x01, 0x00, 0x00], 10),
        (&[0x02], 7),
        (&[0x03], 6),
        (&[0x04], 4),
        (&[0x06, 0x00], 7),
        (&[0x07], 4),
        (&[0x08], 4),
        (&[0x09], 11),
        (&[0x0A], 7),
        (&[0x10, 0x00], 13),
        (&[0x18, 0x00], 12),
        (&[0x20, 0x00], 7),
        (&[0x28, 0x00], 12),
        (&[0x22, 0x00, 0x80], 16),
        (&[0x2A, 0x00, 0x80], 16),
        (&[0x32, 0x00, 0x80], 13),
        (&[0x34], 11),
        (&[0x36, 0x00], 10),
        (&[0x46], 7),
        (&[0x70], 7),
        (&[0x86], 7),
        (&[0xC0], 5),
        (&[0xC8], 11),
        (&[0xC2, 0x00, 0x00], 10),
        (&[0xC3, 0x00, 0x00], 10),
        (&[0xC4, 0x00, 0x00], 10),
        (&[0xCC, 0x00, 0x00], 17),
        (&[0xC5], 11),
        (&[0xC1], 10),
        (&[0xC7], 11),
        (&[0xD3, 0x00], 11),
        (&[0xDB, 0x00], 11),
        (&[0xE3], 19),
        (&[0xE9], 4),
        (&[0xF9], 6),
        (&[0xCB, 0x00], 8),
        (&[0xCB, 0x06], 15),
        (&[0xCB, 0x46], 12),
        (&[0xCB, 0x86], 15),
        (&[0xED, 0x40], 12),
        (&[0xED, 0x41], 12),
        (&[0xED, 0x42], 15),
        (&[0xED, 0x43, 0x00, 0x80], 20),
        (&[0xED, 0x44], 8),
        (&[0xED, 0x45], 14),
        (&[0xED, 0x46], 8),
        (&[0xED, 0x47], 9),
        (&[0xED, 0x57], 9),
        (&[0xED, 0x67], 18),
        (&[0xED, 0x6F], 18),
        (&[0xED, 0xA0], 16),
        (&[0xED, 0xA1], 16),
        (&[0xED, 0xA2], 16),
        (&[0xED, 0xA3], 16),
        (&[0xED, 0xB0], 16),
        (&[0xED, 0xB1], 16),
        (&[0xDD, 0x21, 0x00, 0x00], 14),
        (&[0xDD, 0x22, 0x00, 0x80], 20),
        (&[0xDD, 0x23], 10),
        (&[0xDD, 0x34, 0x00], 23),
        (&[0xDD, 0x36, 0x00, 0x00], 19),
        (&[0xDD, 0x46, 0x00], 19),
        (&[0xDD, 0x70, 0x00], 19),
        (&[0xDD, 0x86, 0x00], 19),
        (&[0xDD, 0xE1], 14),
        (&[0xDD, 0xE5], 15),
        (&[0xDD, 0xE3], 23),
        (&[0xDD, 0xE9], 8),
        (&[0xDD, 0xF9], 10),
        (&[0xDD, 0x09], 15),
        (&[0xDD, 0x24], 8),
        (&[0xDD, 0x26, 0x00], 11),
        (&[0xDD, 0x44], 8),
        (&[0xDD, 0x84], 8),
        (&[0xDD, 0xCB, 0x00, 0x06], 23),
        (&[0xDD, 0xCB, 0x00, 0x46], 20),
        (&[0xDD, 0xCB, 0x00, 0x86], 23),
        (&[0xFD, 0x00], 8),
    ];
    for (program, t) in table {
        assert_eq!(time_of(program), *t, "{program:02X?}");
    }
}

#[test]
fn block_compare_and_load_flags() {
    // CPI with a match and BC running out.
    let mut cpu = cpu_with(&[0xED, 0xA1]);
    cpu.a = 0x10;
    cpu.h = 0x80;
    cpu.c = 1;
    cpu.f.set_byte(0x01);
    cpu.bus.memory[0x8000] = 0x10;
    assert_eq!(cpu.step(), Ok(16));
    assert_eq!(cpu.f.byte(), 0x43);
    assert_eq!(cpu.hl(), 0x8001);
    assert_eq!(cpu.wz, 1);
    // LDI: X and Y from bits 3 and 1 of A plus the byte moved.
    let mut cpu = cpu_with(&[0xED, 0xA0]);
    cpu.a = 0x00;
    cpu.h = 0x80;
    cpu.d = 0x90;
    cpu.c = 1;
    cpu.f.set_byte(0x00);
    cpu.bus.memory[0x8000] = 0x0A;
    assert_eq!(cpu.step(), Ok(16));
    assert_eq!(cpu.bus.memory[0x9000], 0x0A);
    assert_eq!(cpu.f.byte(), 0x28);
}

#[test]
fn bit_on_memory_takes_x_and_y_from_memptr() {
    let mut cpu = cpu_with(&[0xCB, 0x46]);
    cpu.h = 0x80;
    cpu.wz = 0x2800;
    cpu.f.set_byte(0x00);
    cpu.bus.memory[0x8000] = 0x01;
    assert_eq!(cpu.step(), Ok(12));
    assert_eq!(cpu.f.byte(), 0x38);
}

#[test]
fn rld_rotates_nibbles_through_a() {
    let mut cpu = cpu_with(&[0xED, 0x6F]);
    cpu.a = 0x12;
    cpu.h = 0x80;
    cpu.f.set_byte(0x01);
    cpu.bus.memory[0x8000] = 0x34;
    assert_eq!(cpu.step(), Ok(18));
    assert_eq!(cpu.a, 0x13);
    assert_eq!(cpu.bus.memory[0x8000], 0x42);
    assert_eq!(cpu.f.byte(), 0x01);
    assert_eq!(cpu.wz, 0x8001);
}

#[test]
fn neg_of_0x80_overflows() {
    let mut cpu = cpu_with(&[0xED, 0x44]);
    cpu.a = 0x80;
    assert_eq!(cpu.step(), Ok(8));
    assert_eq!(cpu.a, 0x80);
    assert_eq!(cpu.f.byte(), 0x87);
}

#[test]
fn out_c_zero_writes_zero() {
    let mut cpu = cpu_with(&[0xED, 0x71]);
    cpu.b = 0x12;
    cpu.c = 0x34;
    assert_eq!(cpu.step(), Ok(12));
    assert_eq!(cpu.bus.writes, vec![(0x1234, 0x00)]);
}

#[test]
fn ccf_moves_carry_into_half_carry() {
    let mut cpu = cpu_with(&[0x00, 0x3F]);
    cpu.a = 0x00;
    cpu.f.set_byte(0x01);
    assert_eq!(cpu.step(), Ok(4));
    assert_eq!(cpu.step(), Ok(4));
    assert_eq!(cpu.f.byte(), 0x10);
}

#[test]
fn rrca_rotates_into_carry() {
    let mut cpu = cpu_with(&[0x0F]);
    cpu.a = 0x01;
    cpu.f.set_byte(0x00);
    assert_eq!(cpu.step(), Ok(4));
    assert_eq!(cpu.a, 0x80);
    assert_eq!(cpu.f.byte(), 0x01);
}

#[test]
fn ld_a_r_reads_the_refresh_counter() {
    let mut cpu = cpu_with(&[0xED, 0x5F]);
    cpu.iff2 = false;
    cpu.f.set_byte(0x00);
    assert_eq!(cpu.step(), Ok(9));
    assert_eq!(cpu.a, 0x02);
    assert_eq!(cpu.f.byte(), 0x00);
}

struct Flat([u8; 0x10000]);

impl Bus for Flat {
    fn read_byte(&mut self, addr: u16) -> u8 {
        self.0[usize::from(addr)]
    }
    fn write_byte(&mut self, addr: u16, value: u8) {
        self.0[usize::from(addr)] = value;
    }
    fn read_port(&mut self, _addr: u16) -> u8 {
        0xFF
    }
    fn write_port(&mut self, _addr: u16, _value: u8) {}
}

#[test]
fn load_immediate_on_a_flat_bus() {
    let mut cpu = Z80::new(Flat([0; 0x10000]));
    cpu.bus.0[..2].copy_from_slice(&[0x3E, 0x2A]);
    let t_states = cpu.step().unwrap();
    assert_eq!((t_states, cpu.a), (7, 0x2A));
}

#[test]
fn prefix_before_an_instruction_without_hl_is_ignored() {
    // DD 3E 2A: LD A,0x2A four T-states late; IX untouched.
    let mut cpu = cpu_with(&[0xDD, 0x3E, 0x2A]);
    cpu.ix = 0x1234;
    assert_eq!(cpu.step(), Ok(11));
    assert_eq!(cpu.a, 0x2A);
    assert_eq!(cpu.ix, 0x1234);
    assert_eq!(cpu.r, 2);
}
