use z80_rust::vectors::{
    run_case, setup_cpu, verdict, Direction, FileResult, FileStatus, PortEvent, Register,
    VectorCase, VectorDiff, VectorState, Verdict,
};
use z80_rust::{Bus, Fault};

fn state(pc: u16, r: u8, ram: Vec<(u16, u8)>) -> VectorState {
    VectorState {
        a: 0,
        b: 0,
        c: 0,
        d: 0,
        e: 0,
        f: 0,
        h: 0,
        l: 0,
        i: 0,
        r,
        ix: 0,
        iy: 0,
        sp: 0,
        pc,
        wz: 0,
        af_: 0,
        bc_: 0,
        de_: 0,
        hl_: 0,
        im: 0,
        iff1: 0,
        iff2: 0,
        q: 0,
        ram,
    }
}

fn nop_case() -> VectorCase {
    VectorCase {
        initial: state(0x100, 0x7F, vec![(0x100, 0x00)]),
        expected: state(0x101, 0x00, vec![(0x100, 0x00)]),
        cycles: 4,
        ports: vec![],
    }
}

fn in_case(script: Vec<PortEvent>) -> VectorCase {
    let mut initial = state(0, 0, vec![(0, 0xDB), (1, 0x34)]);
    initial.a = 0x12;
    let mut expected = state(2, 1, vec![(0, 0xDB), (1, 0x34)]);
    expected.a = 0x5A;
    expected.wz = 0x1235;
    VectorCase { initial, expected, cycles: 11, ports: script }
}

#[test]
fn setup_loads_registers_and_ram() {
    let case = nop_case();
    let cpu = setup_cpu(&case.initial, &case.ports);
    assert_eq!(cpu.pc, 0x100);
    assert_eq!(cpu.r, 0x7F);
    assert_eq!(cpu.bus.peek(0x100), 0x00);
    assert!(cpu.bus.accesses().is_empty());
}

#[test]
fn nop_case_passes() {
    // R wraps within its low seven bits.
    let diffs = run_case(&nop_case());
    assert_eq!(diffs, vec![]);
    assert_eq!(verdict(&diffs), Verdict::Passed);
}

#[test]
fn register_ram_and_timing_differences() {
    let mut case = nop_case();
    case.expected.a = 0x01;
    case.expected.iff1 = 1;
    case.expected.ram = vec![(0x100, 0x00), (0x200, 0x55)];
    case.cycles = 5;
    let diffs = run_case(&case);
    assert_eq!(
        diffs,
        vec![
            VectorDiff::Register { register: Register::A, got: 0x00, want: 0x01 },
            VectorDiff::Register { register: Register::Iff1, got: 0, want: 1 },
            VectorDiff::Ram { address: 0x200, got: 0x00, want: 0x55 },
            VectorDiff::TStates { want: 5, got: 4 },
        ]
    );
    assert_eq!(verdict(&diffs), Verdict::Failed);
}

#[test]
fn no_cycles_listed_means_no_timing_check() {
    let mut case = nop_case();
    case.cycles = 0;
    assert_eq!(run_case(&case), vec![]);
}

#[test]
fn scripted_port_read_is_answered() {
    let case = in_case(vec![PortEvent { port: 0x1234, value: 0x5A, direction: Direction::Read }]);
    assert_eq!(run_case(&case), vec![]);
}

#[test]
fn port_read_at_another_address_is_reported() {
    let case = in_case(vec![PortEvent { port: 0x1235, value: 0x5A, direction: Direction::Read }]);
    assert_eq!(run_case(&case), vec![VectorDiff::PortReadMismatch { want: 0x1235, got: 0x1234 }]);
}

#[test]
fn unscripted_port_read_answers_ff_and_is_reported() {
    let case = in_case(vec![]);
    assert_eq!(
        run_case(&case),
        vec![
            VectorDiff::Register { register: Register::A, got: 0xFF, want: 0x5A },
            VectorDiff::UnexpectedPortRead { port: 0x1234 },
        ]
    );
}

#[test]
fn unused_scripted_read_is_reported() {
    let mut case = nop_case();
    case.ports = vec![
        PortEvent { port: 0x00FE, value: 0xBF, direction: Direction::Read },
        PortEvent { port: 0x0001, value: 0x00, direction: Direction::Other },
    ];
    assert_eq!(run_case(&case), vec![VectorDiff::MissingPortRead { port: 0x00FE }]);
}

#[test]
fn port_writes_are_compared_in_order() {
    // OUT (0x34),A with A = 0x12
    let mut initial = state(0, 0, vec![(0, 0xD3), (1, 0x34)]);
    initial.a = 0x12;
    let mut expected = state(2, 1, vec![]);
    expected.a = 0x12;
    expected.wz = 0x1235;
    let good = VectorCase {
        initial: initial.clone(),
        expected: expected.clone(),
        cycles: 11,
        ports: vec![PortEvent { port: 0x1234, value: 0x12, direction: Direction::Write }],
    };
    assert_eq!(run_case(&good), vec![]);
    let bad = VectorCase {
        initial,
        expected,
        cycles: 11,
        ports: vec![PortEvent { port: 0x1234, value: 0x13, direction: Direction::Write }],
    };
    assert_eq!(
        run_case(&bad),
        vec![VectorDiff::PortWrites { want: vec![(0x1234, 0x13)], got: vec![(0x1234, 0x12)] }]
    );
}

#[test]
fn endless_prefix_run_is_not_implemented() {
    let ram: Vec<(u16, u8)> = (0..=0xFFFFu16).map(|a| (a, 0xDD)).collect();
    let case = VectorCase {
        initial: state(0, 0, ram),
        expected: state(0, 0, vec![]),
        cycles: 4,
        ports: vec![],
    };
    let diffs = run_case(&case);
    assert_eq!(
        diffs,
        vec![VectorDiff::NotImplemented(Fault::UnhandledIndexOpcode { prefix: 0xDD, opcode: 0xDD, pc: 0xFFFF })]
    );
    assert_eq!(verdict(&diffs), Verdict::NotImplemented);
}

#[test]
fn file_results_are_counted() {
    let mut result = FileResult::new();
    result.record(Verdict::Passed);
    result.record(Verdict::Passed);
    assert_eq!(result.status(), FileStatus::Passed);
    result.record(Verdict::NotImplemented);
    assert_eq!(result.status(), FileStatus::Skipped);
    result.record(Verdict::Failed);
    assert_eq!(result.status(), FileStatus::Failed);
    assert_eq!(result, FileResult { passed: 2, failed: 1, not_implemented: 1 });
}

#[test]
fn port_reads_answer_the_queue_in_order() {
    let ports = vec![
        PortEvent { port: 0x0001, value: 0x11, direction: Direction::Read },
        PortEvent { port: 0x0002, value: 0x22, direction: Direction::Write },
        PortEvent { port: 0x0003, value: 0x33, direction: Direction::Read },
    ];
    let mut cpu = setup_cpu(&state(0, 0, vec![]), &ports);
    assert_eq!(cpu.bus.read_port(0x0001), 0x11);
    assert_eq!(cpu.bus.read_port(0x00FF), 0x33);
    assert_eq!(cpu.bus.read_port(0x0001), 0xFF);
    assert_eq!(cpu.bus.accesses().len(), 3);
}

#[test]
fn second_in_of_a_case_reads_the_second_input() {
    // IN A,(0x34) reading from the queue's only input after an unused write entry.
    let case = in_case(vec![
        PortEvent { port: 0x9999, value: 0x00, direction: Direction::Other },
        PortEvent { port: 0x1234, value: 0x5A, direction: Direction::Read },
    ]);
    assert_eq!(run_case(&case), vec![]);
}
