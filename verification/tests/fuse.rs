use z80_rust::fuse::{parse_registers, parse_tests_expected, parse_tests_in, FuseError, Machine};
use z80_rust::fuse_run::{
    classify, compare, divergence_reason, known_divergence, run_case, run_until, setup_fuse_cpu,
    CaseOutcome, Difference, Field, SuiteTally, EXPECTED_CASES, KNOWN_DIVERGENCE_COUNT,
};

const NOP_IN: &str = "00\n0000 0000 0000 0000 0000 0000 0000 0000 0000 0000 0000 0000 0000\n00 00 0 0 0 0     1\n0000 00 -1\n-1\n\n";
const NOP_EXPECTED: &str = "00\n    0 MC 0000\n    4 MR 0000 00\n0000 0000 0000 0000 0000 0000 0000 0000 0000 0000 0000 0001 0000\n00 01 0 0 0 0     4\n\n";
const LD_BC_IN: &str = "01\n0000 0000 0000 0000 0000 0000 0000 0000 0000 0000 0000 0000 0000\n00 00 0 0 0 0     10\n0000 01 12 e9 -1\n-1\n";
const LD_BC_EXPECTED: &str = "01\n    0 MC 0000\n0000 e912 0000 0000 0000 0000 0000 0000 0000 0000 0000 0003 0000\n00 01 0 0 0 0     10\n";

#[test]
fn parses_a_case() {
    let cases = parse_tests_in(NOP_IN.as_bytes()).unwrap();
    assert_eq!(cases.len(), 1);
    assert_eq!(cases[0].name, b"00".to_vec());
    let before = &cases[0].before;
    assert_eq!(before.registers, [0u16; 13]);
    assert_eq!((before.i, before.r, before.im), (0, 0, 0));
    assert!(!before.iff1 && !before.iff2 && !before.halted);
    assert_eq!(before.t_states, 1);
    assert_eq!(before.memory, vec![(0x0000, 0x00)]);
}

#[test]
fn parses_memory_bytes_at_consecutive_addresses() {
    let cases = parse_tests_in(LD_BC_IN.as_bytes()).unwrap();
    assert_eq!(cases[0].before.memory, vec![(0x0000, 0x01), (0x0001, 0x12), (0x0002, 0xE9)]);
    assert_eq!(cases[0].before.t_states, 10);
}

#[test]
fn parses_two_cases_separated_by_blank_lines() {
    let text = format!("{}{}", NOP_IN, LD_BC_IN);
    let cases = parse_tests_in(text.as_bytes()).unwrap();
    let names: Vec<Vec<u8>> = cases.iter().map(|c| c.name.clone()).collect();
    assert_eq!(names, vec![b"00".to_vec(), b"01".to_vec()]);
}

#[test]
fn parses_an_expected_result_skipping_bus_events() {
    let expected = parse_tests_expected(NOP_EXPECTED.as_bytes()).unwrap();
    assert_eq!(expected.len(), 1);
    assert_eq!(expected[0].0, b"00".to_vec());
    let m = &expected[0].1;
    assert_eq!(m.registers[11], 0x0001);
    assert_eq!(m.r, 1);
    assert_eq!(m.t_states, 4);
    assert!(m.memory.is_empty());
}

#[test]
fn register_line_needs_thirteen_words() {
    assert_eq!(
        parse_registers(b"0000 0000"),
        Err(FuseError::RegisterCount(b"0000 0000".to_vec()))
    );
    assert_eq!(
        parse_registers(b"0000 0000 0000 0000 0000 0000 0000 0000 0000 0000 0000 0000 zz00"),
        Err(FuseError::BadHexWord(b"zz00".to_vec()))
    );
    let words = parse_registers(b"0001 0002 0003 0004 0005 0006 0007 0008 0009 000a 000b 000c ffff").unwrap();
    assert_eq!(words, [1, 2, 3, 4, 5, 6, 7, 8, 9, 10, 11, 12, 0xFFFF]);
}

#[test]
fn state_line_errors() {
    let bad_count = "00\n0000 0000 0000 0000 0000 0000 0000 0000 0000 0000 0000 0000 0000\n00 00 0 0 0\n-1\n";
    assert_eq!(
        parse_tests_in(bad_count.as_bytes()),
        Err(FuseError::FieldCount(b"00 00 0 0 0".to_vec()))
    );
    let bad_number = "00\n0000 0000 0000 0000 0000 0000 0000 0000 0000 0000 0000 0000 0000\n00 00 0 0 0 0 x1\n-1\n";
    assert_eq!(parse_tests_in(bad_number.as_bytes()), Err(FuseError::BadNumber(b"x1".to_vec())));
}

#[test]
fn truncated_case_is_an_error() {
    assert_eq!(parse_tests_in(b"00\n"), Err(FuseError::Truncated));
    assert_eq!(
        parse_tests_in(b"00\n0000 0000 0000 0000 0000 0000 0000 0000 0000 0000 0000 0000 0000\n"),
        Err(FuseError::Truncated)
    );
}

#[test]
fn nop_case_agrees() {
    let cases = parse_tests_in(NOP_IN.as_bytes()).unwrap();
    let expected = parse_tests_expected(NOP_EXPECTED.as_bytes()).unwrap();
    let diffs = run_case(&cases[0], &expected[0].1).unwrap();
    assert_eq!(diffs, vec![]);
}

#[test]
fn load_pair_case_agrees() {
    let cases = parse_tests_in(LD_BC_IN.as_bytes()).unwrap();
    let expected = parse_tests_expected(LD_BC_EXPECTED.as_bytes()).unwrap();
    assert_eq!(run_case(&cases[0], &expected[0].1).unwrap(), vec![]);
}

#[test]
fn differences_are_reported_in_order() {
    let cases = parse_tests_in(NOP_IN.as_bytes()).unwrap();
    let mut expected: Machine = parse_tests_expected(NOP_EXPECTED.as_bytes()).unwrap()[0].1.clone();
    expected.registers[0] = 0x1234;
    expected.r = 2;
    expected.t_states = 8;
    expected.memory = vec![(0x0001, 0x00)];
    let diffs = run_case(&cases[0], &expected).unwrap();
    assert_eq!(
        diffs,
        vec![
            Difference::Register { index: 0, got: 0x0000, want: 0x1234 },
            Difference::Scalar { field: Field::R, got: 1, want: 2 },
            Difference::Scalar { field: Field::TStates, got: 4, want: 8 },
            // Unlisted RAM keeps coretest.c's DE AD BE EF pattern.
            Difference::Memory { address: 0x0001, got: 0xAD, want: 0x00 },
        ]
    );
}

#[test]
fn run_until_stops_on_the_first_boundary_past_the_target() {
    let cases = parse_tests_in(NOP_IN.as_bytes()).unwrap();
    let mut cpu = setup_fuse_cpu(&cases[0]);
    // NOP at 0, then the pattern byte 0xAD (XOR L) at 1.
    assert_eq!(run_until(&mut cpu, 5), Ok(8));
    let expected = parse_tests_expected(NOP_EXPECTED.as_bytes()).unwrap();
    let diffs = compare(&cpu, 8, &expected[0].1);
    assert!(diffs.contains(&Difference::Register { index: 11, got: 2, want: 1 }));
}

#[test]
fn zero_target_runs_nothing() {
    let cases = parse_tests_in(NOP_IN.as_bytes()).unwrap();
    let mut cpu = setup_fuse_cpu(&cases[0]);
    assert_eq!(run_until(&mut cpu, 0), Ok(0));
    assert_eq!(cpu.pc, 0);
}

#[test]
fn known_divergences_are_found_by_name() {
    assert_eq!(KNOWN_DIVERGENCE_COUNT, 6);
    assert_eq!(EXPECTED_CASES, 1356);
    assert_eq!(known_divergence(b"76"), Some(0));
    assert_eq!(known_divergence(b"edb2_1"), Some(1));
    assert_eq!(known_divergence(b"edbb_1"), Some(5));
    assert_eq!(known_divergence(b"edb2"), None);
    assert_eq!(known_divergence(b"00"), None);
    assert_eq!(
        divergence_reason(3),
        "interrupted CPDR: FUSE 1.6.0 does not take X/Y from the rewound PC"
    );
}

#[test]
fn outcomes_and_tally() {
    assert_eq!(classify(true, false), CaseOutcome::Agreed);
    assert_eq!(classify(false, true), CaseOutcome::ExpectedDivergence);
    assert_eq!(classify(true, true), CaseOutcome::UnexpectedAgreement);
    assert_eq!(classify(false, false), CaseOutcome::Divergence);
    let mut tally = SuiteTally::new();
    for _ in 0..6 {
        tally.record(CaseOutcome::ExpectedDivergence);
    }
    tally.record(CaseOutcome::Agreed);
    assert!(tally.passed());
    tally.record(CaseOutcome::UnexpectedAgreement);
    assert_eq!(tally, SuiteTally { agreed: 1, expected_divergences: 6, unexpected: 1 });
    assert!(!tally.passed());
}
