use z80_rust::tap::{parse_tap_code_block, TapError};
use z80_rust::z80test::{passed, result_line, run_program, Z80testError};

fn block(content: &[u8]) -> Vec<u8> {
    let mut out = vec![(content.len() & 0xFF) as u8, (content.len() >> 8) as u8];
    out.extend_from_slice(content);
    out
}

fn code_header(length: u16, load: u16) -> Vec<u8> {
    let mut header = vec![0x00, 0x03];
    header.extend_from_slice(b"z80test   ");
    header.extend_from_slice(&length.to_le_bytes());
    header.extend_from_slice(&load.to_le_bytes());
    header.extend_from_slice(&[0x00, 0x80, 0x00]);
    header
}

fn tap(code: &[u8], load: u16) -> Vec<u8> {
    let mut data_block = vec![0xFF];
    data_block.extend_from_slice(code);
    data_block.push(0x00);
    let mut out = block(&[0x00, 0x00, 0x6C, 0x6F, 0x61, 0x64]);
    out.extend(block(&[0xFF, 0x0A]));
    out.extend(block(&code_header(code.len() as u16, load)));
    out.extend(block(&data_block));
    out
}

// LD A,'O' ; RST 0x10 ; LD A,'K' ; RST 0x10 ; RET
const PRINT_OK: [u8; 7] = [0x3E, 0x4F, 0xD7, 0x3E, 0x4B, 0xD7, 0xC9];

#[test]
fn code_block_is_extracted() {
    let data = tap(&PRINT_OK, 0x8000);
    assert_eq!(parse_tap_code_block(&data), Ok((PRINT_OK.to_vec(), 0x8000)));
}

#[test]
fn too_few_blocks() {
    let mut data = block(&[0x00]);
    data.extend(block(&[0xFF]));
    assert_eq!(parse_tap_code_block(&data), Err(TapError::TooFewBlocks { found: 2 }));
    assert_eq!(parse_tap_code_block(&[]), Err(TapError::TooFewBlocks { found: 0 }));
}

#[test]
fn third_block_must_be_a_code_header() {
    let mut data = block(&[0x00]);
    data.extend(block(&[0xFF]));
    data.extend(block(&[0x00, 0x00, 0x01]));
    data.extend(block(&[0xFF, 0xC9]));
    assert_eq!(parse_tap_code_block(&data), Err(TapError::NoCodeHeader));
}

#[test]
fn fourth_block_must_be_data() {
    let mut data = block(&[0x00]);
    data.extend(block(&[0xFF]));
    data.extend(block(&code_header(1, 0x8000)));
    data.extend(block(&[0x00, 0xC9]));
    assert_eq!(parse_tap_code_block(&data), Err(TapError::NoDataBlock));
}

#[test]
fn short_data_block() {
    let mut data = block(&[0x00]);
    data.extend(block(&[0xFF]));
    data.extend(block(&code_header(5, 0x8000)));
    data.extend(block(&[0xFF, 0xC9, 0x00]));
    assert_eq!(parse_tap_code_block(&data), Err(TapError::LengthMismatch { expected: 5, got: 2 }));
}

#[test]
fn a_block_cut_short_by_the_end_of_the_file_is_kept() {
    let mut data = tap(&PRINT_OK, 0x8000);
    data.truncate(data.len() - 1);
    // The data block lost its checksum byte only: the code is still whole.
    assert_eq!(parse_tap_code_block(&data), Ok((PRINT_OK.to_vec(), 0x8000)));
}

#[test]
fn program_prints_through_the_rom_stub() {
    let outcome = run_program(&tap(&PRINT_OK, 0x8000)).unwrap();
    assert_eq!(outcome.output, b"OK".to_vec());
    assert_eq!(outcome.instructions, 9);
}

#[test]
fn keyboard_port_reads_bf() {
    // IN A,(0xFE) ; RST 0x10 ; RET
    let outcome = run_program(&tap(&[0xDB, 0xFE, 0xD7, 0xC9], 0x8000)).unwrap();
    assert_eq!(outcome.output, vec![0xBF]);
}

#[test]
fn channel_open_stub_returns() {
    // CALL 0x1601 ; RET
    let outcome = run_program(&tap(&[0xCD, 0x01, 0x16, 0xC9], 0x8000)).unwrap();
    assert_eq!(outcome.output, Vec::<u8>::new());
    assert_eq!(outcome.instructions, 3);
}

#[test]
fn loading_at_the_sentinel_runs_nothing() {
    let outcome = run_program(&tap(&[0x00], 0x0000)).unwrap();
    assert_eq!(outcome.instructions, 0);
    assert!(outcome.output.is_empty());
}

#[test]
fn tap_errors_come_through() {
    assert_eq!(run_program(&[]).err(), Some(Z80testError::Tap(TapError::TooFewBlocks { found: 0 })));
}

#[test]
fn prefix_runs_execute() {
    // FD FD 3E 4F: LD A,'O' behind a stray prefix ; RST 0x10 ; RET
    let outcome = run_program(&tap(&[0xFD, 0xFD, 0x3E, 0x4F, 0xD7, 0xC9], 0x8000)).unwrap();
    assert_eq!(outcome.output, b"O".to_vec());
    assert_eq!(outcome.instructions, 5);
}

#[test]
fn pass_message_is_recognised() {
    assert!(passed(b"z80test\rResult: all tests passed.\r"));
    assert!(!passed(b"Result: 3 of 160 tests failed.\r"));
    assert!(!passed(b""));
}

#[test]
fn result_line_is_the_first_starting_with_result() {
    assert_eq!(
        result_line(b"Z80 instruction exerciser\rResult: all tests passed.\rResult: again"),
        Some(b"Result: all tests passed.".to_vec())
    );
    assert_eq!(result_line(b"a\nResult: 1 failed"), Some(b"Result: 1 failed".to_vec()));
    assert_eq!(result_line(b"no summary\r"), None);
    assert_eq!(result_line(b" Result: indented"), None);
}
