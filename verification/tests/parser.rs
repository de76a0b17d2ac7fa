//! Tests of the G-code grammar and parser.

use lathe_firmware::gcode::{
    command, non_empty_upos, parse_single_command, ucoord, Command, Error, UPos,
};
use lathe_firmware::fixnum::UNum;

const XYZ: &[u8] = b"XYZ";
const XYZF: &[u8] = b"XYZF";

/// A coordinate fixed independently of the parser, from its raw bits:
/// the decimal value times 1024, rounded to the nearest integer.
fn bits(raw: u32) -> UNum {
    UNum::from_bits(raw)
}

#[test]
fn non_empty_upos_requires_non_empty_coords() {
    let result = non_empty_upos(XYZ, b"", 0, 0);
    assert!(result.is_none());
}

#[test]
fn g0() {
    let input: &[u8] = b"G0 X90.6 Y13.8 Z22.4";
    let (consumed, res) = command(XYZ, input).unwrap();
    assert_eq!(consumed, input.len());
    // 90.6 * 1024 = 92774.4, 13.8 * 1024 = 14131.2, 22.4 * 1024 = 22937.6
    assert_eq!(
        res,
        Command::RapidMove(UPos(vec![
            Some(bits(92774)),
            Some(bits(14131)),
            Some(bits(22938)),
        ]))
    );
}

#[test]
fn g0_incomplete() {
    let input: &[u8] = b"G0 X90.6";
    let (consumed, res) = command(XYZ, input).unwrap();
    assert_eq!(consumed, input.len());
    assert_eq!(res, Command::RapidMove(UPos(vec![Some(bits(92774)), None, None])));
}

#[test]
fn g0_feedrate() {
    let input: &[u8] = b"G0 F1500";
    let (consumed, res) = command(XYZF, input).unwrap();
    assert_eq!(consumed, input.len());
    assert_eq!(
        res,
        Command::RapidMove(UPos(vec![None, None, None, Some(UNum::from_num(1500))]))
    );
}

#[test]
fn g4_secs() {
    let input: &[u8] = b"G4 S4";
    let (consumed, res) = command(XYZF, input).unwrap();
    assert_eq!(consumed, input.len());
    assert_eq!(res, Command::Dwell(4000));
}

#[test]
fn g4_millis() {
    let input: &[u8] = b"G4 P123";
    let (consumed, res) = command(XYZF, input).unwrap();
    assert_eq!(consumed, input.len());
    assert_eq!(res, Command::Dwell(123));
}

#[test]
fn m0_stop() {
    let input: &[u8] = b"M0";
    let (consumed, res) = command(XYZF, input).unwrap();
    assert_eq!(consumed, input.len());
    assert_eq!(res, Command::Stop);
}

#[test]
fn m17_enable_all_steppers() {
    let input: &[u8] = b"M17";
    let (consumed, res) = command(XYZF, input).unwrap();
    assert_eq!(consumed, input.len());
    assert_eq!(res, Command::EnableAllSteppers);
}

#[test]
fn m18_disable_all_steppers() {
    let input: &[u8] = b"M18";
    let (consumed, res) = command(XYZF, input).unwrap();
    assert_eq!(consumed, input.len());
    assert_eq!(res, Command::DisableAllSteppers);
}

#[test]
fn g28_home() {
    let input: &[u8] = b"G28";
    let (consumed, res) = command(XYZF, input).unwrap();
    assert_eq!(consumed, input.len());
    assert_eq!(res, Command::Home);
}

/// Run the coordinate parser over a whole decimal string.
fn parse_coord(s: &str) -> UNum {
    ucoord(s.as_bytes(), 0, s.len()).unwrap().1
}

#[test]
fn coordinate_bits_round_to_nearest() {
    // 90.6 * 1024 = 92774.4 rounds down; 22.4 * 1024 = 22937.6 rounds up
    assert_eq!(parse_coord("90.6").bits, 92774);
    assert_eq!(parse_coord("22.4").bits, 22938);
    assert_eq!(parse_coord("0.5").bits, 512);
    assert_eq!(parse_coord("10").bits, 10240);
    // a fraction within half a unit of one carries into the whole part
    assert_eq!(parse_coord("0.9996").bits, 1024);
    assert_eq!(parse_coord("4194303").bits, 4194303 * 1024);
}

#[test]
fn coordinate_saturates_at_u32() {
    assert_eq!(parse_coord("99999999").bits, u32::MAX);
}

#[test]
fn park_with_and_without_position() {
    let input: &[u8] = b"G27 X1";
    let (_, res) = command(XYZF, input).unwrap();
    assert_eq!(
        res,
        Command::Park(Some(UPos(vec![Some(UNum::from_num(1)), None, None, None])))
    );
    let (_, bare) = command(XYZF, b"G27").unwrap();
    assert_eq!(bare, Command::Park(None));
}

#[test]
fn single_command_needs_a_newline() {
    let r = parse_single_command(XYZF, b"G0 X1");
    assert_eq!(r.unwrap_err(), Error::Incomplete);
}

#[test]
fn single_command_takes_line_and_remainder() {
    let (consumed, res) = parse_single_command(XYZF, b"G28\nG0 X1\n").unwrap();
    assert_eq!(consumed, 4);
    assert_eq!(res, Command::Home);
}

#[test]
fn empty_move_line_fails() {
    let r = parse_single_command(XYZF, b"G0\n");
    assert_eq!(r.unwrap_err(), Error::ParseFailed);
}

#[test]
fn garbage_line_fails() {
    let r = parse_single_command(XYZF, b"hello\n");
    assert_eq!(r.unwrap_err(), Error::ParseFailed);
}

#[test]
fn trailing_junk_fails() {
    let r = parse_single_command(XYZF, b"G28 X1\n");
    assert_eq!(r.unwrap_err(), Error::ParseFailed);
}

#[test]
fn out_of_order_axes_fail() {
    let r = parse_single_command(XYZF, b"G0 Z5 X3\n");
    assert_eq!(r.unwrap_err(), Error::ParseFailed);
}
