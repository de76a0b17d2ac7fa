//! End-to-end tests of the motion pipeline: bytes in, state and pulse
//! words out, replies back.

use std::cell::Cell;

use lathe_firmware::channel::{CommandQueue, COMMAND_BUFFER_SIZE};
use lathe_firmware::driver::{AxisHome, AxisMove, ConfiguredProgram, Driver, StepsPerSecond};
use lathe_firmware::fixnum::UNum;
use lathe_firmware::gcode::{parse_single_command, Command};
use lathe_firmware::motion::{Axis, AxisUnit, MotionEffect, State};
use lathe_firmware::server::{try_take_command, Server, TakeOutcome};
use lathe_firmware::units::{
    DegreesPerStep, MicronsPerStep, MillimetersPerSecond, MillimetersPerSecondSquared,
};
use lathe_firmware::util::OnDrop;
use lathe_firmware::wire::CommandId;

const LABELS: &[u8] = b"XZCF";

/// The machine of the firmware build: X and Z in millimetres at 12 and 6
/// microns per step, C rotary at 1.8/16 degrees per step.
fn test_axes() -> [Axis; 3] {
    let accel = MillimetersPerSecondSquared(UNum::from_num(1));
    [
        Axis {
            microns_per_step: MicronsPerStep(UNum::from_num(12)),
            degrees_per_step: DegreesPerStep(UNum::from_bits(115)),
            unit: AxisUnit::Millimeters,
            max_accel: accel,
        },
        Axis {
            microns_per_step: MicronsPerStep(UNum::from_num(6)),
            degrees_per_step: DegreesPerStep(UNum::from_bits(57)),
            unit: AxisUnit::Millimeters,
            max_accel: accel,
        },
        Axis {
            microns_per_step: MicronsPerStep(UNum::from_num(12)),
            degrees_per_step: DegreesPerStep(UNum::from_bits(115)),
            unit: AxisUnit::Rotations,
            max_accel: accel,
        },
    ]
}

fn run_line(state: &mut State, line: &[u8]) -> (MotionEffect, bool) {
    let (consumed, cmd) = parse_single_command(LABELS, line).unwrap();
    assert_eq!(consumed, line.len());
    state.apply_command(&cmd)
}

#[test]
fn move_x10_gives_833_steps() {
    let mut state = State::new(test_axes());
    let (effect, completes) = run_line(&mut state, b"G0 X10\n");
    assert!(completes);
    match effect {
        MotionEffect::Move { steps, .. } => assert_eq!(steps, [833, 0, 0]),
        _ => panic!("expected a move"),
    }
    assert_eq!(state.position[0].bits, 10 * 1024);
    assert_eq!(state.position[1].bits, 0);
    assert_eq!(state.position[2].bits, 0);
}

#[test]
fn home_zeroes_position_and_sets_homed() {
    let mut state = State::new(test_axes());
    run_line(&mut state, b"G0 X10 Z2\n");
    let (effect, completes) = run_line(&mut state, b"G28\n");
    assert!(completes);
    assert!(state.is_homed);
    assert_eq!(state.position[0].bits, 0);
    assert_eq!(state.position[1].bits, 0);
    assert_eq!(state.position[2].bits, 0);
    match effect {
        MotionEffect::Home(speeds) => {
            // 120 mm/s over 12 and 6 microns per step; rotary axes cannot home
            assert_eq!(speeds, [StepsPerSecond(10000), StepsPerSecond(20000), StepsPerSecond(0)]);
        },
        _ => panic!("expected homing"),
    }
}

#[test]
fn diagonal_move_decomposes_feedrate() {
    let mut state = State::new(test_axes());
    let (effect, _) = run_line(&mut state, b"G0 X3 Z4 F5\n");
    assert_eq!(state.position[0].bits, 3 * 1024);
    assert_eq!(state.position[1].bits, 4 * 1024);
    assert_eq!(state.position[2].bits, 0);
    assert_eq!(state.feedrate, MillimetersPerSecond(UNum::from_num(5)));
    match effect {
        MotionEffect::Move { steps, speeds } => {
            assert_eq!(steps, [250, 667, 0]);
            // 5 / sqrt(1 + (4/3)^2) = 3 mm/s on X, 5 / sqrt(1 + (3/4)^2) = 4 on Z
            assert_eq!(speeds, [StepsPerSecond(250), StepsPerSecond(666), StepsPerSecond(0)]);
        },
        _ => panic!("expected a move"),
    }
}

#[test]
fn rotary_move_negates_and_scales_by_degrees() {
    let mut state = State::new(test_axes());
    let (effect, _) = run_line(&mut state, b"G0 C2\n");
    match effect {
        MotionEffect::Move { steps, .. } => {
            // 2 rotations * 360 degrees over 115/1024 degrees per step,
            // negated by the wiring convention
            assert_eq!(steps, [0, 0, -6411]);
        },
        _ => panic!("expected a move"),
    }
    assert_eq!(state.position[2].bits, 2 * 1024);
}

#[test]
fn dwell_demands_the_full_delay() {
    let mut state = State::new(test_axes());
    let (effect, completes) = run_line(&mut state, b"G4 P500\n");
    assert!(completes);
    match effect {
        MotionEffect::Dwell(ms) => assert_eq!(ms, 500),
        _ => panic!("expected a dwell"),
    }
}

#[test]
fn disable_forgets_the_reference() {
    let mut state = State::new(test_axes());
    run_line(&mut state, b"G28\n");
    run_line(&mut state, b"G0 X10\n");
    assert!(state.is_homed);
    let (effect, completes) = run_line(&mut state, b"M18\n");
    assert!(completes);
    match effect {
        MotionEffect::SetSleep(s) => assert!(s),
        _ => panic!("expected a sleep change"),
    }
    assert!(!state.is_homed);
    assert_eq!(state.position[0].bits, 0);
    assert_eq!(state.position[1].bits, 0);
    assert_eq!(state.position[2].bits, 0);
}

#[test]
fn unchanged_axis_gets_zero_steps() {
    let mut state = State::new(test_axes());
    run_line(&mut state, b"G0 X10 Z4\n");
    // X commanded to its current position, Z untouched
    let (effect, _) = run_line(&mut state, b"G0 X10\n");
    match effect {
        MotionEffect::Move { steps, .. } => assert_eq!(steps, [0, 0, 0]),
        _ => panic!("expected a move"),
    }
}

#[test]
fn buffered_bytes_become_commands_and_compact() {
    let mut buf: Vec<u8> = b"G28\nG0 X1".to_vec();
    match try_take_command(LABELS, &mut buf) {
        TakeOutcome::Took(cmd) => assert_eq!(cmd, Command::Home),
        _ => panic!("expected a command"),
    }
    assert_eq!(buf, b"G0 X1".to_vec());
    match try_take_command(LABELS, &mut buf) {
        TakeOutcome::NeedMore => {},
        _ => panic!("expected to need more bytes"),
    }
    buf.extend_from_slice(b"\n");
    match try_take_command(LABELS, &mut buf) {
        TakeOutcome::Took(cmd) => {
            assert_eq!(
                cmd,
                parse_single_command(LABELS, b"G0 X1\n").unwrap().1
            );
        },
        _ => panic!("expected a command"),
    }
    assert!(buf.is_empty());
}

#[test]
fn bad_line_fails_the_buffer() {
    let mut buf: Vec<u8> = b"G0\n".to_vec();
    match try_take_command(LABELS, &mut buf) {
        TakeOutcome::Failed => {},
        _ => panic!("expected a parse failure"),
    }
}

#[test]
fn command_ids_count_up_from_one() {
    let mut server = Server::new();
    assert_eq!(server.gen_command_id(), CommandId(1));
    assert_eq!(server.gen_command_id(), CommandId(2));
    assert_eq!(server.command_id_gen, 2);
}

#[test]
fn queue_is_fifo_and_clearable() {
    let mut q = CommandQueue::new();
    q.send(CommandId(1), Command::Home);
    q.send(CommandId(2), Command::Stop);
    assert_eq!(q.len(), 2);
    let (id, cmd) = q.receive().unwrap();
    assert_eq!(id, CommandId(1));
    assert_eq!(cmd, Command::Home);
    q.clear();
    assert!(q.receive().is_none());
    assert!(COMMAND_BUFFER_SIZE == 32);
}

#[test]
fn sleep_cycles_match_the_pulse_clock() {
    assert_eq!(StepsPerSecond(0).to_sleep_cyles_per_step(), 500_000);
    assert_eq!(StepsPerSecond(250).to_sleep_cyles_per_step(), 1996);
    assert_eq!(StepsPerSecond(500_000).to_sleep_cyles_per_step(), 0);
    assert_eq!(StepsPerSecond(400_000).to_sleep_cyles_per_step(), 0);
}

#[test]
fn driver_move_words_follow_signs() {
    let mut driver = Driver::new([true, true, false]);
    assert!(driver.sleeping);
    driver.set_sleep(false);
    let moves = driver.do_move(
        [833, -10, 0],
        [StepsPerSecond(250), StepsPerSecond(250), StepsPerSecond(0)],
    );
    assert_eq!(driver.configured_program, Some(ConfiguredProgram::Steps));
    assert!(!driver.sleeping);
    assert_eq!(
        moves[0],
        AxisMove { dir_high: Some(true), steps_word: 833, sleeps_word: 1996 }
    );
    assert_eq!(
        moves[1],
        AxisMove { dir_high: Some(false), steps_word: 10, sleeps_word: 1996 }
    );
    assert_eq!(
        moves[2],
        AxisMove { dir_high: None, steps_word: 0, sleeps_word: 500_000 }
    );
}

#[test]
fn homing_skips_axes_without_a_limit_switch() {
    let mut driver = Driver::new([true, true, false]);
    let homes = driver.home(
        [StepsPerSecond(10000), StepsPerSecond(20000), StepsPerSecond(0)],
    );
    assert_eq!(driver.configured_program, Some(ConfiguredProgram::Home));
    // homing axes run low toward the switch; the rotary axis is untouched
    assert_eq!(homes[0], AxisHome { dir_high: Some(false), sleeps_word: Some(46) });
    assert_eq!(homes[1], AxisHome { dir_high: Some(false), sleeps_word: Some(21) });
    assert_eq!(homes[2], AxisHome { dir_high: None, sleeps_word: None });
}

#[test]
fn zip_and_unzip_are_elementwise() {
    let summed = lathe_firmware::util::zip_with(
        vec![1u32, 2, 3],
        vec![10u32, 20, 30],
        |x: u32, y: u32| x + y,
    );
    assert_eq!(summed, vec![11, 22, 33]);
    let (first, second) = lathe_firmware::util::unzip(vec![(1u32, 4u8), (2, 5), (3, 6)]);
    assert_eq!(first, vec![1, 2, 3]);
    assert_eq!(second, vec![4, 5, 6]);
}

#[test]
fn cleanup_guard_fires_once_or_not_at_all() {
    let fired = Cell::new(false);
    let guard = OnDrop::new(|| fired.set(true));
    guard.defuse();
    assert!(!fired.get());
    let guard = OnDrop::new(|| fired.set(true));
    guard.fire();
    assert!(fired.get());
}
