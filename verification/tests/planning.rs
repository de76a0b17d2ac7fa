//! Tests of the trapezoidal planner and its streaming wrapper.

use lathe_firmware::fixnum::{INum, UNum};
use lathe_firmware::movement::{MotionSegment, Plan, StreamingError, StreamingPlan};
use lathe_firmware::units::{
    Coord, MillimetersPerSecond, MillimetersPerSecondSquared, UMillimeters,
};

fn mm(n: u32) -> Coord {
    Coord(UMillimeters(UNum::from_num(n)))
}

fn mm_s(n: u32) -> MillimetersPerSecond {
    MillimetersPerSecond(UNum::from_num(n))
}

fn mm_s2(n: u32) -> MillimetersPerSecondSquared {
    MillimetersPerSecondSquared(UNum::from_num(n))
}

fn collect_plan(mut plan: Plan) -> Vec<MotionSegment> {
    let mut segments = Vec::new();
    while let Some(seg) = plan.next() {
        segments.push(seg);
    }
    segments
}

fn collect_streaming(plan: &mut StreamingPlan) -> Vec<MotionSegment> {
    let mut segments = Vec::new();
    while let Some(seg) = plan.next() {
        segments.push(seg);
    }
    segments
}

fn total_distance(segments: &[MotionSegment]) -> INum {
    let mut total = INum::zero();
    for seg in segments {
        total = total.sat_add(seg.dist.0);
    }
    total
}

/// One tenth of a millimetre, the tolerance the distance sums are held to.
fn tenth() -> INum {
    INum::from_bits(102)
}

#[test]
fn simple_move_forward() {
    let plan = Plan::new(mm(0), mm_s(0), mm(10), mm_s2(2));
    let segments = collect_plan(plan);
    assert!(!segments.is_empty());
    let total = total_distance(&segments);
    let expected = INum::from_num(10);
    assert!(total.abs_diff(expected).lt(tenth()));
}

#[test]
fn simple_move_backward() {
    let plan = Plan::new(mm(10), mm_s(0), mm(0), mm_s2(2));
    let segments = collect_plan(plan);
    assert!(!segments.is_empty());
    let total = total_distance(&segments);
    let expected = INum::from_num(-10);
    assert!(total.abs_diff(expected).lt(tenth()));
}

#[test]
fn move_with_initial_velocity() {
    let plan = Plan::new(mm(0), mm_s(5), mm(20), mm_s2(2));
    let segments = collect_plan(plan);
    assert!(!segments.is_empty());
    let total = total_distance(&segments);
    let expected = INum::from_num(20);
    assert!(total.abs_diff(expected).lt(tenth()));
}

#[test]
fn no_move_same_position() {
    let plan = Plan::new(mm(5), mm_s(0), mm(5), mm_s2(2));
    let segments = collect_plan(plan);
    assert!(segments.is_empty());
}

#[test]
fn short_move() {
    let plan = Plan::new(mm(0), mm_s(0), mm(1), mm_s2(10));
    let segments = collect_plan(plan);
    assert!(!segments.is_empty());
    let total = total_distance(&segments);
    assert!(total.abs_diff(INum::from_num(1)).lt(tenth()));
    assert!(segments.iter().all(|seg| seg.speed.0.bits > 0));
}

#[test]
fn trapezoidal_profile() {
    let plan = Plan::new(mm(0), mm_s(0), mm(100), mm_s2(1));
    let segments = collect_plan(plan);
    assert!(!segments.is_empty());
    let total = total_distance(&segments);
    let expected = INum::from_num(100);
    assert!(total.abs_diff(expected).lt(tenth()));
    assert!(segments.iter().all(|seg| seg.speed.0.bits > 0));
    assert!(segments.iter().all(|seg| seg.dist.0.bits != 0));
}

#[test]
fn segments_cover_the_whole_distance() {
    let mut forward = Plan::new(mm(3), mm_s(1), mm(20), mm_s2(2));
    let total = total_distance(&forward.segments());
    assert_eq!(total, INum::from_num(17));
    let mut backward = Plan::new(mm(20), mm_s(0), mm(3), mm_s2(2));
    let total = total_distance(&backward.segments());
    assert_eq!(total, INum::from_num(-17));
}

#[test]
fn builder_matches_new() {
    let from_builder = Plan::builder()
        .current_position(Some(mm(0)))
        .current_velocity(Some(mm_s(0)))
        .target_position(Some(mm(10)))
        .max_accel(Some(mm_s2(2)))
        .build();
    let direct = Plan::new(mm(0), mm_s(0), mm(10), mm_s2(2));
    assert_eq!(from_builder, direct);
}

#[test]
fn streaming_single_target() {
    let mut streaming_plan = StreamingPlan::new(mm(0), mm_s2(2));
    streaming_plan.add_target(mm(10)).unwrap();
    let segments = collect_streaming(&mut streaming_plan);
    assert!(!segments.is_empty());
    let total = total_distance(&segments);
    assert_eq!(total, INum::from_num(10));
}

#[test]
fn streaming_multiple_targets() {
    let mut streaming_plan = StreamingPlan::new(mm(0), mm_s2(2));
    streaming_plan.add_target(mm(10)).unwrap();
    let mut segments = collect_streaming(&mut streaming_plan);
    streaming_plan.add_target(mm(20)).unwrap();
    segments.extend(collect_streaming(&mut streaming_plan));
    assert!(!segments.is_empty());
    let total = total_distance(&segments);
    assert_eq!(total, INum::from_num(20));
}

#[test]
fn streaming_buffer_full() {
    let mut streaming_plan = StreamingPlan::new(mm(0), mm_s2(2));
    streaming_plan.add_target(mm(10)).unwrap();
    streaming_plan.add_target(mm(20)).unwrap();
    let result = streaming_plan.add_target(mm(30));
    assert_eq!(result, Err(StreamingError::BufferFull));
}

#[test]
fn streaming_idle_state() {
    let mut streaming_plan = StreamingPlan::new(mm(0), mm_s2(2));
    assert_eq!(streaming_plan.next(), None);
}

#[test]
fn streaming_waiting_for_target() {
    let mut streaming_plan = StreamingPlan::new(mm(0), mm_s2(2));
    streaming_plan.add_target(mm(10)).unwrap();
    let segments = collect_streaming(&mut streaming_plan);
    assert!(!segments.is_empty());
    assert_eq!(streaming_plan.next(), None);
    streaming_plan.add_target(mm(20)).unwrap();
    assert!(streaming_plan.next().is_some());
}

#[test]
fn streaming_finish() {
    let mut streaming_plan = StreamingPlan::new(mm(0), mm_s2(2));
    streaming_plan.add_target(mm(10)).unwrap();
    streaming_plan.add_target(mm(20)).unwrap();
    streaming_plan.finish();
    let segments = collect_streaming(&mut streaming_plan);
    assert!(!segments.is_empty());
    let total = total_distance(&segments);
    assert_eq!(total, INum::from_num(10));
}
