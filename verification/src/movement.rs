//! Trapezoidal velocity planning for a single axis.
//!
//! A [`Plan`] turns one move (current position, entry velocity, target,
//! maximum acceleration) into up to three motion segments: an acceleration
//! ramp, a cruise stretch, and a deceleration to rest.  Each segment
//! carries a signed distance and an average speed.  [`spec_plan_next`] is
//! the exact fixed-point semantics of one planning step; `Plan::next` is
//! proved to follow it, to move the position monotonically toward the
//! target by exactly the emitted distance, and to take at most three
//! steps before completing.
//!
//! A [`StreamingPlan`] chains moves: it holds the active plan and at most
//! one pending target; offering a further target reports a full buffer.

use vstd::prelude::*;

use crate::fixnum::{fx_add, fx_div, fx_mul, fx_sqrt, sat_i32, sat_u32, INum, UNum};
use crate::units::{Coord, IMillimeters, MillimetersPerSecond, MillimetersPerSecondSquared, UMillimeters};

verus! {

/// The phase a plan is in.
#[derive(Clone, Copy, Debug, PartialEq, Eq, Structural)]
pub enum PlanPhase {
    Accelerating,
    Cruising,
    Decelerating,
    Complete,
}

/// One piece of planned motion: a signed distance covered at an average speed.
#[derive(Clone, Copy, Debug, PartialEq, Eq, Structural)]
pub struct MotionSegment {
    pub dist: IMillimeters,
    pub speed: MillimetersPerSecond,
}

/// A single-axis move being turned into segments.
#[derive(Clone, Copy, Debug, PartialEq, Eq, Structural)]
pub struct Plan {
    pub current_position: Coord,
    pub current_velocity: MillimetersPerSecond,
    pub target_position: Coord,
    pub max_accel: MillimetersPerSecondSquared,
    pub phase: PlanPhase,
    pub cruise_velocity: MillimetersPerSecond,
}

/// The cruise velocity reachable over `distance` from entry velocity `v0`
/// at acceleration `a`: `sqrt(v0^2 + 2 a d)` in fixed point.
pub open spec fn spec_cruise_velocity(v0: int, distance: int, a: int) -> int {
    let v0sq = fx_mul(v0, v0);
    let two_a_d = fx_mul(fx_mul(2048, a), distance);
    let s = fx_add(v0sq, two_a_d);
    if s > 0 {
        fx_sqrt(s)
    } else {
        0
    }
}

/// The phase a plan starts in, comparing entry and cruise velocity.
pub open spec fn spec_initial_phase(v0: int, cruise: int) -> PlanPhase {
    if v0 < cruise {
        PlanPhase::Accelerating
    } else if v0 > cruise {
        PlanPhase::Decelerating
    } else {
        PlanPhase::Cruising
    }
}

/// Distance still to cover, as non-negative bits.
pub open spec fn spec_remaining(p: Plan) -> int {
    let c = p.current_position.0.0.bits as int;
    let t = p.target_position.0.0.bits as int;
    if t >= c {
        t - c
    } else {
        c - t
    }
}

/// Distance needed to brake from the cruise velocity to rest.
pub open spec fn spec_decel_distance(p: Plan) -> int {
    let vc = p.cruise_velocity.0.bits as int;
    fx_div(fx_mul(vc, vc), fx_mul(2048, p.max_accel.0.bits as int))
}

/// A position moved `m` bits toward the target.
pub open spec fn spec_pos_toward(p: Plan, m: int) -> Coord {
    let c = p.current_position.0.0.bits as int;
    let t = p.target_position.0.0.bits as int;
    if t >= c {
        Coord(UMillimeters(UNum { bits: (c + m) as u32 }))
    } else {
        Coord(UMillimeters(UNum { bits: (c - m) as u32 }))
    }
}

/// The segment covering `m` bits toward the target at the given speed.
pub open spec fn spec_seg_toward(p: Plan, m: int, speed: int) -> MotionSegment {
    let c = p.current_position.0.0.bits as int;
    let t = p.target_position.0.0.bits as int;
    let d = if t >= c {
        sat_i32(m)
    } else {
        sat_i32(-m)
    };
    MotionSegment {
        dist: IMillimeters(INum { bits: d as i32 }),
        speed: MillimetersPerSecond(UNum { bits: speed as u32 }),
    }
}

/// One planning step, exactly as the fixed-point arithmetic computes it.
pub open spec fn spec_plan_next(p: Plan) -> (Plan, Option<MotionSegment>) {
    let rem = spec_remaining(p);
    let v0 = p.current_velocity.0.bits as int;
    let vt = p.cruise_velocity.0.bits as int;
    let a = p.max_accel.0.bits as int;
    match p.phase {
        PlanPhase::Complete => (p, Option::None),
        PlanPhase::Accelerating => {
            if rem == 0 {
                (Plan { phase: PlanPhase::Complete, ..p }, Option::None)
            } else {
                let ttc = fx_div(sat_u32(vt - v0), a);
                let dacc = fx_add(fx_mul(v0, ttc), fx_mul(fx_mul(fx_mul(512, a), ttc), ttc));
                if dacc >= rem {
                    let disc = fx_add(fx_mul(v0, v0), fx_mul(fx_mul(2048, a), rem));
                    let tt = fx_div(sat_u32(fx_sqrt(disc) - v0), a);
                    let vf = fx_add(v0, fx_mul(a, tt));
                    let speed = fx_div(fx_add(v0, vf), 2048);
                    (
                        Plan {
                            current_position: p.target_position,
                            current_velocity: MillimetersPerSecond(UNum { bits: vf as u32 }),
                            phase: PlanPhase::Complete,
                            ..p
                        },
                        Option::Some(spec_seg_toward(p, rem, speed)),
                    )
                } else {
                    let speed = fx_div(fx_add(v0, vt), 2048);
                    (
                        Plan {
                            current_position: spec_pos_toward(p, dacc),
                            current_velocity: p.cruise_velocity,
                            phase: PlanPhase::Cruising,
                            ..p
                        },
                        Option::Some(spec_seg_toward(p, dacc, speed)),
                    )
                }
            }
        },
        PlanPhase::Cruising => {
            if rem == 0 {
                (Plan { phase: PlanPhase::Complete, ..p }, Option::None)
            } else {
                let dd = spec_decel_distance(p);
                if rem <= dd {
                    // too close to keep cruising: one braking segment to rest
                    let speed = fx_div(v0, 2048);
                    (
                        Plan {
                            current_position: p.target_position,
                            current_velocity: MillimetersPerSecond(UNum { bits: 0 }),
                            phase: PlanPhase::Complete,
                            ..p
                        },
                        Option::Some(spec_seg_toward(p, rem, speed)),
                    )
                } else {
                    (
                        Plan { current_position: spec_pos_toward(p, rem - dd), ..p },
                        Option::Some(spec_seg_toward(p, rem - dd, vt)),
                    )
                }
            }
        },
        PlanPhase::Decelerating => {
            if rem == 0 {
                (Plan { phase: PlanPhase::Complete, ..p }, Option::None)
            } else {
                let speed = fx_div(v0, 2048);
                (
                    Plan {
                        current_position: p.target_position,
                        current_velocity: MillimetersPerSecond(UNum { bits: 0 }),
                        phase: PlanPhase::Complete,
                        ..p
                    },
                    Option::Some(spec_seg_toward(p, rem, speed)),
                )
            }
        },
    }
}

/// Upper bound on the planning steps a plan can still take.
pub open spec fn spec_steps_left(p: Plan) -> int {
    match p.phase {
        PlanPhase::Complete => 0,
        PlanPhase::Decelerating => 1,
        PlanPhase::Cruising => if spec_remaining(p) > spec_decel_distance(p) {
            2
        } else {
            1
        },
        PlanPhase::Accelerating => 3,
    }
}

impl Plan {
    /// The plan's arithmetic stays well defined - the acceleration is
    /// nonzero - and a completed plan stands at its target.
    pub open spec fn wf(&self) -> bool {
        &&& self.max_accel.0.bits > 0
        &&& (self.phase is Complete ==> self.current_position == self.target_position)
    }

    pub fn builder() -> (r: PlanBuilder)
        ensures
            r.current_position is None,
            r.current_velocity is None,
            r.target_position is None,
            r.max_accel is None,
    {
        PlanBuilder {
            current_position: None,
            current_velocity: None,
            target_position: None,
            max_accel: None,
        }
    }

    /// Set up a move: compute the cruise velocity and the starting phase.
    pub fn new(
        current_position: Coord,
        current_velocity: MillimetersPerSecond,
        target_position: Coord,
        max_accel: MillimetersPerSecondSquared,
    ) -> (r: Plan)
        requires
            max_accel.0.bits > 0,
        ensures
            r.wf(),
            r.current_position == current_position,
            r.current_velocity == current_velocity,
            r.target_position == target_position,
            r.max_accel == max_accel,
            r.cruise_velocity.0.bits as int == spec_cruise_velocity(
                current_velocity.0.bits as int,
                spec_remaining(r),
                max_accel.0.bits as int,
            ),
            r.phase == spec_initial_phase(
                current_velocity.0.bits as int,
                r.cruise_velocity.0.bits as int,
            ),
    {
        let distance_to_target = if target_position.0.0.bits >= current_position.0.0.bits {
            target_position.0.0.sat_sub(current_position.0.0)
        } else {
            current_position.0.0.sat_sub(target_position.0.0)
        };
        let cruise_velocity = calculate_cruise_velocity(
            current_velocity,
            distance_to_target,
            max_accel,
        );
        let phase = if current_velocity.0.bits < cruise_velocity.0.bits {
            PlanPhase::Accelerating
        } else if current_velocity.0.bits > cruise_velocity.0.bits {
            PlanPhase::Decelerating
        } else {
            PlanPhase::Cruising
        };
        Plan {
            current_position,
            current_velocity,
            target_position,
            max_accel,
            phase,
            cruise_velocity,
        }
    }

    /// Produce the next motion segment, or `None` when the move is done.
    ///
    /// Every emitted segment moves the position toward the target by
    /// exactly the segment's distance, and the number of remaining steps
    /// strictly decreases, so a move yields at most three segments.
    pub fn next(&mut self) -> (r: Option<MotionSegment>)
        requires
            old(self).wf(),
        ensures
            final(self).wf(),
            *final(self) == spec_plan_next(*old(self)).0,
            r == spec_plan_next(*old(self)).1,
            r is Some ==> spec_steps_left(*final(self)) < spec_steps_left(*old(self)),
            r is None ==> final(self).phase is Complete && final(self).current_position == old(
                self,
            ).current_position,
            ({
                let c = old(self).current_position.0.0.bits as int;
                let t = old(self).target_position.0.0.bits as int;
                let nc = final(self).current_position.0.0.bits as int;
                r matches Option::Some(seg) ==> {
                    &&& (t >= c ==> c <= nc <= t && seg.dist.0.bits == sat_i32(nc - c))
                    &&& (t < c ==> t <= nc <= c && seg.dist.0.bits == sat_i32(nc - c))
                    &&& final(self).target_position == old(self).target_position
                }
            }),
    {
        let c = self.current_position.0.0;
        let t = self.target_position.0.0;
        let rem: UNum = if t.bits >= c.bits {
            t.sat_sub(c)
        } else {
            c.sat_sub(t)
        };
        match self.phase {
            PlanPhase::Complete => None,
            PlanPhase::Accelerating => {
                if rem.bits == 0 {
                    self.phase = PlanPhase::Complete;
                    return None;
                }
                let v0 = self.current_velocity.0;
                let vt = self.cruise_velocity.0;
                let a = self.max_accel.0;
                let ttc = vt.sat_sub(v0).div_floor(a);
                let dacc = v0.sat_mul(ttc).sat_add(
                    UNum::from_bits(512).sat_mul(a).sat_mul(ttc).sat_mul(ttc),
                );
                if dacc.bits >= rem.bits {
                    let disc = v0.sat_mul(v0).sat_add(UNum::from_bits(2048).sat_mul(a).sat_mul(rem));
                    let tt = disc.sqrt().sat_sub(v0).div_floor(a);
                    let vf = v0.sat_add(a.sat_mul(tt));
                    let speed = v0.sat_add(vf).div_floor(UNum::from_bits(2048));
                    let dist = if t.bits >= c.bits {
                        rem.cast_signed_sat()
                    } else {
                        rem.cast_signed_sat().sat_neg()
                    };
                    self.current_position = self.target_position;
                    self.current_velocity = MillimetersPerSecond(vf);
                    self.phase = PlanPhase::Complete;
                    Some(
                        MotionSegment {
                            dist: IMillimeters(dist),
                            speed: MillimetersPerSecond(speed),
                        },
                    )
                } else {
                    let speed = v0.sat_add(vt).div_floor(UNum::from_bits(2048));
                    let newpos: UNum = if t.bits >= c.bits {
                        UNum::from_bits(c.bits + dacc.bits)
                    } else {
                        UNum::from_bits(c.bits - dacc.bits)
                    };
                    let dist = if t.bits >= c.bits {
                        dacc.cast_signed_sat()
                    } else {
                        dacc.cast_signed_sat().sat_neg()
                    };
                    self.current_position = Coord(UMillimeters(newpos));
                    self.current_velocity = self.cruise_velocity;
                    self.phase = PlanPhase::Cruising;
                    Some(
                        MotionSegment {
                            dist: IMillimeters(dist),
                            speed: MillimetersPerSecond(speed),
                        },
                    )
                }
            },
            PlanPhase::Cruising => {
                if rem.bits == 0 {
                    self.phase = PlanPhase::Complete;
                    return None;
                }
                let v0 = self.current_velocity.0;
                let vc = self.cruise_velocity.0;
                let dd = vc.sat_mul(vc).div_floor(UNum::from_bits(2048).sat_mul(self.max_accel.0));
                if rem.bits <= dd.bits {
                    let speed = v0.div_floor(UNum::from_bits(2048));
                    let dist = if t.bits >= c.bits {
                        rem.cast_signed_sat()
                    } else {
                        rem.cast_signed_sat().sat_neg()
                    };
                    self.current_position = self.target_position;
                    self.current_velocity = MillimetersPerSecond(UNum::from_bits(0));
                    self.phase = PlanPhase::Complete;
                    Some(
                        MotionSegment {
                            dist: IMillimeters(dist),
                            speed: MillimetersPerSecond(speed),
                        },
                    )
                } else {
                    let cd = rem.sat_sub(dd);
                    let newpos: UNum = if t.bits >= c.bits {
                        UNum::from_bits(c.bits + cd.bits)
                    } else {
                        UNum::from_bits(c.bits - cd.bits)
                    };
                    let dist = if t.bits >= c.bits {
                        cd.cast_signed_sat()
                    } else {
                        cd.cast_signed_sat().sat_neg()
                    };
                    self.current_position = Coord(UMillimeters(newpos));
                    Some(
                        MotionSegment {
                            dist: IMillimeters(dist),
                            speed: self.cruise_velocity,
                        },
                    )
                }
            },
            PlanPhase::Decelerating => {
                if rem.bits == 0 {
                    self.phase = PlanPhase::Complete;
                    return None;
                }
                let v0 = self.current_velocity.0;
                let speed = v0.div_floor(UNum::from_bits(2048));
                let dist = if t.bits >= c.bits {
                    rem.cast_signed_sat()
                } else {
                    rem.cast_signed_sat().sat_neg()
                };
                self.current_position = self.target_position;
                self.current_velocity = MillimetersPerSecond(UNum::from_bits(0));
                self.phase = PlanPhase::Complete;
                Some(MotionSegment { dist: IMillimeters(dist), speed: MillimetersPerSecond(speed) })
            },
        }
    }
}

/// The signed sum of segment distances, in raw bits.
pub open spec fn seg_total(s: Seq<MotionSegment>) -> int
    decreases s.len(),
{
    if s.len() == 0 {
        0
    } else {
        seg_total(s.drop_last()) + s.last().dist.0.bits
    }
}

impl Plan {
    /// Drain the plan: every segment it still has, in order.
    ///
    /// The emitted distances add up to exactly the signed distance from
    /// the starting position to the target - nothing is lost to rounding
    /// - provided that distance is representable in a segment.
    pub fn segments(&mut self) -> (r: Vec<MotionSegment>)
        requires
            old(self).wf(),
            spec_remaining(*old(self)) <= i32::MAX,
        ensures
            final(self).wf(),
            final(self).phase is Complete,
            final(self).current_position == old(self).target_position,
            final(self).target_position == old(self).target_position,
            seg_total(r@) == old(self).target_position.0.0.bits
                - old(self).current_position.0.0.bits,
            r@.len() <= 3,
    {
        let ghost start = self.current_position.0.0.bits as int;
        let mut out: Vec<MotionSegment> = Vec::new();
        loop
            invariant
                self.wf(),
                spec_remaining(*self) <= i32::MAX,
                self.target_position == old(self).target_position,
                seg_total(out@) == self.current_position.0.0.bits as int - start,
                out@.len() + spec_steps_left(*self) <= 3,
            ensures
                self.wf(),
                self.phase is Complete,
                self.target_position == old(self).target_position,
                seg_total(out@) == self.current_position.0.0.bits as int - start,
                out@.len() <= 3,
            decreases spec_steps_left(*self),
        {
            let ghost prev = *self;
            let ghost out_prev = out@;
            match self.next() {
                Some(seg) => {
                    out.push(seg);
                    proof {
                        assert(out@.drop_last() =~= out_prev);
                        // the segment's distance is exactly the position delta:
                        // the move stays within the start-target bracket, which
                        // is at most i32::MAX wide, so the clip never engages
                        assert(seg.dist.0.bits == sat_i32(
                            self.current_position.0.0.bits - prev.current_position.0.0.bits,
                        ));
                    }
                },
                None => {
                    break;
                },
            }
        }
        out
    }
}

/// The cruise velocity for a move, in fixed point.
pub fn calculate_cruise_velocity(
    current_velocity: MillimetersPerSecond,
    distance: UNum,
    max_accel: MillimetersPerSecondSquared,
) -> (r: MillimetersPerSecond)
    ensures
        r.0.bits as int == spec_cruise_velocity(
            current_velocity.0.bits as int,
            distance.bits as int,
            max_accel.0.bits as int,
        ),
{
    let v0 = current_velocity.0;
    let v0_squared = v0.sat_mul(v0);
    let two_a_d = UNum::from_bits(2048).sat_mul(max_accel.0).sat_mul(distance);
    let v_max_squared = v0_squared.sat_add(two_a_d);
    if v_max_squared.bits > 0 {
        MillimetersPerSecond(v_max_squared.sqrt())
    } else {
        MillimetersPerSecond(UNum::from_bits(0))
    }
}

/// Builder for a [`Plan`]; every field must be set before `build`.
pub struct PlanBuilder {
    pub current_position: Option<Coord>,
    pub current_velocity: Option<MillimetersPerSecond>,
    pub target_position: Option<Coord>,
    pub max_accel: Option<MillimetersPerSecondSquared>,
}

impl PlanBuilder {
    pub fn current_position(self, v: Option<Coord>) -> (r: PlanBuilder)
        ensures
            r == (PlanBuilder { current_position: v, ..self }),
    {
        PlanBuilder { current_position: v, ..self }
    }

    pub fn current_velocity(self, v: Option<MillimetersPerSecond>) -> (r: PlanBuilder)
        ensures
            r == (PlanBuilder { current_velocity: v, ..self }),
    {
        PlanBuilder { current_velocity: v, ..self }
    }

    pub fn target_position(self, v: Option<Coord>) -> (r: PlanBuilder)
        ensures
            r == (PlanBuilder { target_position: v, ..self }),
    {
        PlanBuilder { target_position: v, ..self }
    }

    pub fn max_accel(self, v: Option<MillimetersPerSecondSquared>) -> (r: PlanBuilder)
        ensures
            r == (PlanBuilder { max_accel: v, ..self }),
    {
        PlanBuilder { max_accel: v, ..self }
    }

    /// Assemble the plan; every field must have been given, and the
    /// acceleration must be nonzero.
    pub fn build(self) -> (r: Plan)
        requires
            self.current_position is Some,
            self.current_velocity is Some,
            self.target_position is Some,
            self.max_accel matches Some(a) && a.0.bits > 0,
        ensures
            r.wf(),
            Option::Some(r.current_position) == self.current_position,
            Option::Some(r.current_velocity) == self.current_velocity,
            Option::Some(r.target_position) == self.target_position,
            Option::Some(r.max_accel) == self.max_accel,
            r.cruise_velocity.0.bits as int == spec_cruise_velocity(
                r.current_velocity.0.bits as int,
                spec_remaining(r),
                r.max_accel.0.bits as int,
            ),
            r.phase == spec_initial_phase(
                r.current_velocity.0.bits as int,
                r.cruise_velocity.0.bits as int,
            ),
    {
        let current_position = match self.current_position {
            Some(v) => v,
            None => Coord::zero(),
        };
        let current_velocity = match self.current_velocity {
            Some(v) => v,
            None => MillimetersPerSecond(UNum::from_bits(0)),
        };
        let target_position = match self.target_position {
            Some(v) => v,
            None => Coord::zero(),
        };
        let max_accel = match self.max_accel {
            Some(v) => v,
            None => MillimetersPerSecondSquared(UNum::from_bits(1)),
        };
        Plan::new(current_position, current_velocity, target_position, max_accel)
    }
}

/// Why a target cannot be taken right now.
#[derive(Clone, Copy, Debug, PartialEq, Eq, Structural)]
pub enum StreamingError {
    /// A move is executing and one target is already pending.
    BufferFull,
}

/// The streaming planner's phase.
#[derive(Clone, Copy, Debug, PartialEq, Eq, Structural)]
pub enum StreamingPhase {
    /// No move was ever started.
    Idle,
    /// A plan is emitting segments.
    ExecutingMove,
    /// The last plan is exhausted and no target is pending.
    WaitingForTarget,
}

/// A planner fed targets one at a time, with a pending buffer of one.
#[derive(Clone, Copy, Debug, PartialEq, Eq, Structural)]
pub struct StreamingPlan {
    pub current_position: Coord,
    pub current_velocity: MillimetersPerSecond,
    pub max_accel: MillimetersPerSecondSquared,
    pub current_plan: Option<Plan>,
    pub pending_target: Option<Coord>,
    pub phase: StreamingPhase,
}

/// Builder for a [`StreamingPlan`]; the acceleration must be set.
pub struct StreamingPlanBuilder {
    pub start_position: Coord,
    pub max_accel: Option<MillimetersPerSecondSquared>,
}

impl Default for StreamingPlanBuilder {
    /// Starts at the origin with no acceleration chosen yet.
    fn default() -> (r: StreamingPlanBuilder)
        ensures
            r.start_position.0.0.bits == 0,
            r.max_accel is None,
    {
        StreamingPlanBuilder { start_position: Coord::zero(), max_accel: None }
    }
}

impl StreamingPlanBuilder {
    pub fn start_position(self, v: Coord) -> (r: StreamingPlanBuilder)
        ensures
            r == (StreamingPlanBuilder { start_position: v, ..self }),
    {
        StreamingPlanBuilder { start_position: v, ..self }
    }

    pub fn max_accel(self, v: MillimetersPerSecondSquared) -> (r: StreamingPlanBuilder)
        ensures
            r == (StreamingPlanBuilder { max_accel: Option::Some(v), ..self }),
    {
        StreamingPlanBuilder { max_accel: Some(v), ..self }
    }

    /// Assemble the streaming planner; the acceleration must have been
    /// given and be nonzero.
    pub fn build(self) -> (r: StreamingPlan)
        requires
            self.max_accel matches Some(a) && a.0.bits > 0,
        ensures
            r.wf(),
            r.current_position == self.start_position,
            r.current_velocity.0.bits == 0,
            Option::Some(r.max_accel) == self.max_accel,
            r.current_plan is None,
            r.pending_target is None,
            r.phase is Idle,
    {
        let max_accel = match self.max_accel {
            Some(v) => v,
            None => MillimetersPerSecondSquared(UNum::from_bits(1)),
        };
        StreamingPlan {
            current_position: self.start_position,
            current_velocity: MillimetersPerSecond(UNum::from_bits(0)),
            max_accel,
            current_plan: None,
            pending_target: None,
            phase: StreamingPhase::Idle,
        }
    }
}

/// A streamed state with a produced segment folded in: the position
/// advances by the segment's distance (saturating) and the velocity
/// becomes the segment's speed.
pub open spec fn spec_stream_fold(s: StreamingPlan, seg: MotionSegment) -> StreamingPlan {
    StreamingPlan {
        current_position: Coord(
            UMillimeters(
                UNum { bits: sat_u32(s.current_position.0.0.bits + seg.dist.0.bits) as u32 },
            ),
        ),
        current_velocity: seg.speed,
        ..s
    }
}

/// One step of the stream, exactly as `StreamingPlan::next` computes it.
///
/// Idle and waiting states produce nothing and stay put.  Executing, the
/// active plan is stepped: a produced segment is folded into the state;
/// an exhausted plan either starts the pending target (consuming it) and
/// steps again, or, with nothing pending, moves to waiting.
pub open spec fn spec_streaming_next(s: StreamingPlan) -> (StreamingPlan, Option<MotionSegment>)
    decreases (if s.pending_target is Some {
        1int
    } else {
        0int
    }),
{
    match s.phase {
        StreamingPhase::Idle => (s, Option::None),
        StreamingPhase::WaitingForTarget => (s, Option::None),
        StreamingPhase::ExecutingMove => {
            let stepped = match s.current_plan {
                Option::Some(pl) => (
                    StreamingPlan { current_plan: Option::Some(spec_plan_next(pl).0), ..s },
                    spec_plan_next(pl).1,
                ),
                Option::None => (s, Option::None),
            };
            if stepped.1 is Some {
                (spec_stream_fold(stepped.0, stepped.1->0), stepped.1)
            } else {
                match s.pending_target {
                    Option::Some(t) => spec_streaming_next(
                        StreamingPlan {
                            current_plan: Option::Some(
                                Plan::spec_started(
                                    s.current_position,
                                    s.current_velocity,
                                    t,
                                    s.max_accel,
                                ),
                            ),
                            pending_target: Option::None,
                            phase: StreamingPhase::ExecutingMove,
                            ..s
                        },
                    ),
                    Option::None => (
                        StreamingPlan { phase: StreamingPhase::WaitingForTarget, ..stepped.0 },
                        Option::None,
                    ),
                }
            }
        },
    }
}

impl StreamingPlan {
    /// The arithmetic stays well defined: the acceleration is nonzero,
    /// and any active plan shares it.
    pub open spec fn wf(&self) -> bool {
        &&& self.max_accel.0.bits > 0
        &&& (self.current_plan matches Option::Some(p) ==> p.wf())
    }

    pub fn builder() -> (r: StreamingPlanBuilder)
        ensures
            r.start_position.0.0.bits == 0,
            r.max_accel is None,
    {
        StreamingPlanBuilder::default()
    }

    pub fn new(start_position: Coord, max_accel: MillimetersPerSecondSquared) -> (r: StreamingPlan)
        requires
            max_accel.0.bits > 0,
        ensures
            r.wf(),
            r.current_position == start_position,
            r.current_velocity.0.bits == 0,
            r.max_accel == max_accel,
            r.current_plan is None,
            r.pending_target is None,
            r.phase is Idle,
    {
        StreamingPlan {
            current_position: start_position,
            current_velocity: MillimetersPerSecond(UNum::from_bits(0)),
            max_accel,
            current_plan: None,
            pending_target: None,
            phase: StreamingPhase::Idle,
        }
    }

    /// Start executing a move from the current state toward `target`.
    fn start_move_to(&mut self, target: Coord)
        requires
            old(self).wf(),
        ensures
            final(self).wf(),
            final(self).current_plan matches Option::Some(p) && p == Plan::spec_started(
                old(self).current_position,
                old(self).current_velocity,
                target,
                old(self).max_accel,
            ),
            final(self).phase is ExecutingMove,
            final(self).current_position == old(self).current_position,
            final(self).current_velocity == old(self).current_velocity,
            final(self).max_accel == old(self).max_accel,
            final(self).pending_target == old(self).pending_target,
    {
        self.current_plan = Some(
            Plan::new(self.current_position, self.current_velocity, target, self.max_accel),
        );
        self.phase = StreamingPhase::ExecutingMove;
    }

    /// Offer the next target.  Idle or waiting: the move starts at once.
    /// Executing with a free buffer: the target is parked.  Executing
    /// with a parked target: the buffer is full and the caller must wait
    /// for segments to be consumed.
    pub fn add_target(&mut self, target: Coord) -> (r: Result<(), StreamingError>)
        requires
            old(self).wf(),
        ensures
            final(self).wf(),
            match old(self).phase {
                StreamingPhase::Idle | StreamingPhase::WaitingForTarget => {
                    &&& r is Ok
                    &&& final(self).phase is ExecutingMove
                    &&& final(self).current_plan matches Option::Some(p) && p
                        == Plan::spec_started(
                        old(self).current_position,
                        old(self).current_velocity,
                        target,
                        old(self).max_accel,
                    )
                    &&& final(self).pending_target == old(self).pending_target
                },
                StreamingPhase::ExecutingMove => {
                    if old(self).pending_target is Some {
                        r == Result::<(), StreamingError>::Err(StreamingError::BufferFull)
                            && *final(self) == *old(self)
                    } else {
                        r is Ok && *final(self) == (StreamingPlan {
                            pending_target: Option::Some(target),
                            ..*old(self)
                        })
                    }
                },
            },
            final(self).current_position == old(self).current_position,
            final(self).current_velocity == old(self).current_velocity,
            final(self).max_accel == old(self).max_accel,
    {
        match self.phase {
            StreamingPhase::Idle => {
                self.start_move_to(target);
                Ok(())
            },
            StreamingPhase::ExecutingMove => {
                if self.pending_target.is_some() {
                    Err(StreamingError::BufferFull)
                } else {
                    self.pending_target = Some(target);
                    Ok(())
                }
            },
            StreamingPhase::WaitingForTarget => {
                self.start_move_to(target);
                Ok(())
            },
        }
    }

    /// Drop the pending target: no further moves after the current one.
    pub fn finish(&mut self)
        requires
            old(self).wf(),
        ensures
            final(self).wf(),
            *final(self) == (StreamingPlan { pending_target: Option::None, ..*old(self) }),
    {
        self.pending_target = None;
    }

    /// Fold a produced segment back into the streamed state: the position
    /// advances by the segment's magnitude in its direction, saturating,
    /// and the velocity becomes the segment's speed.
    fn update_state_from_segment(&mut self, segment: &MotionSegment)
        requires
            old(self).wf(),
        ensures
            final(self).wf(),
            final(self).current_position.0.0.bits == sat_u32(
                old(self).current_position.0.0.bits + segment.dist.0.bits,
            ),
            final(self).current_velocity == segment.speed,
            final(self).max_accel == old(self).max_accel,
            final(self).current_plan == old(self).current_plan,
            final(self).pending_target == old(self).pending_target,
            final(self).phase == old(self).phase,
    {
        let mag: UNum = segment.dist.0.abs_unum();
        let pos = self.current_position.0.0;
        let newpos = if segment.dist.0.bits >= 0 {
            pos.sat_add(mag)
        } else {
            pos.sat_sub(mag)
        };
        self.current_position = Coord(UMillimeters(newpos));
        self.current_velocity = segment.speed;
    }

    /// Produce the next segment of the stream.
    ///
    /// Takes the next segment from the active plan; when that plan is
    /// exhausted, switches to the pending target if one is parked, else
    /// waits.  Idle and waiting planners produce nothing and do not move.
    /// The result and the state after are exactly [`spec_streaming_next`]
    /// of the state before.
    pub fn next(&mut self) -> (r: Option<MotionSegment>)
        requires
            old(self).wf(),
        ensures
            final(self).wf(),
            *final(self) == spec_streaming_next(*old(self)).0,
            r == spec_streaming_next(*old(self)).1,
            final(self).max_accel == old(self).max_accel,
            old(self).phase is Idle ==> r is None && *final(self) == *old(self),
            old(self).phase is WaitingForTarget ==> r is None && *final(self) == *old(self),
            r matches Option::Some(seg) ==> {
                &&& final(self).phase is ExecutingMove
                &&& final(self).current_velocity == seg.speed
                &&& final(self).current_position.0.0.bits == sat_u32(
                    old(self).current_position.0.0.bits + seg.dist.0.bits,
                )
            },
            r is None ==> final(self).current_position == old(self).current_position
                && final(self).current_velocity == old(self).current_velocity,
        decreases (if old(self).pending_target is Some {
            1int
        } else {
            0int
        }),
    {
        match self.phase {
            StreamingPhase::Idle => None,
            StreamingPhase::WaitingForTarget => None,
            StreamingPhase::ExecutingMove => {
                match self.current_plan {
                    Some(mut plan) => {
                        let seg = plan.next();
                        self.current_plan = Some(plan);
                        match seg {
                            Some(segment) => {
                                self.update_state_from_segment(&segment);
                                return Some(segment);
                            },
                            None => {},
                        }
                    },
                    None => {},
                }
                match self.pending_target {
                    Some(next_target) => {
                        self.pending_target = None;
                        self.start_move_to(next_target);
                        self.next()
                    },
                    None => {
                        self.phase = StreamingPhase::WaitingForTarget;
                        None
                    },
                }
            },
        }
    }
}

impl Plan {
    /// The plan `Plan::new` sets up, as a value.
    pub open spec fn spec_started(
        position: Coord,
        velocity: MillimetersPerSecond,
        target: Coord,
        accel: MillimetersPerSecondSquared,
    ) -> Plan {
        let c = position.0.0.bits as int;
        let t = target.0.0.bits as int;
        let d = if t >= c {
            t - c
        } else {
            c - t
        };
        let cruise = spec_cruise_velocity(velocity.0.bits as int, d, accel.0.bits as int);
        Plan {
            current_position: position,
            current_velocity: velocity,
            target_position: target,
            max_accel: accel,
            phase: spec_initial_phase(velocity.0.bits as int, cruise),
            cruise_velocity: MillimetersPerSecond(UNum { bits: cruise as u32 }),
        }
    }
}

} // verus!
