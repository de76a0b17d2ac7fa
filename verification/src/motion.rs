//! The motion planner: from commands to per-axis steps and speeds.
//!
//! The planner owns the machine state (homed flag, feedrate, position per
//! axis, the immutable axis configuration) and turns each command into its
//! effect: a sleep-pin change, a dwell, a homing run, or a counted move.
//! For moves it computes the per-axis step counts - the step count is the
//! nearest integer to `distance * 1000 / microns_per_step` (or
//! `distance * 360 / degrees_per_step` on a rotary axis), clipped to
//! `i32` - and decomposes the feedrate over the moving axes.

use vstd::prelude::*;

use crate::driver::StepsPerSecond;
use crate::fixnum::{
    fx_add, fx_div, fx_mul, fx_sqrt, lemma_sqrt_floor_at_least, sat_i32, sat_u32, INum, UNum,
};
use crate::gcode::{Command, CommandModel, PosModel, UCoord};
use crate::movement::StreamingPlan;
use crate::units::{
    DegreesPerStep, MicronsPerStep, MillimetersPerSecond, MillimetersPerSecondSquared,
};

verus! {

/// What an axis measures: travel in millimetres, or spindle rotations.
#[derive(Clone, Copy, Debug, PartialEq, Eq, Structural)]
pub enum AxisUnit {
    Millimeters,
    Rotations,
}

/// The immutable configuration of one axis.
#[derive(Clone, Copy, Debug, PartialEq, Eq, Structural)]
pub struct Axis {
    pub microns_per_step: MicronsPerStep,
    pub degrees_per_step: DegreesPerStep,
    pub unit: AxisUnit,
    pub max_accel: MillimetersPerSecondSquared,
}

/// The homing speed for distance axes, in fixed-point mm/s (120 mm/s).
pub const HOME_SPEED_BITS: u32 = 122880;

/// Signed distance between two coordinates, clipped to the signed range.
pub fn diff(coord1: UCoord, coord2: UCoord) -> (r: INum)
    ensures
        r.bits == sat_i32(coord1.bits - coord2.bits),
{
    if coord1.bits > coord2.bits {
        coord1.sat_sub(coord2).cast_signed_sat()
    } else {
        coord2.sat_sub(coord1).cast_signed_sat().sat_neg()
    }
}

/// A speed in mm/s as whole steps per second on an axis with the given
/// resolution: `floor(mm_s * 1000 / microns_per_step)` in fixed point.
pub open spec fn spec_from_speeds(f: int, mu: int) -> int {
    fx_div(fx_mul(f, 1024000), mu) / 1024
}

impl StepsPerSecond {
    /// Convert a feedrate to a stepping rate for an axis resolution.
    pub fn from_speeds(speed: MillimetersPerSecond, microns_per_step: MicronsPerStep) -> (r:
        StepsPerSecond)
        requires
            microns_per_step.0.bits > 0,
        ensures
            r.0 == spec_from_speeds(speed.0.bits as int, microns_per_step.0.bits as int),
    {
        let microns = speed.0.sat_mul(UNum::from_num(1000));
        let steps = microns.div_floor(microns_per_step.0);
        StepsPerSecond(steps.to_int_floor())
    }
}

/// The step count for a signed fixed-point distance on an axis: the
/// distance scaled by 1000 microns/mm (or 360 degrees/rotation) over the
/// per-step resolution, rounded to the nearest whole step, clipped to
/// `i32`, keeping the distance's sign.
pub open spec fn spec_steps_for(d: int, ax: Axis) -> int {
    let scale: int = if ax.unit is Millimeters {
        1000
    } else {
        360
    };
    let per: int = if ax.unit is Millimeters {
        ax.microns_per_step.0.bits as int
    } else {
        ax.degrees_per_step.0.bits as int
    };
    let a: int = if d < 0 {
        -d
    } else {
        d
    };
    let mag = (2 * scale * a + per) / (2 * per);
    let lim = if mag > i32::MAX {
        i32::MAX as int
    } else {
        mag
    };
    if d < 0 {
        -lim
    } else {
        lim
    }
}

/// Compute the whole steps for a signed distance on one axis.
pub fn steps_for_axis(d: INum, ax: &Axis) -> (r: i32)
    requires
        ax.microns_per_step.0.bits > 0,
        ax.degrees_per_step.0.bits > 0,
    ensures
        r == spec_steps_for(d.bits as int, *ax),
        d.bits == 0 ==> r == 0,
{
    let scale: u64 = match ax.unit {
        AxisUnit::Millimeters => 1000,
        AxisUnit::Rotations => 360,
    };
    let per: u64 = match ax.unit {
        AxisUnit::Millimeters => ax.microns_per_step.0.bits as u64,
        AxisUnit::Rotations => ax.degrees_per_step.0.bits as u64,
    };
    let a: u64 = d.unsigned_abs() as u64;
    proof {
        assert((scale as int) * (a as int) <= 1000 * 0x80000000int) by (nonlinear_arith)
            requires
                0 <= scale <= 1000,
                0 <= a <= 0x80000000u64,
        ;
    }
    let sa: u64 = scale * a;
    let mag: u64 = (2 * sa + per) / (2 * per);
    let lim: i32 = if mag > i32::MAX as u64 {
        i32::MAX
    } else {
        mag as i32
    };
    proof {
        assert(2 * (sa as int) == 2 * (scale as int) * (a as int)) by (nonlinear_arith)
            requires
                sa == (scale as int) * (a as int),
        ;
        if d.bits == 0 {
            assert(sa == 0) by (nonlinear_arith)
                requires
                    a == 0,
                    sa == (scale as int) * (a as int),
            ;
            assert(2 * sa + per < 2 * per);
            vstd::arithmetic::div_mod::lemma_basic_div((2 * sa + per) as int, (2 * per) as int);
            assert(mag == 0);
        }
    }
    if d.bits < 0 {
        -lim
    } else {
        lim
    }
}

/// The per-axis speeds for a move, following the lathe's feedrate rules.
///
/// With the rotary axis still: a single moving distance axis takes the
/// whole feedrate; a diagonal X-Z move splits it by `1 / sqrt(1 + r^2)`
/// with `r` the ratio of the two distances.  With the rotary axis moving,
/// it takes the feedrate and the distance axes are scaled so all axes
/// finish together; degenerate cases (a zero rotary speed or step count)
/// quiesce or saturate the distance axes.
pub open spec fn spec_move_speeds(
    d0: int,
    d1: int,
    d2: int,
    s0: int,
    s1: int,
    s2: int,
    f: int,
    ax0: Axis,
    ax1: Axis,
    ax2: Axis,
) -> (int, int, int) {
    let a0 = if d0 < 0 {
        -d0
    } else {
        d0
    };
    let a1 = if d1 < 0 {
        -d1
    } else {
        d1
    };
    if d2 == 0 {
        if d1 == 0 {
            (spec_from_speeds(f, ax0.microns_per_step.0.bits as int), 0, 0)
        } else if d0 == 0 {
            (0, spec_from_speeds(f, ax1.microns_per_step.0.bits as int), 0)
        } else {
            let zx = fx_div(a1, a0);
            let xf = fx_div(f, fx_sqrt(fx_add(fx_mul(zx, zx), 1024)));
            let xz = fx_div(a0, a1);
            let zf = fx_div(f, fx_sqrt(fx_add(fx_mul(xz, xz), 1024)));
            (
                spec_from_speeds(xf, ax0.microns_per_step.0.bits as int),
                spec_from_speeds(zf, ax1.microns_per_step.0.bits as int),
                0,
            )
        }
    } else {
        let c = spec_from_speeds(f, ax2.microns_per_step.0.bits as int);
        let s2a = if s2 < 0 {
            -s2
        } else {
            s2
        };
        if c == 0 || s2a == 0 {
            (0, 0, c)
        } else {
            let dur = fx_div(sat_u32(s2a * 1024), sat_u32(c * 1024));
            if dur == 0 {
                (u32::MAX as int, u32::MAX as int, c)
            } else {
                let s0a = if s0 < 0 {
                    -s0
                } else {
                    s0
                };
                let s1a = if s1 < 0 {
                    -s1
                } else {
                    s1
                };
                (
                    fx_div(sat_u32(s0a * 1024), dur) / 1024,
                    fx_div(sat_u32(s1a * 1024), dur) / 1024,
                    c,
                )
            }
        }
    }
}

/// Compute the per-axis speeds for a move.
pub fn move_speeds(
    d0: INum,
    d1: INum,
    d2: INum,
    s0: i32,
    s1: i32,
    s2: i32,
    f: MillimetersPerSecond,
    ax0: &Axis,
    ax1: &Axis,
    ax2: &Axis,
) -> (r: (StepsPerSecond, StepsPerSecond, StepsPerSecond))
    requires
        ax0.microns_per_step.0.bits > 0,
        ax1.microns_per_step.0.bits > 0,
        ax2.microns_per_step.0.bits > 0,
    ensures
        ({
            let (x, z, c) = spec_move_speeds(
                d0.bits as int,
                d1.bits as int,
                d2.bits as int,
                s0 as int,
                s1 as int,
                s2 as int,
                f.0.bits as int,
                *ax0,
                *ax1,
                *ax2,
            );
            r.0.0 == x && r.1.0 == z && r.2.0 == c
        }),
{
    if d2.is_zero() {
        if d1.is_zero() {
            (
                StepsPerSecond::from_speeds(f, ax0.microns_per_step),
                StepsPerSecond(0),
                StepsPerSecond(0),
            )
        } else if d0.is_zero() {
            (
                StepsPerSecond(0),
                StepsPerSecond::from_speeds(f, ax1.microns_per_step),
                StepsPerSecond(0),
            )
        } else {
            let a0 = d0.abs_unum();
            let a1 = d1.abs_unum();
            let zx = a1.div_floor(a0);
            let xarg = zx.sat_mul(zx).sat_add(UNum::from_num(1));
            proof {
                lemma_sqrt_floor_at_least((xarg.bits * 1024) as nat, 1024);
            }
            let xden = xarg.sqrt();
            let x_fr = f.0.div_floor(xden);
            let xz = a0.div_floor(a1);
            let zarg = xz.sat_mul(xz).sat_add(UNum::from_num(1));
            proof {
                lemma_sqrt_floor_at_least((zarg.bits * 1024) as nat, 1024);
            }
            let zden = zarg.sqrt();
            let z_fr = f.0.div_floor(zden);
            (
                StepsPerSecond::from_speeds(MillimetersPerSecond(x_fr), ax0.microns_per_step),
                StepsPerSecond::from_speeds(MillimetersPerSecond(z_fr), ax1.microns_per_step),
                StepsPerSecond(0),
            )
        }
    } else {
        let c_speed = StepsPerSecond::from_speeds(f, ax2.microns_per_step);
        let s2a = crate::driver::steps_magnitude(s2);
        if c_speed.0 == 0 || s2a == 0 {
            (StepsPerSecond(0), StepsPerSecond(0), c_speed)
        } else {
            let dur = UNum::from_num(s2a).div_floor(UNum::from_num(c_speed.0));
            if dur.bits == 0 {
                (StepsPerSecond(u32::MAX), StepsPerSecond(u32::MAX), c_speed)
            } else {
                let s0a = crate::driver::steps_magnitude(s0);
                let s1a = crate::driver::steps_magnitude(s1);
                let x = UNum::from_num(s0a).div_floor(dur).to_int_floor();
                let z = UNum::from_num(s1a).div_floor(dur).to_int_floor();
                (StepsPerSecond(x), StepsPerSecond(z), c_speed)
            }
        }
    }
}

/// One reserved streaming planner per axis.
pub struct MovementPlans(pub Vec<StreamingPlan>);

impl MovementPlans {
    /// A planner per axis, each starting at the origin at rest with its
    /// axis's maximum acceleration.
    pub fn new(axes: &[Axis; 3]) -> (r: MovementPlans)
        requires
            forall|i: int| 0 <= i < 3 ==> #[trigger] axes@[i].max_accel.0.bits > 0,
        ensures
            r.0.len() == 3,
            forall|i: int|
                0 <= i < 3 ==> {
                    let p = #[trigger] r.0@[i];
                    &&& p.max_accel == axes@[i].max_accel
                    &&& p.wf()
                    &&& p.phase is Idle
                    &&& p.current_position.0.0.bits == 0
                    &&& p.current_velocity.0.bits == 0
                    &&& p.current_plan is None
                    &&& p.pending_target is None
                },
    {
        let mut plans: Vec<StreamingPlan> = Vec::new();
        plans.push(StreamingPlan::builder().max_accel(axes[0].max_accel).build());
        plans.push(StreamingPlan::builder().max_accel(axes[1].max_accel).build());
        plans.push(StreamingPlan::builder().max_accel(axes[2].max_accel).build());
        MovementPlans(plans)
    }
}

/// The effect a command asks of the hardware, as plain values.
#[derive(Clone, Copy, Debug)]
pub enum MotionEffect {
    /// Nothing to do.
    NoEffect,
    /// Drive the shared sleep pin.
    SetSleep(bool),
    /// Suspend for this many milliseconds before completing.
    Dwell(u64),
    /// Run the homing program at these per-axis speeds.
    Home([StepsPerSecond; 3]),
    /// Execute a counted move.
    Move { steps: [i32; 3], speeds: [StepsPerSecond; 3] },
}

/// The target coordinate bits an axis ends at: the commanded coordinate
/// when present, else the current one.
pub open spec fn spec_target_bits(p: PosModel, cur: int, i: int) -> int {
    if p[i] is Some {
        p[i]->0
    } else {
        cur
    }
}

/// The signed move distance bits for an axis; the rotary axis (index 2)
/// is negated by wiring convention.
pub open spec fn spec_dist_bits(p: PosModel, cur: int, i: int) -> int {
    let base = if p[i] is Some {
        sat_i32(p[i]->0 - cur)
    } else {
        0
    };
    if i == 2 {
        sat_i32(-base)
    } else {
        base
    }
}

/// The machine state the motion task owns.
pub struct State {
    /// False at boot and after disabling the steppers, until homing completes.
    pub is_homed: bool,
    /// The last feedrate seen; defaults to 1 mm/s.
    pub feedrate: MillimetersPerSecond,
    /// The current machine position per axis.
    pub position: [UCoord; 3],
    /// Reserved per-axis streaming planners.
    pub movement_plans: MovementPlans,
    /// The immutable axis configuration.
    pub axes: [Axis; 3],
}

impl State {
    /// The axis configuration keeps every divisor nonzero.
    pub open spec fn wf(&self) -> bool {
        forall|i: int|
            0 <= i < 3 ==> {
                &&& (#[trigger] self.axes@[i]).microns_per_step.0.bits > 0
                &&& self.axes@[i].degrees_per_step.0.bits > 0
                &&& self.axes@[i].max_accel.0.bits > 0
            }
    }

    /// Boot state: not homed, at the origin, feedrate 1 mm/s.
    pub fn new(axes: [Axis; 3]) -> (r: State)
        requires
            forall|i: int|
                0 <= i < 3 ==> {
                    &&& (#[trigger] axes@[i]).microns_per_step.0.bits > 0
                    &&& axes@[i].degrees_per_step.0.bits > 0
                    &&& axes@[i].max_accel.0.bits > 0
                },
        ensures
            r.wf(),
            !r.is_homed,
            r.feedrate.0.bits == 1024,
            forall|i: int| 0 <= i < 3 ==> (#[trigger] r.position@[i]).bits == 0,
            r.axes == axes,
    {
        let movement_plans = MovementPlans::new(&axes);
        State {
            is_homed: false,
            feedrate: MillimetersPerSecond(UNum::from_num(1)),
            position: [UNum::from_bits(0), UNum::from_bits(0), UNum::from_bits(0)],
            movement_plans,
            axes,
        }
    }

    /// The homing speed per axis: distance axes home at 120 mm/s, rotary
    /// axes cannot home and are given zero speed.
    pub open spec fn spec_home_speed(&self, i: int) -> int {
        if self.axes@[i].unit is Millimeters {
            spec_from_speeds(HOME_SPEED_BITS as int, self.axes@[i].microns_per_step.0.bits as int)
        } else {
            0
        }
    }

    fn home_speed_for(&self, i: usize) -> (r: StepsPerSecond)
        requires
            self.wf(),
            i < 3,
        ensures
            r.0 == self.spec_home_speed(i as int),
    {
        match self.axes[i].unit {
            AxisUnit::Millimeters => StepsPerSecond::from_speeds(
                MillimetersPerSecond(UNum::from_bits(HOME_SPEED_BITS)),
                self.axes[i].microns_per_step,
            ),
            AxisUnit::Rotations => StepsPerSecond(0),
        }
    }

    /// Apply one command to the state and say what the hardware must do
    /// and whether a completion is owed.
    ///
    /// Every command completes (and owes a `done`) except stop, which the
    /// network side acknowledges itself.  A move updates the feedrate
    /// from the `F` word, commits each commanded axis to its target, and
    /// turns the per-axis distances into step counts and speeds; an axis
    /// that is not commanded, or whose target equals its position, gets
    /// exactly zero steps.  A dwell's effect carries the full requested
    /// duration: the shell must wait at least that long before it
    /// publishes the completion, so the host sees the delay between the
    /// ack and the done (wall-clock time itself is outside this crate).
    pub fn apply_command(&mut self, command: &Command) -> (r: (MotionEffect, bool))
        requires
            old(self).wf(),
            command@ matches CommandModel::RapidMove(pm) ==> pm.len() == 4,
            command@ matches CommandModel::LinearMove(pm) ==> pm.len() == 4,
        ensures
            final(self).wf(),
            final(self).axes == old(self).axes,
            match command@ {
                CommandModel::Stop => r.0 is NoEffect && r.1 == false && *final(self) == *old(
                    self,
                ),
                CommandModel::Dwell(ms) => r.0 == MotionEffect::Dwell(ms as u64) && r.1 == true
                    && *final(self) == *old(self),
                CommandModel::EnableAllSteppers => r.0 == MotionEffect::SetSleep(false) && r.1
                    == true && *final(self) == *old(self),
                CommandModel::DisableAllSteppers => {
                    &&& r.0 == MotionEffect::SetSleep(true) && r.1 == true
                    &&& !final(self).is_homed
                    &&& forall|i: int| 0 <= i < 3 ==> (#[trigger] final(self).position@[i]).bits == 0
                    &&& final(self).feedrate == old(self).feedrate
                },
                CommandModel::Home => {
                    &&& r.1 == true
                    &&& final(self).is_homed
                    &&& forall|i: int| 0 <= i < 3 ==> (#[trigger] final(self).position@[i]).bits == 0
                    &&& final(self).feedrate == old(self).feedrate
                    &&& r.0 matches MotionEffect::Home(sp) && (forall|i: int|
                        0 <= i < 3 ==> (#[trigger] sp@[i]).0 == old(self).spec_home_speed(i))
                },
                CommandModel::Park(_) => r.0 is NoEffect && r.1 == true && *final(self) == *old(
                    self,
                ),
                CommandModel::GetCurrentPosition => r.0 is NoEffect && r.1 == true && *final(self)
                    == *old(self),
                CommandModel::RapidMove(pm) | CommandModel::LinearMove(pm) => {
                    let fbits = if pm[3] is Some {
                        pm[3]->0
                    } else {
                        old(self).feedrate.0.bits as int
                    };
                    &&& r.1 == true
                    &&& final(self).is_homed == old(self).is_homed
                    &&& final(self).feedrate.0.bits == fbits
                    &&& forall|i: int|
                        0 <= i < 3 ==> (#[trigger] final(self).position@[i]).bits
                            == spec_target_bits(pm, old(self).position@[i].bits as int, i)
                    &&& r.0 matches MotionEffect::Move { steps, speeds } && {
                        let d0 = spec_dist_bits(pm, old(self).position@[0].bits as int, 0);
                        let d1 = spec_dist_bits(pm, old(self).position@[1].bits as int, 1);
                        let d2 = spec_dist_bits(pm, old(self).position@[2].bits as int, 2);
                        &&& (forall|i: int|
                            0 <= i < 3 ==> #[trigger] steps@[i] == spec_steps_for(
                                spec_dist_bits(pm, old(self).position@[i].bits as int, i),
                                old(self).axes@[i],
                            ))
                        &&& (forall|i: int|
                            0 <= i < 3 && pm[i] is Some && pm[i]->0 == old(
                                self,
                            ).position@[i].bits as int ==> #[trigger] steps@[i] == 0)
                        &&& (forall|i: int|
                            0 <= i < 3 && pm[i] is None ==> #[trigger] steps@[i] == 0)
                        &&& ({
                            let (x, z, c) = spec_move_speeds(
                                d0,
                                d1,
                                d2,
                                steps@[0] as int,
                                steps@[1] as int,
                                steps@[2] as int,
                                fbits,
                                old(self).axes@[0],
                                old(self).axes@[1],
                                old(self).axes@[2],
                            );
                            speeds@[0].0 == x && speeds@[1].0 == z && speeds@[2].0 == c
                        })
                    }
                },
            },
    {
        match command {
            Command::Stop => (MotionEffect::NoEffect, false),
            Command::Dwell(ms) => (MotionEffect::Dwell(*ms), true),
            Command::EnableAllSteppers => (MotionEffect::SetSleep(false), true),
            Command::DisableAllSteppers => {
                self.is_homed = false;
                self.position = [UNum::from_bits(0), UNum::from_bits(0), UNum::from_bits(0)];
                (MotionEffect::SetSleep(true), true)
            },
            Command::Home => {
                let sp = [self.home_speed_for(0), self.home_speed_for(1), self.home_speed_for(2)];
                self.is_homed = true;
                self.position = [UNum::from_bits(0), UNum::from_bits(0), UNum::from_bits(0)];
                proof {
                    assert(sp@[0] == sp[0int] && sp@[1] == sp[1int] && sp@[2] == sp[2int]);
                }
                (MotionEffect::Home(sp), true)
            },
            Command::Park(_) => (MotionEffect::NoEffect, true),
            Command::GetCurrentPosition => (MotionEffect::NoEffect, true),
            Command::RapidMove(target_pos) | Command::LinearMove(target_pos) => {
                let ghost pm = target_pos@;
                proof {
                    assert(pm.len() == 4);
                    assert(target_pos.0.len() == 4);
                }
                match target_pos.0[3] {
                    Some(fr) => {
                        self.feedrate = MillimetersPerSecond(fr);
                    },
                    None => {},
                }
                let p0 = self.position[0];
                let p1 = self.position[1];
                let p2 = self.position[2];
                let (np0, d0): (UCoord, INum) = match target_pos.0[0] {
                    Some(t) => (t, diff(t, p0)),
                    None => (p0, INum::zero()),
                };
                let (np1, d1): (UCoord, INum) = match target_pos.0[1] {
                    Some(t) => (t, diff(t, p1)),
                    None => (p1, INum::zero()),
                };
                let (np2, d2raw): (UCoord, INum) = match target_pos.0[2] {
                    Some(t) => (t, diff(t, p2)),
                    None => (p2, INum::zero()),
                };
                let d2 = d2raw.sat_neg();
                self.position = [np0, np1, np2];
                let s0 = steps_for_axis(d0, &self.axes[0]);
                let s1 = steps_for_axis(d1, &self.axes[1]);
                let s2 = steps_for_axis(d2, &self.axes[2]);
                let (x, z, c) = move_speeds(
                    d0,
                    d1,
                    d2,
                    s0,
                    s1,
                    s2,
                    self.feedrate,
                    &self.axes[0],
                    &self.axes[1],
                    &self.axes[2],
                );
                let steps = [s0, s1, s2];
                let speeds = [x, z, c];
                proof {
                    assert(steps@[0] == s0 && steps@[1] == s1 && steps@[2] == s2);
                    assert(speeds@[0] == x && speeds@[1] == z && speeds@[2] == c);
                    assert(self.position@[0] == np0 && self.position@[1] == np1
                        && self.position@[2] == np2);
                    assert(pm[0] == target_pos.0@.map_values(
                        |o: Option<UCoord>|
                            match o {
                                Option::Some(u) => Option::Some(u.bits as int),
                                Option::None => Option::None,
                            },
                    )[0]);
                    assert(d0.bits as int == spec_dist_bits(pm, old(self).position@[0].bits as int, 0));
                    assert(d1.bits as int == spec_dist_bits(pm, old(self).position@[1].bits as int, 1));
                    assert(d2.bits as int == spec_dist_bits(pm, old(self).position@[2].bits as int, 2));
                }
                (MotionEffect::Move { steps, speeds }, true)
            },
        }
    }
}

} // verus!
