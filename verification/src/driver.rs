//! The multi-axis stepper driver, as a verified decision layer.
//!
//! The hardware side of the driver owns three pulse-generator state
//! machines, a direction pin per axis and a shared sleep pin.  What is
//! verifiable about it is the arithmetic and the decisions: how a speed
//! becomes a per-step sleep count, which direction each axis is driven,
//! which words are pushed into each generator's FIFO, and how the
//! configured program and sleep state evolve.  This module computes those
//! as plain values; the unverified shell applies them to the pins and
//! FIFOs exactly as given.

use vstd::prelude::*;

verus! {

/// One pulse-generator cycle is 2 microseconds, so this many cycles pass
/// per second.
pub const PIO_TARGET_HZ: u32 = 500_000;

/// Instructions of fixed overhead per loop of the pulse program.
pub const LOOP_OVERHEAD: u32 = 4;

/// A stepping rate in motor steps per second.
#[derive(Clone, Copy, Debug, PartialEq, Eq, Structural)]
pub struct StepsPerSecond(pub u32);

/// Sleep cycles per step for a stepping rate: `500000 / n`, less the loop
/// overhead, clipped at zero.  A zero rate maps to a large safe count so
/// an idle axis never divides by zero (it pushes zero steps anyway).
pub open spec fn spec_sleep_cycles(n: u32) -> int {
    if n == 0 {
        PIO_TARGET_HZ as int
    } else {
        let q = PIO_TARGET_HZ as int / n as int;
        if q >= LOOP_OVERHEAD {
            q - LOOP_OVERHEAD
        } else {
            0
        }
    }
}

impl StepsPerSecond {
    /// The per-step sleep count the pulse program is given for this rate.
    pub fn to_sleep_cyles_per_step(self) -> (r: u32)
        ensures
            r == spec_sleep_cycles(self.0),
    {
        if self.0 == 0 {
            return PIO_TARGET_HZ;
        }
        let q = PIO_TARGET_HZ / self.0;
        if q >= LOOP_OVERHEAD {
            q - LOOP_OVERHEAD
        } else {
            0
        }
    }
}

/// Which pulse program the three state machines are configured with.
#[derive(Clone, Copy, Debug, PartialEq, Eq, Structural)]
pub enum ConfiguredProgram {
    /// Run toward the zero-limit switch until it asserts.
    Home,
    /// Emit a counted number of steps, then interrupt.
    Steps,
}

/// What one axis is told for a counted move: the direction-pin level to
/// set (None leaves it unchanged), then the two words pushed to its FIFO.
#[derive(Clone, Copy, Debug, PartialEq, Eq, Structural)]
pub struct AxisMove {
    pub dir_high: Option<bool>,
    pub steps_word: u32,
    pub sleeps_word: u32,
}

/// What one axis is told for homing: `None` for axes without a zero-limit
/// switch (they stay still, direction untouched); for homing axes, the
/// direction-pin level (always low, toward the switch) and the sleep word
/// pushed to its FIFO.
#[derive(Clone, Copy, Debug, PartialEq, Eq, Structural)]
pub struct AxisHome {
    pub dir_high: Option<bool>,
    pub sleeps_word: Option<u32>,
}

/// The driver's controllable state, plus the per-axis zero-limit wiring.
pub struct Driver {
    /// Which program the state machines hold; `None` until first use.
    pub configured_program: Option<ConfiguredProgram>,
    /// Whether the shared (active-low) sleep pin holds the motors asleep.
    pub sleeping: bool,
    /// Which axes have a zero-limit switch (on this machine: X and Z).
    pub has_zero_limit: [bool; 3],
}

/// The magnitude of a step count as an unsigned word.
pub fn steps_magnitude(steps: i32) -> (r: u32)
    ensures
        r == (if steps < 0 {
            -(steps as int)
        } else {
            steps as int
        }),
{
    if steps < 0 {
        (-(steps as i64)) as u32
    } else {
        steps as u32
    }
}

/// The direction-pin level for a signed step count: unchanged when zero.
pub fn direction_for(steps: i32) -> (r: Option<bool>)
    ensures
        r == (if steps > 0 {
            Option::Some(true)
        } else if steps < 0 {
            Option::Some(false)
        } else {
            Option::<bool>::None
        }),
{
    if steps > 0 {
        Some(true)
    } else if steps < 0 {
        Some(false)
    } else {
        None
    }
}

impl Driver {
    /// A fresh driver: no program configured yet, motors asleep (the
    /// sleep pin starts low, which holds the drivers in sleep).
    pub fn new(has_zero_limit: [bool; 3]) -> (r: Driver)
        ensures
            r.configured_program is None,
            r.sleeping,
            r.has_zero_limit == has_zero_limit,
    {
        Driver { configured_program: None, sleeping: true, has_zero_limit }
    }

    /// Select a program; a no-op when it is already configured.
    pub fn configure_pio(&mut self, which_program: ConfiguredProgram) -> (reconfigured: bool)
        ensures
            final(self).configured_program == Option::Some(which_program),
            final(self).sleeping == old(self).sleeping,
            final(self).has_zero_limit == old(self).has_zero_limit,
            reconfigured == (old(self).configured_program != Option::Some(which_program)),
    {
        match self.configured_program {
            Some(p) if p == which_program => false,
            _ => {
                self.configured_program = Some(which_program);
                true
            },
        }
    }

    /// Drive or release the shared sleep pin.
    pub fn set_sleep(&mut self, sleep: bool)
        ensures
            final(self).sleeping == sleep,
            final(self).configured_program == old(self).configured_program,
            final(self).has_zero_limit == old(self).has_zero_limit,
    {
        self.sleeping = sleep;
    }

    /// A counted move over all three axes: configure the step program,
    /// set each direction pin from its sign, and push `(|steps|, sleeps)`
    /// per axis.  All three generators are then started in one batch so
    /// the axes begin together, and joined on all three interrupts.
    pub fn do_move(&mut self, steps: [i32; 3], speeds: [StepsPerSecond; 3]) -> (r: [AxisMove; 3])
        ensures
            final(self).configured_program == Option::Some(ConfiguredProgram::Steps),
            final(self).sleeping == old(self).sleeping,
            final(self).has_zero_limit == old(self).has_zero_limit,
            forall|i: int|
                0 <= i < 3 ==> #[trigger] r@[i] == (AxisMove {
                    dir_high: if steps@[i] > 0 {
                        Option::Some(true)
                    } else if steps@[i] < 0 {
                        Option::Some(false)
                    } else {
                        Option::None
                    },
                    steps_word: (if steps@[i] < 0 {
                        -(steps@[i] as int)
                    } else {
                        steps@[i] as int
                    }) as u32,
                    sleeps_word: spec_sleep_cycles(speeds@[i].0) as u32,
                }),
    {
        self.configure_pio(ConfiguredProgram::Steps);
        let m0 = AxisMove {
            dir_high: direction_for(steps[0]),
            steps_word: steps_magnitude(steps[0]),
            sleeps_word: speeds[0].to_sleep_cyles_per_step(),
        };
        let m1 = AxisMove {
            dir_high: direction_for(steps[1]),
            steps_word: steps_magnitude(steps[1]),
            sleeps_word: speeds[1].to_sleep_cyles_per_step(),
        };
        let m2 = AxisMove {
            dir_high: direction_for(steps[2]),
            steps_word: steps_magnitude(steps[2]),
            sleeps_word: speeds[2].to_sleep_cyles_per_step(),
        };
        let r = [m0, m1, m2];
        proof {
            assert(r@[0] == m0 && r@[1] == m1 && r@[2] == m2);
        }
        r
    }

    /// Home: configure the homing program; every axis with a zero-limit
    /// switch is driven low toward it at its given speed and its sleep
    /// word is pushed; axes without a switch stay untouched.
    pub fn home(&mut self, speeds: [StepsPerSecond; 3]) -> (r: [AxisHome; 3])
        ensures
            final(self).configured_program == Option::Some(ConfiguredProgram::Home),
            final(self).sleeping == old(self).sleeping,
            final(self).has_zero_limit == old(self).has_zero_limit,
            forall|i: int|
                0 <= i < 3 ==> #[trigger] r@[i] == (AxisHome {
                    dir_high: if old(self).has_zero_limit@[i] {
                        Option::Some(false)
                    } else {
                        Option::<bool>::None
                    },
                    sleeps_word: if old(self).has_zero_limit@[i] {
                        Option::Some(spec_sleep_cycles(speeds@[i].0) as u32)
                    } else {
                        Option::<u32>::None
                    },
                }),
    {
        self.configure_pio(ConfiguredProgram::Home);
        let h0 = AxisHome {
            dir_high: if self.has_zero_limit[0] {
                Some(false)
            } else {
                None
            },
            sleeps_word: if self.has_zero_limit[0] {
                Some(speeds[0].to_sleep_cyles_per_step())
            } else {
                None
            },
        };
        let h1 = AxisHome {
            dir_high: if self.has_zero_limit[1] {
                Some(false)
            } else {
                None
            },
            sleeps_word: if self.has_zero_limit[1] {
                Some(speeds[1].to_sleep_cyles_per_step())
            } else {
                None
            },
        };
        let h2 = AxisHome {
            dir_high: if self.has_zero_limit[2] {
                Some(false)
            } else {
                None
            },
            sleeps_word: if self.has_zero_limit[2] {
                Some(speeds[2].to_sleep_cyles_per_step())
            } else {
                None
            },
        };
        let r = [h0, h1, h2];
        proof {
            assert(r@[0] == h0 && r@[1] == h1 && r@[2] == h2);
        }
        r
    }
}

} // verus!
