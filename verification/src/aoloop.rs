//! The control loop: acquire, measure, compute, apply, commit.
//!
//! The loop core is a state machine over plain values.  The surrounding
//! application owns the acquisition sources and the execution context; each
//! cycle it captures one frame per source, then drives the four stages
//! here: `sense`, `control`, `apply` and `commit_iteration`.  The iteration
//! counter advances exactly once per committed cycle and never otherwise,
//! and telemetry slots carry the committing iteration's sequence number.

use vstd::prelude::*;
use vstd::string::StringExecFns;

use crate::controller::{meas_in_range, spec_new_command, step_in_range, IntegratorController};
use crate::error::AoError;
use crate::fakedm::DM;
use crate::frame::Frame;
use crate::report::{dec_digits, push_decimal};
use crate::telemetry::{spec_published, TelemetryRing};
use crate::wfs::ShackHartmann;

verus! {

/// Depth of each telemetry ring.
pub const TELEMETRY_DEPTH: usize = 8;

/// Sum capped at the largest representable value.
pub open spec fn spec_sat_add(a: u64, b: u64) -> u64 {
    if a + b <= u64::MAX {
        (a + b) as u64
    } else {
        u64::MAX
    }
}

/// Saturating addition of two nanosecond counts.
fn sat_add(a: u64, b: u64) -> (r: u64)
    ensures
        r == spec_sat_add(a, b),
{
    if a > u64::MAX - b {
        u64::MAX
    } else {
        a + b
    }
}

/// Running sums of per-stage latencies, in nanoseconds, accumulated over
/// all committed iterations.
#[derive(Debug)]
pub struct LoopTimers {
    pub total_time: u64,
    pub cam_time: u64,
    pub wfs_time: u64,
    pub ctrl_time: u64,
    pub dm_time: u64,
}

/// The timers after recording one iteration's stage times.
pub open spec fn spec_recorded(
    t: LoopTimers,
    cam_ns: u64,
    wfs_ns: u64,
    ctrl_ns: u64,
    dm_ns: u64,
    total_ns: u64,
) -> LoopTimers {
    LoopTimers {
        total_time: spec_sat_add(t.total_time, total_ns),
        cam_time: spec_sat_add(t.cam_time, cam_ns),
        wfs_time: spec_sat_add(t.wfs_time, wfs_ns),
        ctrl_time: spec_sat_add(t.ctrl_time, ctrl_ns),
        dm_time: spec_sat_add(t.dm_time, dm_ns),
    }
}

/// The rendered timer report, one line per stage.
pub open spec fn spec_timer_report(t: LoopTimers) -> Seq<char> {
    "Total Time:      "@ + dec_digits(t.total_time as int) + " ns\n"@
        + "Camera Time:     "@ + dec_digits(t.cam_time as int) + " ns\n"@
        + "WFS Time:        "@ + dec_digits(t.wfs_time as int) + " ns\n"@
        + "Controller Time: "@ + dec_digits(t.ctrl_time as int) + " ns\n"@
        + "DM Time:         "@ + dec_digits(t.dm_time as int) + " ns\n"@
}

/// The per-iteration section of the loop report, for a nonzero iteration
/// count `n`: each stage's running sum divided by `n`.
pub open spec fn spec_average_report(t: LoopTimers, n: u64) -> Seq<char> {
    "Per Iteration:\n"@
        + "Iteration Time:  "@ + dec_digits(t.total_time as int / n as int) + " ns\n"@
        + "Camera Time:     "@ + dec_digits(t.cam_time as int / n as int) + " ns\n"@
        + "WFS Time:        "@ + dec_digits(t.wfs_time as int / n as int) + " ns\n"@
        + "Controller Time: "@ + dec_digits(t.ctrl_time as int / n as int) + " ns\n"@
        + "DM Time:         "@ + dec_digits(t.dm_time as int / n as int) + " ns\n"@
}

impl LoopTimers {
    /// All sums at zero.
    pub fn new() -> (t: LoopTimers)
        ensures
            t == (LoopTimers {
                total_time: 0u64,
                cam_time: 0u64,
                wfs_time: 0u64,
                ctrl_time: 0u64,
                dm_time: 0u64,
            }),
    {
        LoopTimers { total_time: 0, cam_time: 0, wfs_time: 0, ctrl_time: 0, dm_time: 0 }
    }

    /// Add one iteration's stage times to the sums, saturating.
    pub fn record(&mut self, cam_ns: u64, wfs_ns: u64, ctrl_ns: u64, dm_ns: u64, total_ns: u64)
        ensures
            *final(self) == spec_recorded(*old(self), cam_ns, wfs_ns, ctrl_ns, dm_ns, total_ns),
    {
        self.total_time = sat_add(self.total_time, total_ns);
        self.cam_time = sat_add(self.cam_time, cam_ns);
        self.wfs_time = sat_add(self.wfs_time, wfs_ns);
        self.ctrl_time = sat_add(self.ctrl_time, ctrl_ns);
        self.dm_time = sat_add(self.dm_time, dm_ns);
    }

    /// The report as text, one `<label><sum> ns` line per stage.
    pub fn print(&self) -> (r: String)
        ensures
            r@ == spec_timer_report(*self),
    {
        let mut r = String::new();
        r.append("Total Time:      ");
        push_decimal(&mut r, self.total_time);
        r.append(" ns\n");
        r.append("Camera Time:     ");
        push_decimal(&mut r, self.cam_time);
        r.append(" ns\n");
        r.append("WFS Time:        ");
        push_decimal(&mut r, self.wfs_time);
        r.append(" ns\n");
        r.append("Controller Time: ");
        push_decimal(&mut r, self.ctrl_time);
        r.append(" ns\n");
        r.append("DM Time:         ");
        push_decimal(&mut r, self.dm_time);
        r.append(" ns\n");
        r
    }
}

/// The loop core: sensors, controller and actuator sinks, the running
/// flag, the iteration counter, the timers, and one telemetry ring each
/// for measurements and commands.
#[derive(Debug)]
pub struct AOLoop {
    pub wfs: Vec<ShackHartmann>,
    pub controller: IntegratorController,
    pub dms: Vec<DM>,
    pub loop_running: bool,
    pub iteration_number: u64,
    pub timer: LoopTimers,
    pub measurement_telemetry: TelemetryRing<Vec<i64>>,
    pub command_telemetry: TelemetryRing<Vec<i128>>,
}

impl AOLoop {
    /// Consistent wiring: at least one sensor and one sink, the
    /// controller sized to the first sensor's measurement vector, every
    /// sink sized to the controller's command vector.
    pub open spec fn wf(&self) -> bool {
        &&& self.wfs.len() >= 1
        &&& self.dms.len() >= 1
        &&& forall|s: int| 0 <= s < self.wfs.len() ==> (#[trigger] self.wfs[s]).wf()
        &&& self.controller.wf()
        &&& self.controller.n_measurements == self.wfs[0].n_measurements
        &&& forall|i: int| 0 <= i < self.dms.len() ==> (#[trigger] self.dms[i]).wf()
        &&& forall|i: int|
            0 <= i < self.dms.len()
                ==> (#[trigger] self.dms[i]).n_acts == self.controller.n_commands
        &&& self.measurement_telemetry.wf()
        &&& self.command_telemetry.wf()
    }

    /// Whether each sensor finds its frame, of its shape, in `frames`.
    pub open spec fn frames_compatible(&self, frames: Vec<Frame>) -> bool {
        forall|s: int| 0 <= s < self.wfs.len() ==> {
            let w = #[trigger] self.wfs[s];
            &&& w.detector_id < frames.len()
            &&& frames[w.detector_id as int].n_rows == w.n_rows
            &&& frames[w.detector_id as int].n_cols == w.n_cols
        }
    }

    /// A stopped loop around the given components, with the counter at
    /// zero and empty telemetry.  Inconsistent wiring is a configuration
    /// error and prevents the loop from ever reaching the running state.
    pub fn new(wfs: Vec<ShackHartmann>, controller: IntegratorController, dms: Vec<DM>)
        -> (result: Result<AOLoop, AoError>)
        requires
            forall|s: int| 0 <= s < wfs.len() ==> (#[trigger] wfs[s]).wf(),
            controller.wf(),
            forall|i: int| 0 <= i < dms.len() ==> (#[trigger] dms[i]).wf(),
        ensures
            result is Ok <==> {
                &&& wfs.len() >= 1
                &&& dms.len() >= 1
                &&& controller.n_measurements == wfs[0].n_measurements
                &&& forall|i: int|
                    0 <= i < dms.len() ==> (#[trigger] dms[i]).n_acts == controller.n_commands
            },
            result matches Ok(l) ==> {
                &&& l.wf()
                &&& l.wfs == wfs
                &&& l.controller == controller
                &&& l.dms == dms
                &&& !l.loop_running
                &&& l.iteration_number == 0
                &&& l.timer == (LoopTimers {
                    total_time: 0u64,
                    cam_time: 0u64,
                    wfs_time: 0u64,
                    ctrl_time: 0u64,
                    dm_time: 0u64,
                })
                &&& l.measurement_telemetry.slots.len() == 0
                &&& l.command_telemetry.slots.len() == 0
            },
            result matches Err(e) ==> e == AoError::ConfigurationError,
    {
        if wfs.len() == 0 {
            return Err(AoError::ConfigurationError);
        }
        if dms.len() == 0 {
            return Err(AoError::ConfigurationError);
        }
        if controller.n_measurements != wfs[0].n_measurements {
            return Err(AoError::ConfigurationError);
        }
        for i in 0..dms.len()
            invariant
                forall|j: int| 0 <= j < i ==> (#[trigger] dms[j]).n_acts == controller.n_commands,
        {
            if dms[i].n_acts != controller.n_commands {
                return Err(AoError::ConfigurationError);
            }
        }
        Ok(AOLoop {
            wfs,
            controller,
            dms,
            loop_running: false,
            iteration_number: 0,
            timer: LoopTimers::new(),
            measurement_telemetry: TelemetryRing::new(TELEMETRY_DEPTH),
            command_telemetry: TelemetryRing::new(TELEMETRY_DEPTH),
        })
    }

    /// Stopped to Running.  Starting a loop that is already running is a
    /// configuration error and changes nothing.
    pub fn start_loop(&mut self) -> (result: Result<(), AoError>)
        requires
            old(self).wf(),
        ensures
            final(self).wf(),
            final(self).iteration_number == old(self).iteration_number,
            result is Ok <==> !old(self).loop_running,
            result is Ok ==> *final(self) == (AOLoop { loop_running: true, ..*old(self) }),
            result is Err ==> *final(self) == *old(self)
                && result == Err::<(), AoError>(AoError::ConfigurationError),
    {
        if self.loop_running {
            return Err(AoError::ConfigurationError);
        }
        self.loop_running = true;
        Ok(())
    }

    /// Running to Stopped; a no-op when already stopped.  No iteration
    /// commits after this returns, and the counter is untouched.
    pub fn stop_loop(&mut self)
        ensures
            *final(self) == (AOLoop { loop_running: false, ..*old(self) }),
            final(self).iteration_number == old(self).iteration_number,
    {
        self.loop_running = false;
    }

    /// The number of committed iterations.
    pub fn get_iteration_number(&self) -> (n: u64)
        ensures
            n == self.iteration_number,
    {
        self.iteration_number
    }

    /// The iteration count, the running stage sums, and -- once at least
    /// one cycle has committed -- each stage's per-iteration average.
    /// Safe to call at any time: with the counter still at zero the
    /// averages are simply left out rather than divided by zero.
    pub fn print_timers(&self) -> (r: String)
        ensures
            r@ == "Iterations: "@ + dec_digits(self.iteration_number as int) + "\n"@
                + spec_timer_report(self.timer)
                + (if self.iteration_number > 0 {
                    spec_average_report(self.timer, self.iteration_number)
                } else {
                    Seq::<char>::empty()
                }),
    {
        let mut r = String::new();
        r.append("Iterations: ");
        push_decimal(&mut r, self.iteration_number);
        r.append("\n");
        let report = self.timer.print();
        r.append(report.as_str());
        let n = self.iteration_number;
        if n > 0 {
            r.append("Per Iteration:\n");
            r.append("Iteration Time:  ");
            push_decimal(&mut r, self.timer.total_time / n);
            r.append(" ns\n");
            r.append("Camera Time:     ");
            push_decimal(&mut r, self.timer.cam_time / n);
            r.append(" ns\n");
            r.append("WFS Time:        ");
            push_decimal(&mut r, self.timer.wfs_time / n);
            r.append(" ns\n");
            r.append("Controller Time: ");
            push_decimal(&mut r, self.timer.ctrl_time / n);
            r.append(" ns\n");
            r.append("DM Time:         ");
            push_decimal(&mut r, self.timer.dm_time / n);
            r.append(" ns\n");
        }
        proof {
            assert(r@ =~= "Iterations: "@ + dec_digits(self.iteration_number as int) + "\n"@
                + spec_timer_report(self.timer)
                + (if self.iteration_number > 0 {
                    spec_average_report(self.timer, self.iteration_number)
                } else {
                    Seq::<char>::empty()
                }));
        }
        r
    }

    /// Run every sensor against its source's frame, in registration
    /// order.  A missing or mis-shaped frame is a dimension error and
    /// produces nothing.
    pub fn sense(&self, frames: &Vec<Frame>) -> (result: Result<Vec<Vec<i64>>, AoError>)
        requires
            self.wf(),
            forall|i: int| 0 <= i < frames.len() ==> (#[trigger] frames[i]).wf(),
        ensures
            result is Ok <==> self.frames_compatible(*frames),
            result matches Ok(ms) ==> {
                &&& ms.len() == self.wfs.len()
                &&& forall|s: int| 0 <= s < self.wfs.len()
                    ==> (#[trigger] ms[s])@ == self.wfs[s].spec_measurements(
                        frames[self.wfs[s].detector_id as int]@,
                    )
            },
            result matches Err(e) ==> e == AoError::DimensionError,
    {
        let mut ms: Vec<Vec<i64>> = Vec::new();
        for s in 0..self.wfs.len()
            invariant
                self.wf(),
                forall|i: int| 0 <= i < frames.len() ==> (#[trigger] frames[i]).wf(),
                ms.len() == s,
                forall|ss: int| 0 <= ss < s ==> {
                    let w = #[trigger] self.wfs[ss];
                    &&& w.detector_id < frames.len()
                    &&& frames[w.detector_id as int].n_rows == w.n_rows
                    &&& frames[w.detector_id as int].n_cols == w.n_cols
                },
                forall|ss: int| 0 <= ss < s
                    ==> (#[trigger] ms[ss])@ == self.wfs[ss].spec_measurements(
                        frames[self.wfs[ss].detector_id as int]@,
                    ),
        {
            let det = self.wfs[s].detector_id;
            if det >= frames.len() {
                return Err(AoError::DimensionError);
            }
            if frames[det].n_rows != self.wfs[s].n_rows || frames[det].n_cols != self.wfs[s].n_cols {
                return Err(AoError::DimensionError);
            }
            let mv = self.wfs[s].measure(&frames[det]);
            ms.push(mv);
        }
        Ok(ms)
    }

    /// One controller step on a measurement vector: the integrator law,
    /// with the controller's own dimension and range checks.  Nothing but
    /// the controller state changes; the counter does not move.
    pub fn control(&mut self, measurements: &Vec<i64>) -> (result: Result<Vec<i128>, AoError>)
        requires
            old(self).wf(),
        ensures
            final(self).wf(),
            *final(self) == (AOLoop { controller: final(self).controller, ..*old(self) }),
            final(self).iteration_number == old(self).iteration_number,
            final(self).controller.n_commands == old(self).controller.n_commands,
            final(self).controller.n_measurements == old(self).controller.n_measurements,
            final(self).controller.gain == old(self).controller.gain,
            final(self).controller.control_matrix == old(self).controller.control_matrix,
            result is Ok <==> measurements.len() == old(self).controller.n_measurements
                && meas_in_range(measurements@)
                && step_in_range(old(self).controller, measurements@),
            measurements.len() != old(self).controller.n_measurements
                ==> result == Err::<Vec<i128>, AoError>(AoError::DimensionError),
            result is Err ==> *final(self) == *old(self),
            result matches Ok(v) ==> {
                &&& final(self).controller.actuator_commands.len()
                    == old(self).controller.n_commands
                &&& forall|j: int|
                    0 <= j < old(self).controller.n_commands
                        ==> #[trigger] final(self).controller.actuator_commands[j]
                            == spec_new_command(old(self).controller, measurements@, j)
                &&& v@ == final(self).controller.actuator_commands@
            },
    {
        self.controller.compute_commands(measurements)
    }

    /// Apply a command vector to every actuator sink, wholesale.  A length
    /// mismatch is a dimension error and leaves every sink untouched.
    pub fn apply(&mut self, commands: &Vec<i128>) -> (result: Result<(), AoError>)
        requires
            old(self).wf(),
        ensures
            final(self).wf(),
            *final(self) == (AOLoop { dms: final(self).dms, ..*old(self) }),
            final(self).iteration_number == old(self).iteration_number,
            final(self).dms.len() == old(self).dms.len(),
            result is Ok <==> commands.len() == old(self).controller.n_commands,
            result is Ok ==> forall|i: int|
                0 <= i < final(self).dms.len()
                    ==> (#[trigger] final(self).dms[i]).act_buffer@ == commands@,
            result is Err ==> *final(self) == *old(self)
                && result == Err::<(), AoError>(AoError::DimensionError),
    {
        if commands.len() != self.controller.n_commands {
            return Err(AoError::DimensionError);
        }
        let n = self.dms.len();
        for i in 0..n
            invariant
                old(self).wf(),
                self.wf(),
                *self == (AOLoop { dms: self.dms, ..*old(self) }),
                n == self.dms.len(),
                self.dms.len() == old(self).dms.len(),
                commands.len() == self.controller.n_commands,
                forall|j: int|
                    0 <= j < i ==> (#[trigger] self.dms[j]).act_buffer@ == commands@,
        {
            let r = self.dms[i].set_actuators(commands);
            match r {
                Ok(()) => {},
                Err(_) => {
                    return Err(AoError::DimensionError);
                },
            }
        }
        Ok(())
    }

    /// Seal one cycle: bump the iteration counter by exactly one, mirror
    /// the cycle's measurement and command vectors into the telemetry
    /// rings tagged with the committing iteration's sequence number, and
    /// add the stage times to the running sums.  Returns the sequence
    /// number used.  While the loop is stopped nothing commits and
    /// nothing changes; a saturated counter is a numeric anomaly.
    pub fn commit_iteration(
        &mut self,
        measurements: &Vec<i64>,
        commands: &Vec<i128>,
        cam_ns: u64,
        wfs_ns: u64,
        ctrl_ns: u64,
        dm_ns: u64,
        total_ns: u64,
    ) -> (result: Result<u64, AoError>)
        requires
            old(self).wf(),
        ensures
            final(self).wf(),
            final(self).iteration_number >= old(self).iteration_number,
            !old(self).loop_running ==> result == Err::<u64, AoError>(AoError::ConfigurationError)
                && *final(self) == *old(self),
            old(self).loop_running && old(self).iteration_number == u64::MAX
                ==> result == Err::<u64, AoError>(AoError::NumericAnomaly)
                    && *final(self) == *old(self),
            old(self).loop_running && old(self).iteration_number < u64::MAX ==> {
                &&& result == Ok::<u64, AoError>(old(self).iteration_number)
                &&& final(self).iteration_number == old(self).iteration_number + 1
                &&& final(self).wfs == old(self).wfs
                &&& final(self).controller == old(self).controller
                &&& final(self).dms == old(self).dms
                &&& final(self).loop_running
                &&& final(self).timer == spec_recorded(
                    old(self).timer,
                    cam_ns,
                    wfs_ns,
                    ctrl_ns,
                    dm_ns,
                    total_ns,
                )
                &&& spec_published(
                    old(self).measurement_telemetry,
                    final(self).measurement_telemetry,
                    measurements@,
                    old(self).iteration_number,
                )
                &&& spec_published(
                    old(self).command_telemetry,
                    final(self).command_telemetry,
                    commands@,
                    old(self).iteration_number,
                )
            },
    {
        if !self.loop_running {
            return Err(AoError::ConfigurationError);
        }
        if self.iteration_number == u64::MAX {
            return Err(AoError::NumericAnomaly);
        }
        let sequence = self.iteration_number;
        let mut meas_copy: Vec<i64> = Vec::new();
        for k in 0..measurements.len()
            invariant
                meas_copy.len() == k,
                forall|kk: int| 0 <= kk < k ==> #[trigger] meas_copy[kk] == measurements[kk],
        {
            meas_copy.push(measurements[k]);
        }
        proof {
            assert(meas_copy@ =~= measurements@);
        }
        let mut cmd_copy: Vec<i128> = Vec::new();
        for k in 0..commands.len()
            invariant
                cmd_copy.len() == k,
                forall|kk: int| 0 <= kk < k ==> #[trigger] cmd_copy[kk] == commands[kk],
        {
            cmd_copy.push(commands[k]);
        }
        proof {
            assert(cmd_copy@ =~= commands@);
        }
        self.measurement_telemetry.publish(meas_copy, sequence);
        self.command_telemetry.publish(cmd_copy, sequence);
        self.timer.record(cam_ns, wfs_ns, ctrl_ns, dm_ns, total_ns);
        self.iteration_number = self.iteration_number + 1;
        Ok(sequence)
    }
}

} // verus!
