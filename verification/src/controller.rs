use vstd::prelude::*;

use crate::error::AoError;
use crate::fixed::{lemma_acc_step, lemma_mul_abs2, lemma_mul_le, CMD_LIMIT, CTRL_LIMIT, MAX_LEN};

verus! {

/// Dot product of a matrix row and a measurement vector.
pub open spec fn spec_dot(row: Seq<i64>, m: Seq<i64>) -> int
    decreases row.len(),
{
    if row.len() == 0 {
        0
    } else {
        spec_dot(row.drop_last(), m.drop_last()) + row.last() * m.last()
    }
}

/// Whether every entry of a measurement vector is within the fixed-point
/// range the controller accepts.
pub open spec fn meas_in_range(m: Seq<i64>) -> bool {
    forall|k: int| 0 <= k < m.len() ==> -CTRL_LIMIT <= #[trigger] m[k] <= CTRL_LIMIT
}

/// A stateful integrator: a persistent command vector updated on every
/// call by `command += gain * (matrix * measurement)`.
///
/// All coefficients are fixed point with `SCALE` steps per unit; a command
/// therefore counts `SCALE^3` steps per unit and is exact: repeated calls
/// accumulate with no rounding at all.
#[derive(Debug)]
pub struct IntegratorController {
    pub n_measurements: usize,
    pub n_commands: usize,
    pub gain: i64,
    pub control_matrix: Vec<Vec<i64>>,
    pub actuator_commands: Vec<i128>,
}

/// The command owed at slot `j` after one update of `c` by measurement
/// `m`: the old command plus `gain * (row_j . m)`.
pub open spec fn spec_new_command(c: IntegratorController, m: Seq<i64>, j: int) -> int {
    c.actuator_commands[j] + c.gain * spec_dot(c.control_matrix[j]@, m)
}

/// Whether one whole update of `c` by `m` stays within `CMD_LIMIT`.
pub open spec fn step_in_range(c: IntegratorController, m: Seq<i64>) -> bool {
    forall|j: int|
        0 <= j < c.n_commands ==> -CMD_LIMIT <= #[trigger] spec_new_command(c, m, j) <= CMD_LIMIT
}

impl IntegratorController {
    /// Shape and range soundness of the controller state.
    pub open spec fn wf(&self) -> bool {
        &&& self.n_measurements <= MAX_LEN
        &&& self.n_commands <= MAX_LEN
        &&& -CTRL_LIMIT <= self.gain <= CTRL_LIMIT
        &&& self.control_matrix.len() == self.n_commands
        &&& forall|j: int|
            0 <= j < self.n_commands
                ==> (#[trigger] self.control_matrix[j]).len() == self.n_measurements
        &&& forall|j: int, k: int|
            0 <= j < self.n_commands && 0 <= k < self.n_measurements
                ==> -CTRL_LIMIT <= #[trigger] self.control_matrix[j]@[k] <= CTRL_LIMIT
        &&& self.actuator_commands.len() == self.n_commands
        &&& forall|j: int|
            0 <= j < self.n_commands
                ==> -CMD_LIMIT <= #[trigger] self.actuator_commands[j] <= CMD_LIMIT
    }

    /// A controller with a zero control matrix and a zero command vector.
    /// Oversized shapes are a configuration error; a gain beyond
    /// `CTRL_LIMIT` is a numeric anomaly.
    pub fn new(n_measurements: usize, n_commands: usize, gain: i64)
        -> (result: Result<IntegratorController, AoError>)
        ensures
            result is Ok <==> n_measurements <= MAX_LEN && n_commands <= MAX_LEN
                && -CTRL_LIMIT <= gain <= CTRL_LIMIT,
            result matches Ok(c) ==> {
                &&& c.wf()
                &&& c.n_measurements == n_measurements
                &&& c.n_commands == n_commands
                &&& c.gain == gain
                &&& forall|j: int, k: int|
                    0 <= j < n_commands && 0 <= k < n_measurements
                        ==> #[trigger] c.control_matrix[j]@[k] == 0
                &&& forall|j: int|
                    0 <= j < n_commands ==> #[trigger] c.actuator_commands[j] == 0
            },
            result matches Err(e) ==> e == (
                if n_measurements <= MAX_LEN && n_commands <= MAX_LEN {
                    AoError::NumericAnomaly
                } else {
                    AoError::ConfigurationError
                }
            ),
    {
        if n_measurements > MAX_LEN || n_commands > MAX_LEN {
            return Err(AoError::ConfigurationError);
        }
        if gain < -CTRL_LIMIT || gain > CTRL_LIMIT {
            return Err(AoError::NumericAnomaly);
        }
        let mut control_matrix: Vec<Vec<i64>> = Vec::new();
        for j in 0..n_commands
            invariant
                control_matrix.len() == j,
                forall|jj: int|
                    0 <= jj < j ==> (#[trigger] control_matrix[jj]).len() == n_measurements,
                forall|jj: int, k: int|
                    0 <= jj < j && 0 <= k < n_measurements
                        ==> #[trigger] control_matrix[jj]@[k] == 0,
        {
            let mut row: Vec<i64> = Vec::new();
            for k in 0..n_measurements
                invariant
                    row.len() == k,
                    forall|kk: int| 0 <= kk < k ==> #[trigger] row[kk] == 0,
            {
                row.push(0);
            }
            control_matrix.push(row);
        }
        let mut actuator_commands: Vec<i128> = Vec::new();
        for j in 0..n_commands
            invariant
                actuator_commands.len() == j,
                forall|jj: int| 0 <= jj < j ==> #[trigger] actuator_commands[jj] == 0,
        {
            actuator_commands.push(0);
        }
        Ok(IntegratorController { n_measurements, n_commands, gain, control_matrix, actuator_commands })
    }

    /// Replace the control matrix.  A wrong shape is a dimension error, an
    /// entry beyond `CTRL_LIMIT` a numeric anomaly; either leaves the
    /// controller unchanged.
    pub fn set_control_matrix(&mut self, control_matrix: Vec<Vec<i64>>)
        -> (result: Result<(), AoError>)
        requires
            old(self).wf(),
        ensures
            final(self).wf(),
            result is Ok <==> ({
                &&& control_matrix.len() == old(self).n_commands
                &&& forall|j: int|
                    0 <= j < control_matrix.len()
                        ==> (#[trigger] control_matrix[j]).len() == old(self).n_measurements
                &&& forall|j: int, k: int|
                    0 <= j < control_matrix.len() && 0 <= k < old(self).n_measurements
                        ==> -CTRL_LIMIT <= #[trigger] control_matrix[j]@[k] <= CTRL_LIMIT
            }),
            result is Ok ==> *final(self) == (IntegratorController {
                control_matrix,
                ..*old(self)
            }),
            result is Err ==> *final(self) == *old(self),
            result matches Err(e) ==> e == (
                if control_matrix.len() == old(self).n_commands && (forall|j: int|
                    0 <= j < control_matrix.len()
                        ==> (#[trigger] control_matrix[j]).len() == old(self).n_measurements) {
                    AoError::NumericAnomaly
                } else {
                    AoError::DimensionError
                }
            ),
    {
        let n_meas = self.n_measurements;
        let n_cmd = self.n_commands;
        if control_matrix.len() != n_cmd {
            return Err(AoError::DimensionError);
        }
        for j in 0..n_cmd
            invariant
                self == old(self),
                self.wf(),
                n_meas == self.n_measurements,
                n_cmd == self.n_commands,
                control_matrix.len() == n_cmd,
                forall|jj: int|
                    0 <= jj < j ==> (#[trigger] control_matrix[jj]).len() == n_meas,
        {
            if control_matrix[j].len() != n_meas {
                return Err(AoError::DimensionError);
            }
        }
        for j in 0..n_cmd
            invariant
                self == old(self),
                self.wf(),
                n_meas == self.n_measurements,
                n_cmd == self.n_commands,
                control_matrix.len() == n_cmd,
                forall|jj: int|
                    0 <= jj < n_cmd ==> (#[trigger] control_matrix[jj]).len() == n_meas,
                forall|jj: int, k: int|
                    0 <= jj < j && 0 <= k < n_meas
                        ==> -CTRL_LIMIT <= #[trigger] control_matrix[jj]@[k] <= CTRL_LIMIT,
        {
            for k in 0..n_meas
                invariant
                    self == old(self),
                    self.wf(),
                    n_meas == self.n_measurements,
                    n_cmd == self.n_commands,
                    control_matrix.len() == n_cmd,
                    j < n_cmd,
                    forall|jj: int|
                        0 <= jj < n_cmd ==> (#[trigger] control_matrix[jj]).len() == n_meas,
                    forall|jj: int, kk: int|
                        0 <= jj < j && 0 <= kk < n_meas
                            ==> -CTRL_LIMIT <= #[trigger] control_matrix[jj]@[kk] <= CTRL_LIMIT,
                    forall|kk: int|
                        0 <= kk < k
                            ==> -CTRL_LIMIT <= #[trigger] control_matrix[j as int]@[kk] <= CTRL_LIMIT,
            {
                let v = control_matrix[j][k];
                if v < -CTRL_LIMIT || v > CTRL_LIMIT {
                    return Err(AoError::NumericAnomaly);
                }
            }
        }
        self.control_matrix = control_matrix;
        Ok(())
    }

    /// A copy of the control matrix.
    pub fn get_control_matrix(&self) -> (r: Vec<Vec<i64>>)
        requires
            self.wf(),
        ensures
            r.len() == self.n_commands,
            forall|j: int| 0 <= j < r.len() ==> #[trigger] r[j]@ == self.control_matrix[j]@,
    {
        let mut r: Vec<Vec<i64>> = Vec::new();
        for j in 0..self.n_commands
            invariant
                self.wf(),
                r.len() == j,
                forall|jj: int| 0 <= jj < j ==> #[trigger] r[jj]@ == self.control_matrix[jj]@,
        {
            let mut row: Vec<i64> = Vec::new();
            for k in 0..self.n_measurements
                invariant
                    self.wf(),
                    j < self.n_commands,
                    row.len() == k,
                    forall|kk: int| 0 <= kk < k ==> #[trigger] row[kk] == self.control_matrix[j as int]@[kk],
            {
                row.push(self.control_matrix[j][k]);
            }
            proof {
                assert(row@ =~= self.control_matrix[j as int]@);
            }
            r.push(row);
        }
        r
    }

    /// Replace the gain; a value beyond `CTRL_LIMIT` is a numeric anomaly
    /// and leaves the controller unchanged.
    pub fn set_gain(&mut self, gain: i64) -> (result: Result<(), AoError>)
        requires
            old(self).wf(),
        ensures
            final(self).wf(),
            result is Ok <==> -CTRL_LIMIT <= gain <= CTRL_LIMIT,
            result is Ok ==> *final(self) == (IntegratorController { gain, ..*old(self) }),
            result is Err ==> *final(self) == *old(self)
                && result == Err::<(), AoError>(AoError::NumericAnomaly),
    {
        if gain < -CTRL_LIMIT || gain > CTRL_LIMIT {
            return Err(AoError::NumericAnomaly);
        }
        self.gain = gain;
        Ok(())
    }

    /// The current gain.
    pub fn get_gain(&self) -> (g: i64)
        ensures
            g == self.gain,
    {
        self.gain
    }

    /// One integrator step: `command += gain * (matrix * measurement)`,
    /// exactly, and a copy of the new command vector.  A measurement of
    /// the wrong length is a dimension error; an entry beyond
    /// `CTRL_LIMIT`, or a resulting command beyond `CMD_LIMIT`, is a
    /// numeric anomaly.  Every rejected call leaves the persistent command
    /// state byte-for-byte unchanged.
    pub fn compute_commands(&mut self, measurements: &Vec<i64>)
        -> (result: Result<Vec<i128>, AoError>)
        requires
            old(self).wf(),
        ensures
            final(self).wf(),
            final(self).n_measurements == old(self).n_measurements,
            final(self).n_commands == old(self).n_commands,
            final(self).gain == old(self).gain,
            final(self).control_matrix == old(self).control_matrix,
            result is Ok <==> measurements.len() == old(self).n_measurements
                && meas_in_range(measurements@) && step_in_range(*old(self), measurements@),
            measurements.len() != old(self).n_measurements
                ==> result == Err::<Vec<i128>, AoError>(AoError::DimensionError),
            result is Err ==> *final(self) == *old(self),
            result is Err && measurements.len() == old(self).n_measurements
                ==> result == Err::<Vec<i128>, AoError>(AoError::NumericAnomaly),
            result matches Ok(v) ==> {
                &&& final(self).actuator_commands.len() == old(self).n_commands
                &&& forall|j: int|
                    0 <= j < old(self).n_commands
                        ==> #[trigger] final(self).actuator_commands[j]
                            == spec_new_command(*old(self), measurements@, j)
                &&& v@ == final(self).actuator_commands@
            },
    {
        let n_meas = self.n_measurements;
        let n_cmd = self.n_commands;
        if measurements.len() != n_meas {
            return Err(AoError::DimensionError);
        }
        for k in 0..n_meas
            invariant
                self == old(self),
                self.wf(),
                n_meas == self.n_measurements,
                n_cmd == self.n_commands,
                measurements.len() == n_meas,
                forall|kk: int|
                    0 <= kk < k ==> -CTRL_LIMIT <= #[trigger] measurements[kk] <= CTRL_LIMIT,
        {
            let v = measurements[k];
            if v < -CTRL_LIMIT || v > CTRL_LIMIT {
                proof {
                    assert(measurements@[k as int] == v);
                    assert(!meas_in_range(measurements@));
                }
                return Err(AoError::NumericAnomaly);
            }
        }
        let ghost m = measurements@;
        proof {
            assert(meas_in_range(m));
        }
        let mut new_cmds: Vec<i128> = Vec::new();
        for j in 0..n_cmd
            invariant
                self == old(self),
                self.wf(),
                n_meas == self.n_measurements,
                n_cmd == self.n_commands,
                measurements.len() == n_meas,
                m == measurements@,
                meas_in_range(m),
                new_cmds.len() == j,
                forall|jj: int|
                    0 <= jj < j
                        ==> #[trigger] new_cmds[jj] == spec_new_command(*old(self), m, jj),
                forall|jj: int|
                    0 <= jj < j ==> -CMD_LIMIT <= #[trigger] new_cmds[jj] <= CMD_LIMIT,
        {
            let mut acc: i128 = 0;
            for k in 0..n_meas
                invariant
                    self == old(self),
                    self.wf(),
                    n_meas == self.n_measurements,
                    n_cmd == self.n_commands,
                    j < n_cmd,
                    measurements.len() == n_meas,
                    m == measurements@,
                    meas_in_range(m),
                    acc == spec_dot(
                        self.control_matrix[j as int]@.take(k as int),
                        m.take(k as int),
                    ),
                    -((k as int) * 100000000000000000000) <= acc
                        <= (k as int) * 100000000000000000000,
            {
                proof {
                    let row = self.control_matrix[j as int]@;
                    assert(row.take(k as int + 1).drop_last() =~= row.take(k as int));
                    assert(m.take(k as int + 1).drop_last() =~= m.take(k as int));
                    assert(row.take(k as int + 1).last() == row[k as int]);
                    assert(m.take(k as int + 1).last() == m[k as int]);
                    lemma_mul_abs2(row[k as int] as int, CTRL_LIMIT as int, m[k as int] as int,
                        CTRL_LIMIT as int);
                    lemma_acc_step(acc as int, (row[k as int] as int) * (m[k as int] as int),
                        k as int, 100000000000000000000);
                    lemma_mul_le(k as int + 1, 1000000, 100000000000000000000);
                }
                let term = (self.control_matrix[j][k] as i128) * (measurements[k] as i128);
                acc = acc + term;
            }
            proof {
                assert(self.control_matrix[j as int]@.take(n_meas as int)
                    =~= self.control_matrix[j as int]@);
                assert(m.take(n_meas as int) =~= m);
                lemma_mul_le(n_meas as int, 1000000, 100000000000000000000);
                lemma_mul_abs2(self.gain as int, CTRL_LIMIT as int, acc as int,
                    100000000000000000000000000);
            }
            let delta = (self.gain as i128) * acc;
            let current = self.actuator_commands[j];
            let next = current + delta;
            proof {
                assert(next == spec_new_command(*old(self), m, j as int));
            }
            if next < -CMD_LIMIT || next > CMD_LIMIT {
                proof {
                    assert(!step_in_range(*old(self), m));
                }
                return Err(AoError::NumericAnomaly);
            }
            new_cmds.push(next);
        }
        proof {
            assert(step_in_range(*old(self), m)) by {
                assert forall|j: int| 0 <= j < old(self).n_commands
                    implies -CMD_LIMIT <= #[trigger] spec_new_command(*old(self), m, j)
                        <= CMD_LIMIT by {
                    assert(new_cmds[j] == spec_new_command(*old(self), m, j));
                }
            }
        }
        self.actuator_commands = new_cmds;
        let mut out: Vec<i128> = Vec::new();
        for j in 0..n_cmd
            invariant
                n_cmd == self.actuator_commands.len(),
                out.len() == j,
                forall|jj: int| 0 <= jj < j ==> #[trigger] out[jj] == self.actuator_commands[jj],
        {
            out.push(self.actuator_commands[j]);
        }
        proof {
            assert(out@ =~= self.actuator_commands@);
        }
        Ok(out)
    }
}

/// Integrator accumulation: starting from a zero command state, two
/// successful updates with the same measurement leave every command at
/// exactly `2 * gain * (matrix * measurement)` -- the law is stateful, not
/// idempotent.
pub proof fn lemma_integrator_accumulates(
    c0: IntegratorController,
    c1: IntegratorController,
    c2: IntegratorController,
    m: Seq<i64>,
)
    requires
        forall|j: int| 0 <= j < c0.n_commands ==> #[trigger] c0.actuator_commands[j] == 0,
        c1.n_commands == c0.n_commands,
        c1.gain == c0.gain,
        c1.control_matrix == c0.control_matrix,
        forall|j: int|
            0 <= j < c0.n_commands
                ==> #[trigger] c1.actuator_commands[j] == spec_new_command(c0, m, j),
        c2.n_commands == c0.n_commands,
        forall|j: int|
            0 <= j < c0.n_commands
                ==> #[trigger] c2.actuator_commands[j] == spec_new_command(c1, m, j),
    ensures
        forall|j: int|
            0 <= j < c0.n_commands
                ==> #[trigger] c2.actuator_commands[j] as int
                    == 2 * (c0.gain * spec_dot(c0.control_matrix[j]@, m)),
{
    assert forall|j: int| 0 <= j < c0.n_commands implies #[trigger] c2.actuator_commands[j] as int
        == 2 * (c0.gain * spec_dot(c0.control_matrix[j]@, m)) by {
        assert(c1.actuator_commands[j] == c0.gain * spec_dot(c0.control_matrix[j]@, m));
        assert(c2.actuator_commands[j]
            == c1.actuator_commands[j] + c1.gain * spec_dot(c1.control_matrix[j]@, m));
    }
}

} // verus!
