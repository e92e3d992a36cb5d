use vstd::prelude::*;

use crate::error::AoError;

verus! {

/// The actuator sink of the loop: holds the last-commanded actuator
/// vector, overwritten wholesale on every applied command.  Commands are
/// fixed point with `SCALE^3` steps per unit, as the controller emits
/// them.
#[derive(Debug)]
pub struct DM {
    pub n_acts: usize,
    pub act_buffer: Vec<i128>,
}

impl DM {
    /// The buffer always holds exactly `n_acts` values.
    pub open spec fn wf(&self) -> bool {
        self.act_buffer.len() == self.n_acts
    }

    /// A sink of `n_acts` actuators, all commanded to zero.
    pub fn new(n_acts: usize) -> (dm: DM)
        ensures
            dm.wf(),
            dm.n_acts == n_acts,
            forall|j: int| 0 <= j < n_acts ==> #[trigger] dm.act_buffer[j] == 0,
    {
        let mut act_buffer: Vec<i128> = Vec::new();
        for j in 0..n_acts
            invariant
                act_buffer.len() == j,
                forall|jj: int| 0 <= jj < j ==> #[trigger] act_buffer[jj] == 0,
        {
            act_buffer.push(0);
        }
        DM { n_acts, act_buffer }
    }

    /// Overwrite the stored state wholesale.  A length mismatch against
    /// `n_acts` is a dimension error and leaves the prior state untouched;
    /// there are no partial updates.
    pub fn set_actuators(&mut self, actuator_values: &Vec<i128>) -> (result: Result<(), AoError>)
        requires
            old(self).wf(),
        ensures
            final(self).wf(),
            final(self).n_acts == old(self).n_acts,
            result is Ok <==> actuator_values.len() == old(self).n_acts,
            result is Ok ==> final(self).act_buffer@ == actuator_values@,
            result is Err ==> *final(self) == *old(self)
                && result == Err::<(), AoError>(AoError::DimensionError),
    {
        if actuator_values.len() != self.n_acts {
            return Err(AoError::DimensionError);
        }
        let mut buffer: Vec<i128> = Vec::new();
        for j in 0..actuator_values.len()
            invariant
                buffer.len() == j,
                forall|jj: int| 0 <= jj < j ==> #[trigger] buffer[jj] == actuator_values[jj],
        {
            buffer.push(actuator_values[j]);
        }
        proof {
            assert(buffer@ =~= actuator_values@);
        }
        self.act_buffer = buffer;
        Ok(())
    }

    /// A copy of the current actuator state.
    pub fn get_actuators(&self) -> (r: Vec<i128>)
        ensures
            r@ == self.act_buffer@,
    {
        let mut r: Vec<i128> = Vec::new();
        for j in 0..self.act_buffer.len()
            invariant
                r.len() == j,
                forall|jj: int| 0 <= jj < j ==> #[trigger] r[jj] == self.act_buffer[jj],
        {
            r.push(self.act_buffer[j]);
        }
        proof {
            assert(r@ =~= self.act_buffer@);
        }
        r
    }
}

} // verus!
