use rust_ao::error::AoError;
use rust_ao::controller::IntegratorController;
use rust_ao::fixed::{CTRL_LIMIT, SCALE};

#[test]
fn new_controller_is_zeroed() {
    let mut c = IntegratorController::new(2, 3, SCALE).unwrap();
    assert_eq!(c.get_gain(), SCALE);
    let m = c.get_control_matrix();
    assert_eq!(m, vec![vec![0, 0], vec![0, 0], vec![0, 0]]);
    let commands = c.compute_commands(&vec![5, 7]).unwrap();
    assert_eq!(commands, vec![0, 0, 0]);
}

#[test]
fn integrator_accumulates_twice_the_correction() {
    // Gain 0.5, matrix [[1, 0], [0, 2]] in units, measurement
    // [333333, 166666] micro-units: after two identical calls every
    // command equals 2 * gain * (matrix * measurement), exactly.
    let mut c = IntegratorController::new(2, 2, SCALE / 2).unwrap();
    c.set_control_matrix(vec![vec![SCALE, 0], vec![0, 2 * SCALE]]).unwrap();
    let m = vec![333333_i64, 166666_i64];
    let first = c.compute_commands(&m).unwrap();
    assert_eq!(first, vec![166_666_500_000_000_000, 166_666_000_000_000_000]);
    let second = c.compute_commands(&m).unwrap();
    assert_eq!(second, vec![333_333_000_000_000_000, 333_332_000_000_000_000]);
}

#[test]
fn dimension_mismatch_leaves_state_unchanged() {
    let mut c = IntegratorController::new(2, 1, SCALE).unwrap();
    c.set_control_matrix(vec![vec![SCALE, SCALE]]).unwrap();
    let before = c.compute_commands(&vec![1000, 2000]).unwrap();
    // Wrong length: rejected before any state mutation.
    assert_eq!(c.compute_commands(&vec![1, 2, 3]).unwrap_err(), AoError::DimensionError);
    assert_eq!(c.compute_commands(&Vec::new()).unwrap_err(), AoError::DimensionError);
    // A zero measurement adds nothing, so the state still equals `before`.
    let after = c.compute_commands(&vec![0, 0]).unwrap();
    assert_eq!(after, before);
}

#[test]
fn measurement_out_of_range_is_an_anomaly() {
    let mut c = IntegratorController::new(1, 1, SCALE).unwrap();
    let r = c.compute_commands(&vec![CTRL_LIMIT + 1]);
    assert_eq!(r.unwrap_err(), AoError::NumericAnomaly);
    let r = c.compute_commands(&vec![-CTRL_LIMIT - 1]);
    assert_eq!(r.unwrap_err(), AoError::NumericAnomaly);
}

#[test]
fn matrix_shape_and_range_are_checked() {
    let mut c = IntegratorController::new(2, 2, SCALE).unwrap();
    assert_eq!(
        c.set_control_matrix(vec![vec![1, 2]]).unwrap_err(),
        AoError::DimensionError
    );
    assert_eq!(
        c.set_control_matrix(vec![vec![1], vec![2]]).unwrap_err(),
        AoError::DimensionError
    );
    assert_eq!(
        c.set_control_matrix(vec![vec![1, 2], vec![3, CTRL_LIMIT + 1]]).unwrap_err(),
        AoError::NumericAnomaly
    );
    // A failed set leaves the old matrix in place.
    assert_eq!(c.get_control_matrix(), vec![vec![0, 0], vec![0, 0]]);
    c.set_control_matrix(vec![vec![1, 2], vec![3, 4]]).unwrap();
    assert_eq!(c.get_control_matrix(), vec![vec![1, 2], vec![3, 4]]);
}

#[test]
fn gain_is_reconfigurable_within_range() {
    let mut c = IntegratorController::new(1, 1, 0).unwrap();
    c.set_gain(3 * SCALE).unwrap();
    assert_eq!(c.get_gain(), 3 * SCALE);
    assert_eq!(c.set_gain(CTRL_LIMIT + 1).unwrap_err(), AoError::NumericAnomaly);
    assert_eq!(c.get_gain(), 3 * SCALE);
}

#[test]
fn construction_limits() {
    assert_eq!(
        IntegratorController::new(2_000_000, 1, 0).err().unwrap(),
        AoError::ConfigurationError
    );
    assert_eq!(
        IntegratorController::new(1, 2_000_000, 0).err().unwrap(),
        AoError::ConfigurationError
    );
    assert_eq!(
        IntegratorController::new(1, 1, CTRL_LIMIT + 1).err().unwrap(),
        AoError::NumericAnomaly
    );
}
