use rust_ao::error::AoError;
use rust_ao::fakedm::DM;

#[test]
fn test_dm_set_and_get() {
    let n_acts = 140;
    let mut dm = DM::new(n_acts);
    assert_eq!(dm.get_actuators(), vec![0; n_acts]);
    let mut actuator_values: Vec<i128> = Vec::new();
    for i in 0..n_acts {
        actuator_values.push(i as i128);
    }
    dm.set_actuators(&actuator_values).unwrap();
    assert_eq!(dm.get_actuators(), actuator_values);
}

#[test]
fn wrong_length_leaves_state_untouched() {
    let mut dm = DM::new(3);
    dm.set_actuators(&vec![7, 8, 9]).unwrap();
    assert_eq!(
        dm.set_actuators(&vec![1, 2]).unwrap_err(),
        AoError::DimensionError
    );
    assert_eq!(
        dm.set_actuators(&vec![1, 2, 3, 4]).unwrap_err(),
        AoError::DimensionError
    );
    assert_eq!(dm.get_actuators(), vec![7, 8, 9]);
}

#[test]
fn overwrite_is_wholesale() {
    let mut dm = DM::new(2);
    dm.set_actuators(&vec![1, 2]).unwrap();
    dm.set_actuators(&vec![-5, 40]).unwrap();
    assert_eq!(dm.get_actuators(), vec![-5, 40]);
}
