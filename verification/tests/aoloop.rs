use rust_ao::aoloop::{AOLoop, LoopTimers};
use rust_ao::controller::IntegratorController;
use rust_ao::error::AoError;
use rust_ao::fakedm::DM;
use rust_ao::fixed::SCALE;
use rust_ao::frame::Frame;
use rust_ao::wfs::ShackHartmann;

fn ramp_frame(n_rows: usize, n_cols: usize) -> Frame {
    let mut rows: Vec<Vec<u16>> = Vec::new();
    for r in 0..n_rows {
        let mut row: Vec<u16> = Vec::new();
        for c in 0..n_cols {
            row.push((r * n_cols + c) as u16);
        }
        rows.push(row);
    }
    Frame::from_rows(rows).unwrap()
}

fn quad_loop() -> AOLoop {
    let subap_coordinates = vec![
        vec![0, 8, 0, 8],
        vec![0, 8, 8, 16],
        vec![8, 16, 0, 8],
        vec![8, 16, 8, 16],
    ];
    let sh = ShackHartmann::new(16, 16, 8, subap_coordinates, 0).unwrap();
    let mut controller = IntegratorController::new(8, 2, SCALE).unwrap();
    // Row 0 picks measurement 0, row 1 picks measurement 4, both at unit
    // weight.
    let mut matrix = vec![vec![0_i64; 8], vec![0_i64; 8]];
    matrix[0][0] = SCALE;
    matrix[1][4] = SCALE;
    controller.set_control_matrix(matrix).unwrap();
    let dms = vec![DM::new(2), DM::new(2)];
    AOLoop::new(vec![sh], controller, dms).unwrap()
}

#[test]
fn wiring_mismatch_is_a_configuration_error() {
    let sh = ShackHartmann::new(16, 16, 8, vec![vec![0, 8, 0, 8]], 0).unwrap();
    // Sensor produces 2 measurements, controller expects 3.
    let controller = IntegratorController::new(3, 2, SCALE).unwrap();
    assert_eq!(
        AOLoop::new(vec![sh], controller, Vec::new()).err().unwrap(),
        AoError::ConfigurationError
    );

    let sh = ShackHartmann::new(16, 16, 8, vec![vec![0, 8, 0, 8]], 0).unwrap();
    let controller = IntegratorController::new(2, 2, SCALE).unwrap();
    // Sink sized 3 against 2 commands.
    assert_eq!(
        AOLoop::new(vec![sh], controller, vec![DM::new(3)]).err().unwrap(),
        AoError::ConfigurationError
    );

    let controller = IntegratorController::new(2, 2, SCALE).unwrap();
    assert_eq!(
        AOLoop::new(Vec::new(), controller, Vec::new()).err().unwrap(),
        AoError::ConfigurationError
    );

    // No actuator sink at all: the loop must own at least one.
    let sh = ShackHartmann::new(16, 16, 8, vec![vec![0, 8, 0, 8]], 0).unwrap();
    let controller = IntegratorController::new(2, 2, SCALE).unwrap();
    assert_eq!(
        AOLoop::new(vec![sh], controller, Vec::new()).err().unwrap(),
        AoError::ConfigurationError
    );
}

#[test]
fn double_start_is_rejected() {
    let mut l = quad_loop();
    l.start_loop().unwrap();
    assert_eq!(l.start_loop().unwrap_err(), AoError::ConfigurationError);
    l.stop_loop();
    l.start_loop().unwrap();
}

#[test]
fn full_cycle_produces_expected_values() {
    let mut l = quad_loop();
    l.start_loop().unwrap();
    let frames = vec![ramp_frame(16, 16)];

    let ms = l.sense(&frames).unwrap();
    assert_eq!(ms.len(), 1);
    assert_eq!(
        ms[0],
        vec![1411764, 1244444, 448000, 429667, 88235, 77777, 28000, 26854]
    );

    let commands = l.control(&ms[0]).unwrap();
    // gain 1.0 * (1.0 * measurement), at SCALE^3 steps per unit.
    assert_eq!(
        commands,
        vec![1_411_764_000_000_000_000, 88_235_000_000_000_000]
    );

    l.apply(&commands).unwrap();
    assert_eq!(l.dms[0].get_actuators(), commands);
    assert_eq!(l.dms[1].get_actuators(), commands);

    let seq = l.commit_iteration(&ms[0], &commands, 1, 2, 3, 4, 10).unwrap();
    assert_eq!(seq, 0);
    assert_eq!(l.get_iteration_number(), 1);

    // Telemetry carries the committing iteration's sequence number.
    assert_eq!(l.measurement_telemetry.len(), 1);
    assert_eq!(l.measurement_telemetry.get(0).sequence, 0);
    assert_eq!(l.measurement_telemetry.get(0).payload, ms[0]);
    assert_eq!(l.command_telemetry.get(0).payload, commands);

    // Second identical cycle: the integrator accumulates.
    let commands2 = l.control(&ms[0]).unwrap();
    assert_eq!(
        commands2,
        vec![2_823_528_000_000_000_000, 176_470_000_000_000_000]
    );
    l.apply(&commands2).unwrap();
    let seq2 = l.commit_iteration(&ms[0], &commands2, 1, 2, 3, 4, 10).unwrap();
    assert_eq!(seq2, 1);
    assert_eq!(l.get_iteration_number(), 2);
}

#[test]
fn iteration_count_is_monotone() {
    let mut l = quad_loop();
    l.start_loop().unwrap();
    let frames = vec![ramp_frame(16, 16)];
    let ms = l.sense(&frames).unwrap();
    let earlier = l.get_iteration_number();
    for _ in 0..3 {
        let commands = l.control(&ms[0]).unwrap();
        l.apply(&commands).unwrap();
        l.commit_iteration(&ms[0], &commands, 0, 0, 0, 0, 0).unwrap();
        assert!(l.get_iteration_number() >= earlier);
    }
    let later = l.get_iteration_number();
    assert!(later >= earlier);
    assert_eq!(later, earlier + 3);
}

#[test]
fn stop_is_deterministic() {
    let mut l = quad_loop();
    l.start_loop().unwrap();
    let frames = vec![ramp_frame(16, 16)];
    let ms = l.sense(&frames).unwrap();
    let commands = l.control(&ms[0]).unwrap();
    l.commit_iteration(&ms[0], &commands, 0, 0, 0, 0, 0).unwrap();

    l.stop_loop();
    let first = l.get_iteration_number();
    let second = l.get_iteration_number();
    assert_eq!(first, second);
    // No iteration commits after a stop.
    assert_eq!(
        l.commit_iteration(&ms[0], &commands, 0, 0, 0, 0, 0).unwrap_err(),
        AoError::ConfigurationError
    );
    assert_eq!(l.get_iteration_number(), first);
    // Stopping again is a no-op.
    l.stop_loop();
    assert_eq!(l.get_iteration_number(), first);
}

#[test]
fn telemetry_ring_overwrites_after_eight_cycles() {
    let mut l = quad_loop();
    l.start_loop().unwrap();
    let frames = vec![ramp_frame(16, 16)];
    let ms = l.sense(&frames).unwrap();
    for _ in 0..10 {
        let commands = l.control(&ms[0]).unwrap();
        l.apply(&commands).unwrap();
        l.commit_iteration(&ms[0], &commands, 0, 0, 0, 0, 0).unwrap();
    }
    assert_eq!(l.measurement_telemetry.len(), 8);
    // Slots 0 and 1 were overwritten by iterations 8 and 9.
    assert_eq!(l.measurement_telemetry.get(0).sequence, 8);
    assert_eq!(l.measurement_telemetry.get(1).sequence, 9);
    assert_eq!(l.measurement_telemetry.get(2).sequence, 2);
    assert_eq!(l.measurement_telemetry.get(7).sequence, 7);
}

#[test]
fn sense_rejects_missing_or_misshaped_frames() {
    let l = quad_loop();
    let none: Vec<Frame> = Vec::new();
    assert_eq!(l.sense(&none).unwrap_err(), AoError::DimensionError);
    let small = vec![ramp_frame(8, 8)];
    assert_eq!(l.sense(&small).unwrap_err(), AoError::DimensionError);
}

#[test]
fn apply_rejects_wrong_length() {
    let mut l = quad_loop();
    assert_eq!(l.apply(&vec![1, 2, 3]).unwrap_err(), AoError::DimensionError);
    assert_eq!(l.dms[0].get_actuators(), vec![0, 0]);
}

#[test]
fn commit_saturated_counter_is_an_anomaly() {
    let mut l = quad_loop();
    l.start_loop().unwrap();
    l.iteration_number = u64::MAX;
    assert_eq!(
        l.commit_iteration(&vec![0; 8], &vec![0, 0], 0, 0, 0, 0, 0).unwrap_err(),
        AoError::NumericAnomaly
    );
    assert_eq!(l.get_iteration_number(), u64::MAX);
}

#[test]
fn timer_report_renders_exact_sums() {
    let mut t = LoopTimers::new();
    t.record(1, 2, 3, 4, 10);
    t.record(10, 20, 30, 40, 100);
    let report = t.print();
    assert_eq!(
        report,
        "Total Time:      110 ns\nCamera Time:     11 ns\nWFS Time:        22 ns\n\
         Controller Time: 33 ns\nDM Time:         44 ns\n"
    );
}

#[test]
fn timer_record_saturates() {
    let mut t = LoopTimers::new();
    t.record(u64::MAX, 1, 1, 1, u64::MAX);
    t.record(5, 1, 1, 1, 5);
    assert_eq!(t.cam_time, u64::MAX);
    assert_eq!(t.total_time, u64::MAX);
    assert_eq!(t.wfs_time, 2);
    let report = t.print();
    assert!(report.contains("Camera Time:     18446744073709551615 ns\n"));
}

#[test]
fn loop_report_includes_iteration_count() {
    let mut l = quad_loop();
    l.start_loop().unwrap();
    let ms = l.sense(&vec![ramp_frame(16, 16)]).unwrap();
    let commands = l.control(&ms[0]).unwrap();
    l.commit_iteration(&ms[0], &commands, 0, 0, 0, 0, 7).unwrap();
    let report = l.print_timers();
    assert!(report.starts_with("Iterations: 1\n"));
    assert!(report.contains("Total Time:      7 ns\n"));
}

#[test]
fn loop_report_carries_per_iteration_averages() {
    let mut l = quad_loop();
    l.start_loop().unwrap();
    let ms = l.sense(&vec![ramp_frame(16, 16)]).unwrap();
    let commands = l.control(&ms[0]).unwrap();
    l.commit_iteration(&ms[0], &commands, 4, 6, 8, 10, 10).unwrap();
    let commands2 = l.control(&ms[0]).unwrap();
    l.commit_iteration(&ms[0], &commands2, 1, 1, 1, 1, 5).unwrap();
    // Sums: cam 5, wfs 7, ctrl 9, dm 11, total 15 over 2 iterations;
    // averages use integer division.
    let report = l.print_timers();
    assert!(report.contains("Per Iteration:\n"));
    assert!(report.contains("Iteration Time:  7 ns\n"));
    assert!(report.contains("Camera Time:     2 ns\n"));
    assert!(report.contains("WFS Time:        3 ns\n"));
    assert!(report.contains("Controller Time: 4 ns\n"));
    assert!(report.contains("DM Time:         5 ns\n"));
}

#[test]
fn loop_report_is_safe_before_any_iteration() {
    // With the counter at zero the averages are left out, never divided.
    let l = quad_loop();
    let report = l.print_timers();
    assert!(report.starts_with("Iterations: 0\n"));
    assert!(report.contains("Total Time:      0 ns\n"));
    assert!(!report.contains("Per Iteration:"));
}
