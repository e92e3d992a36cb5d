use rust_ao::error::AoError;
use rust_ao::frame::Frame;
use rust_ao::wfs::centreofgravity::centre_of_gravity_sums;
use rust_ao::wfs::ShackHartmann;

fn ramp_frame(n_rows: usize, n_cols: usize) -> Frame {
    let mut rows: Vec<Vec<u16>> = Vec::new();
    for r in 0..n_rows {
        let mut row: Vec<u16> = Vec::new();
        for c in 0..n_cols {
            row.push((r * n_cols + c) as u16);
        }
        rows.push(row);
    }
    Frame::from_rows(rows).unwrap()
}

fn quad_sensor() -> ShackHartmann {
    let subap_coordinates = vec![
        vec![0, 8, 0, 8],
        vec![0, 8, 8, 16],
        vec![8, 16, 0, 8],
        vec![8, 16, 8, 16],
    ];
    ShackHartmann::new(16, 16, 8, subap_coordinates, 0).unwrap()
}

#[test]
fn test_shackhartmann() {
    // A 16x16 ramp frame 0..255 split into four 8x8 corner subapertures
    // must reproduce the fixed centroid regression values.
    let sh = quad_sensor();
    let frame = ramp_frame(16, 16);
    let measurements = sh.measure(&frame);

    // Exact fixed-point centroids (micro-pixels, rounded toward zero).
    let expected: Vec<i64> = vec![1411764, 1244444, 448000, 429667, 88235, 77777, 28000, 26854];
    assert_eq!(measurements, expected);

    // The same data pushed through single-precision arithmetic, as a
    // float pipeline would compute it, gives the regression values in
    // that form, bit for bit.
    let expected_f32: Vec<f32> = vec![
        1.4117646, 1.2444444, 0.44799995, 0.42966747, 0.08823538, 0.07777786, 0.028000116,
        0.026854277,
    ];
    let mut got_f32: Vec<f32> = vec![0.0; 8];
    for i in 0..4 {
        let grid = sh.calibrated_subap(&frame, i);
        let (rm, cm, t) = centre_of_gravity_sums(&grid);
        got_f32[i] = rm as f32 / t as f32 - 8.0 / 2.0 + 0.5;
        got_f32[i + 4] = cm as f32 / t as f32 - 8.0 / 2.0 + 0.5;
    }
    assert_eq!(got_f32, expected_f32);
}

#[test]
fn geometry_out_of_bounds_is_rejected() {
    // A rectangle reaching past the frame fails at construction, never at
    // measure time.
    let bad = vec![vec![0, 8, 0, 8], vec![9, 17, 0, 8]];
    assert_eq!(
        ShackHartmann::new(16, 16, 8, bad, 0).unwrap_err(),
        AoError::ConfigurationError
    );
}

#[test]
fn geometry_wrong_square_is_rejected() {
    // In bounds, but not pixels_per_subap wide.
    let bad = vec![vec![0, 7, 0, 8]];
    assert!(ShackHartmann::new(16, 16, 8, bad, 0).is_err());
    let bad = vec![vec![0, 8, 0, 8, 1]];
    assert!(ShackHartmann::new(16, 16, 8, bad, 0).is_err());
}

#[test]
fn zero_subapertures_is_rejected() {
    let none: Vec<Vec<usize>> = Vec::new();
    assert_eq!(
        ShackHartmann::new(16, 16, 8, none, 0).unwrap_err(),
        AoError::ConfigurationError
    );
}

#[test]
fn geometry_in_bounds_is_accepted() {
    let sh = quad_sensor();
    assert_eq!(sh.n_measurements, 8);
    assert_eq!(sh.n_subaps, 4);
}

#[test]
fn measure_small_case_exact() {
    // 2x2 frame [[0, 1], [2, 3]], one subaperture over the whole frame:
    // total 6, row moment 5, column moment 4, so
    // x = (10 - 6) / 12 and y = (8 - 6) / 12 in units of a pixel.
    let frame = Frame::from_rows(vec![vec![0, 1], vec![2, 3]]).unwrap();
    let sh = ShackHartmann::new(2, 2, 2, vec![vec![0, 2, 0, 2]], 0).unwrap();
    let m = sh.measure(&frame);
    assert_eq!(m, vec![333333, 166666]);
}

#[test]
fn empty_frame_is_accepted() {
    let f = rust_ao::frame::Frame::from_rows(Vec::new()).unwrap();
    assert_eq!(f.n_rows, 0);
    assert_eq!(f.n_cols, 0);
}

#[test]
fn ragged_frame_is_rejected() {
    assert!(rust_ao::frame::Frame::from_rows(vec![vec![1, 2], vec![3]]).is_err());
}

#[test]
fn zero_sized_subaperture_measures_centre() {
    // A degenerate zero-pixel subaperture has zero total intensity, which
    // the documented policy maps to the geometric centre.
    let frame = rust_ao::frame::Frame::from_rows(vec![vec![5, 6], vec![7, 8]]).unwrap();
    let sh = ShackHartmann::new(2, 2, 0, vec![vec![1, 1, 1, 1]], 0).unwrap();
    assert_eq!(sh.measure(&frame), vec![0, 0]);
}

#[test]
fn default_calibration_is_identity() {
    let sh = quad_sensor();
    let frame = ramp_frame(16, 16);
    let grid = sh.calibrated_subap(&frame, 1);
    // Subaperture 1 covers rows 0..8, cols 8..16 of the ramp.
    for r in 0..8 {
        for c in 0..8 {
            assert_eq!(grid.vals[r][c], (r * 16 + c + 8) as i64);
        }
    }
}
