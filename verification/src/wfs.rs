//! Wavefront sensing: partitioning a frame into fixed subapertures,
//! calibrating each pixel and measuring per-subaperture centroids.

pub mod centreofgravity;

use vstd::prelude::*;

use crate::error::AoError;
use crate::fixed::{
    div_trunc, lemma_div_trunc_bound, spec_div_trunc, MAP_LIMIT, MAX_DIM, VAL_LIMIT,
};
use crate::frame::Frame;
use crate::wfs::centreofgravity::{
    is_uniform, lemma_uniform_centroid, simple_centre_of_gravity, spec_cog_x, spec_cog_y,
    PixelGrid,
};

verus! {

/// Bare geometry of a wavefront sensor input: frame shape and the length
/// of the measurement vector it produces.
#[derive(Debug)]
pub struct WFS {
    pub n_rows: usize,
    pub n_cols: usize,
    pub n_measurements: usize,
}

/// A Shack-Hartmann sensor: a fixed set of square subapertures of a frame,
/// per-subaperture calibration maps, and a detector identifier selecting
/// its input among several acquisition sources.
///
/// Each subaperture is given as `[row_start, row_end, col_start, col_end]`
/// with exclusive ends, and must be an in-bounds
/// `pixels_per_subap x pixels_per_subap` square.  Calibration maps are
/// fixed at construction: zero dark and background, unit flat.
#[derive(Debug)]
pub struct ShackHartmann {
    pub n_rows: usize,
    pub n_cols: usize,
    pub n_measurements: usize,
    pub n_subaps: usize,
    pub pixels_per_subap: usize,
    pub subap_coordinates: Vec<Vec<usize>>,
    pub dark_subaps: Vec<PixelGrid>,
    pub flat_subaps: Vec<PixelGrid>,
    pub bg_subaps: Vec<PixelGrid>,
    pub detector_id: usize,
}

impl ShackHartmann {
    /// One subaperture rectangle is a well-placed square.
    pub open spec fn rect_ok(&self, i: int) -> bool {
        let sc = self.subap_coordinates[i];
        &&& sc.len() == 4
        &&& sc[0] <= sc[1] <= self.n_rows
        &&& sc[2] <= sc[3] <= self.n_cols
        &&& sc[1] - sc[0] == self.pixels_per_subap
        &&& sc[3] - sc[2] == self.pixels_per_subap
    }

    /// One calibration offset map (dark or background) is a bounded
    /// `pixels_per_subap`-square grid.
    pub open spec fn offset_map_ok(&self, g: PixelGrid) -> bool {
        &&& g.wf()
        &&& g.n_rows == self.pixels_per_subap
        &&& g.n_cols == self.pixels_per_subap
        &&& forall|r: int, c: int|
            0 <= r < g.n_rows && 0 <= c < g.n_cols
                ==> -MAP_LIMIT <= #[trigger] g@[r][c] <= MAP_LIMIT
    }

    /// A flat map additionally holds strictly positive divisors.
    pub open spec fn flat_map_ok(&self, g: PixelGrid) -> bool {
        &&& self.offset_map_ok(g)
        &&& forall|r: int, c: int|
            0 <= r < g.n_rows && 0 <= c < g.n_cols ==> 1 <= #[trigger] g@[r][c]
    }

    /// The geometry invariant: every subaperture lies within the frame,
    /// counts agree, and the calibration maps have the right shape.
    pub open spec fn wf(&self) -> bool {
        &&& self.n_rows <= MAX_DIM
        &&& self.n_cols <= MAX_DIM
        &&& self.n_subaps == self.subap_coordinates.len()
        &&& self.n_subaps >= 1
        &&& self.n_measurements == 2 * self.n_subaps
        &&& forall|i: int| 0 <= i < self.n_subaps ==> self.rect_ok(i)
        &&& self.dark_subaps.len() == self.n_subaps
        &&& self.flat_subaps.len() == self.n_subaps
        &&& self.bg_subaps.len() == self.n_subaps
        &&& forall|i: int|
            0 <= i < self.n_subaps ==> self.offset_map_ok(#[trigger] self.dark_subaps[i])
        &&& forall|i: int|
            0 <= i < self.n_subaps ==> self.offset_map_ok(#[trigger] self.bg_subaps[i])
        &&& forall|i: int|
            0 <= i < self.n_subaps ==> self.flat_map_ok(#[trigger] self.flat_subaps[i])
    }

    /// The calibrated value of local pixel `(r, c)` of subaperture `i`:
    /// `(raw - background - dark) / flat`, rounded toward zero.
    pub open spec fn spec_calibrated_pixel(
        &self,
        frame: Seq<Seq<u16>>,
        i: int,
        r: int,
        c: int,
    ) -> int {
        let sc = self.subap_coordinates[i];
        let raw = frame[sc[0] + r][sc[2] + c] as int;
        spec_div_trunc(
            raw - self.bg_subaps[i]@[r][c] - self.dark_subaps[i]@[r][c],
            self.flat_subaps[i]@[r][c] as int,
        )
    }

    /// The whole calibrated grid of subaperture `i`.
    pub open spec fn spec_subap_grid(&self, frame: Seq<Seq<u16>>, i: int) -> Seq<Seq<i64>> {
        Seq::new(
            self.pixels_per_subap as nat,
            |r: int| Seq::new(
                self.pixels_per_subap as nat,
                |c: int| self.spec_calibrated_pixel(frame, i, r, c) as i64,
            ),
        )
    }

    /// The measurement owed for subaperture `i`: its centroid's row
    /// coordinate; the column coordinate is owed at slot `i + n_subaps`.
    pub open spec fn spec_measurement_x(&self, frame: Seq<Seq<u16>>, i: int) -> int {
        spec_cog_x(self.spec_subap_grid(frame, i), self.pixels_per_subap as int)
    }

    /// The column-coordinate counterpart of `spec_measurement_x`.
    pub open spec fn spec_measurement_y(&self, frame: Seq<Seq<u16>>, i: int) -> int {
        spec_cog_y(self.spec_subap_grid(frame, i), self.pixels_per_subap as int)
    }

    /// The whole measurement vector owed for a frame: x centroids in the
    /// first half, y centroids in the second.
    pub open spec fn spec_measurements(&self, frame: Seq<Seq<u16>>) -> Seq<i64> {
        Seq::new(
            self.n_measurements as nat,
            |k: int| if k < self.n_subaps {
                self.spec_measurement_x(frame, k) as i64
            } else {
                self.spec_measurement_y(frame, k - self.n_subaps) as i64
            },
        )
    }

    /// A sensor over an `n_rows x n_cols` frame with the given subaperture
    /// squares and default calibration (zero dark and background, unit
    /// flat).  Rejects, at construction and never at measure time: an
    /// oversized frame, an empty subaperture list, and any rectangle that
    /// is not an in-bounds `pixels_per_subap` square.
    pub fn new(
        n_rows: usize,
        n_cols: usize,
        pixels_per_subap: usize,
        subap_coordinates: Vec<Vec<usize>>,
        detector_id: usize,
    ) -> (result: Result<ShackHartmann, AoError>)
        ensures
            result is Ok <==> {
                &&& n_rows <= MAX_DIM
                &&& n_cols <= MAX_DIM
                &&& subap_coordinates.len() >= 1
                &&& 2 * subap_coordinates.len() <= usize::MAX
                &&& forall|i: int| 0 <= i < subap_coordinates.len() ==> {
                    let sc = #[trigger] subap_coordinates[i];
                    &&& sc.len() == 4
                    &&& sc[0] <= sc[1] <= n_rows
                    &&& sc[2] <= sc[3] <= n_cols
                    &&& sc[1] - sc[0] == pixels_per_subap
                    &&& sc[3] - sc[2] == pixels_per_subap
                }
            },
            result matches Ok(s) ==> {
                &&& s.wf()
                &&& s.n_rows == n_rows
                &&& s.n_cols == n_cols
                &&& s.pixels_per_subap == pixels_per_subap
                &&& s.n_subaps == subap_coordinates.len()
                &&& s.n_measurements == 2 * subap_coordinates.len()
                &&& s.subap_coordinates == subap_coordinates
                &&& s.detector_id == detector_id
                &&& forall|i: int, r: int, c: int|
                    0 <= i < s.n_subaps && 0 <= r < pixels_per_subap && 0 <= c < pixels_per_subap
                        ==> #[trigger] s.dark_subaps[i]@[r][c] == 0
                            && s.bg_subaps[i]@[r][c] == 0
                            && s.flat_subaps[i]@[r][c] == 1
            },
            result matches Err(e) ==> e == AoError::ConfigurationError,
    {
        if n_rows > MAX_DIM || n_cols > MAX_DIM {
            return Err(AoError::ConfigurationError);
        }
        let n_subaps = subap_coordinates.len();
        if n_subaps == 0 {
            return Err(AoError::ConfigurationError);
        }
        if n_subaps > usize::MAX / 2 {
            return Err(AoError::ConfigurationError);
        }
        for i in 0..n_subaps
            invariant
                n_subaps == subap_coordinates.len(),
                n_rows <= MAX_DIM,
                n_cols <= MAX_DIM,
                forall|j: int| 0 <= j < i ==> {
                    let sc = #[trigger] subap_coordinates[j];
                    &&& sc.len() == 4
                    &&& sc[0] <= sc[1] <= n_rows
                    &&& sc[2] <= sc[3] <= n_cols
                    &&& sc[1] - sc[0] == pixels_per_subap
                    &&& sc[3] - sc[2] == pixels_per_subap
                },
        {
            let sc = &subap_coordinates[i];
            if sc.len() != 4 {
                return Err(AoError::ConfigurationError);
            }
            let ok = sc[0] <= sc[1] && sc[1] <= n_rows && sc[2] <= sc[3] && sc[3] <= n_cols
                && sc[1] - sc[0] == pixels_per_subap && sc[3] - sc[2] == pixels_per_subap;
            if !ok {
                return Err(AoError::ConfigurationError);
            }
        }
        let px = pixels_per_subap;
        proof {
            assert(subap_coordinates.len() >= 1);
            assert(subap_coordinates[0].len() == 4);
        }
        let mut dark_subaps: Vec<PixelGrid> = Vec::new();
        let mut flat_subaps: Vec<PixelGrid> = Vec::new();
        let mut bg_subaps: Vec<PixelGrid> = Vec::new();
        let mut i: usize = 0;
        while i < n_subaps
            invariant
                px <= MAX_DIM,
                dark_subaps.len() == i,
                flat_subaps.len() == i,
                bg_subaps.len() == i,
                i <= n_subaps,
                forall|j: int| 0 <= j < i ==> {
                    let g = #[trigger] dark_subaps[j];
                    g.wf() && g.n_rows == px && g.n_cols == px
                        && forall|r: int, c: int|
                            0 <= r < px && 0 <= c < px ==> #[trigger] g@[r][c] == 0
                },
                forall|j: int| 0 <= j < i ==> {
                    let g = #[trigger] bg_subaps[j];
                    g.wf() && g.n_rows == px && g.n_cols == px
                        && forall|r: int, c: int|
                            0 <= r < px && 0 <= c < px ==> #[trigger] g@[r][c] == 0
                },
                forall|j: int| 0 <= j < i ==> {
                    let g = #[trigger] flat_subaps[j];
                    g.wf() && g.n_rows == px && g.n_cols == px
                        && forall|r: int, c: int|
                            0 <= r < px && 0 <= c < px ==> #[trigger] g@[r][c] == 1
                },
            decreases n_subaps - i,
        {
            let dark = match PixelGrid::filled(px, px, 0) {
                Ok(g) => g,
                Err(_) => { return Err(AoError::ConfigurationError); },
            };
            let bg = match PixelGrid::filled(px, px, 0) {
                Ok(g) => g,
                Err(_) => { return Err(AoError::ConfigurationError); },
            };
            let flat = match PixelGrid::filled(px, px, 1) {
                Ok(g) => g,
                Err(_) => { return Err(AoError::ConfigurationError); },
            };
            dark_subaps.push(dark);
            bg_subaps.push(bg);
            flat_subaps.push(flat);
            i = i + 1;
        }
        Ok(ShackHartmann {
            n_rows,
            n_cols,
            n_measurements: 2 * n_subaps,
            n_subaps,
            pixels_per_subap,
            subap_coordinates,
            dark_subaps,
            flat_subaps,
            bg_subaps,
            detector_id,
        })
    }

    /// The calibrated pixel grid of subaperture `i`, cut from `frame`.
    pub fn calibrated_subap(&self, frame: &Frame, i: usize) -> (g: PixelGrid)
        requires
            self.wf(),
            frame.wf(),
            frame.n_rows == self.n_rows,
            frame.n_cols == self.n_cols,
            i < self.n_subaps,
        ensures
            g.wf(),
            g.n_rows == self.pixels_per_subap,
            g.n_cols == self.pixels_per_subap,
            g@ == self.spec_subap_grid(frame@, i as int),
    {
        let px = self.pixels_per_subap;
        proof {
            assert(self.rect_ok(i as int));
        }
        let r0 = self.subap_coordinates[i][0];
        let c0 = self.subap_coordinates[i][2];
        let mut vals: Vec<Vec<i64>> = Vec::new();
        for r in 0..px
            invariant
                self.wf(),
                frame.wf(),
                frame.n_rows == self.n_rows,
                frame.n_cols == self.n_cols,
                i < self.n_subaps,
                px == self.pixels_per_subap,
                self.rect_ok(i as int),
                r0 == self.subap_coordinates[i as int][0],
                c0 == self.subap_coordinates[i as int][2],
                vals.len() == r,
                forall|rr: int| 0 <= rr < r ==> (#[trigger] vals[rr]).len() == px,
                forall|rr: int, cc: int|
                    0 <= rr < r && 0 <= cc < px
                        ==> #[trigger] vals[rr]@[cc]
                            == self.spec_calibrated_pixel(frame@, i as int, rr, cc) as i64,
                forall|rr: int, cc: int|
                    0 <= rr < r && 0 <= cc < px
                        ==> -VAL_LIMIT <= #[trigger] vals[rr]@[cc] <= VAL_LIMIT,
        {
            let mut row: Vec<i64> = Vec::new();
            for c in 0..px
                invariant
                    self.wf(),
                    frame.wf(),
                    frame.n_rows == self.n_rows,
                    frame.n_cols == self.n_cols,
                    i < self.n_subaps,
                    px == self.pixels_per_subap,
                    r < px,
                    self.rect_ok(i as int),
                    r0 == self.subap_coordinates[i as int][0],
                    c0 == self.subap_coordinates[i as int][2],
                    row.len() == c,
                    forall|cc: int|
                        0 <= cc < c
                            ==> #[trigger] row[cc]
                                == self.spec_calibrated_pixel(frame@, i as int, r as int, cc) as i64,
                    forall|cc: int| 0 <= cc < c ==> -VAL_LIMIT <= #[trigger] row[cc] <= VAL_LIMIT,
            {
                let raw = frame.get(r0 + r, c0 + c) as i64;
                let bg = self.bg_subaps[i].vals[r][c];
                let dark = self.dark_subaps[i].vals[r][c];
                let flat = self.flat_subaps[i].vals[r][c];
                proof {
                    assert(self.offset_map_ok(self.bg_subaps[i as int]));
                    assert(self.offset_map_ok(self.dark_subaps[i as int]));
                    assert(self.flat_map_ok(self.flat_subaps[i as int]));
                    assert(self.bg_subaps[i as int]@[r as int][c as int] == bg);
                    assert(self.dark_subaps[i as int]@[r as int][c as int] == dark);
                    assert(self.flat_subaps[i as int]@[r as int][c as int] == flat);
                    lemma_div_trunc_bound(
                        raw as int - bg as int - dark as int,
                        flat as int,
                        VAL_LIMIT as int,
                    );
                }
                let v = div_trunc((raw - bg - dark) as i128, flat as i128) as i64;
                row.push(v);
            }
            vals.push(row);
        }
        let g = PixelGrid { n_rows: px, n_cols: px, vals };
        proof {
            assert(g@ =~~= self.spec_subap_grid(frame@, i as int));
        }
        g
    }

    /// The measurement vector of one frame: for each subaperture `i`, the
    /// centroid's row coordinate lands in slot `i` and its column
    /// coordinate in slot `i + n_subaps`, both in fixed point relative to
    /// the subaperture's centre.
    pub fn measure(&self, frame: &Frame) -> (m: Vec<i64>)
        requires
            self.wf(),
            frame.wf(),
            frame.n_rows == self.n_rows,
            frame.n_cols == self.n_cols,
        ensures
            m.len() == self.n_measurements,
            forall|i: int|
                0 <= i < self.n_subaps ==> #[trigger] m[i] == self.spec_measurement_x(frame@, i),
            forall|i: int|
                0 <= i < self.n_subaps
                    ==> #[trigger] m[i + self.n_subaps] == self.spec_measurement_y(frame@, i),
            m@ == self.spec_measurements(frame@),
    {
        let n_subaps = self.n_subaps;
        let mut m: Vec<i64> = Vec::new();
        for k in 0..self.n_measurements
            invariant
                m.len() == k,
        {
            m.push(0);
        }
        for i in 0..n_subaps
            invariant
                self.wf(),
                frame.wf(),
                frame.n_rows == self.n_rows,
                frame.n_cols == self.n_cols,
                n_subaps == self.n_subaps,
                m.len() == self.n_measurements,
                forall|j: int|
                    0 <= j < i ==> #[trigger] m[j] == self.spec_measurement_x(frame@, j),
                forall|j: int|
                    0 <= j < i
                        ==> #[trigger] m[j + n_subaps] == self.spec_measurement_y(frame@, j),
        {
            let g = self.calibrated_subap(frame, i);
            let (x, y) = simple_centre_of_gravity(&g);
            m.set(i, x);
            m.set(i + n_subaps, y);
        }
        proof {
            assert forall|k: int| 0 <= k < m.len() implies m[k]
                == self.spec_measurements(frame@)[k] by {
                if k < self.n_subaps {
                    assert(m[k] == self.spec_measurement_x(frame@, k));
                } else {
                    assert(m[(k - self.n_subaps) + self.n_subaps]
                        == self.spec_measurement_y(frame@, k - self.n_subaps));
                }
            }
            assert(m@ =~= self.spec_measurements(frame@));
        }
        m
    }
}

/// Centroid correctness on a flat field: with the default calibration
/// construction installs, a subaperture whose pixels all read the same
/// raw value measures exactly its geometric centre -- both coordinates
/// are zero.
pub proof fn lemma_uniform_subaperture_measures_centre(
    s: ShackHartmann,
    frame: Seq<Seq<u16>>,
    i: int,
    v: u16,
)
    requires
        s.wf(),
        0 <= i < s.n_subaps,
        forall|r: int, c: int|
            0 <= r < s.pixels_per_subap && 0 <= c < s.pixels_per_subap
                ==> #[trigger] s.dark_subaps[i]@[r][c] == 0 && s.bg_subaps[i]@[r][c] == 0
                    && s.flat_subaps[i]@[r][c] == 1,
        forall|r: int, c: int|
            0 <= r < s.pixels_per_subap && 0 <= c < s.pixels_per_subap
                ==> #[trigger] frame[s.subap_coordinates[i][0] + r][s.subap_coordinates[i][2] + c]
                    == v,
    ensures
        s.spec_measurement_x(frame, i) == 0,
        s.spec_measurement_y(frame, i) == 0,
{
    let g = s.spec_subap_grid(frame, i);
    let px = s.pixels_per_subap as int;
    assert forall|r: int, c: int| 0 <= r < px && 0 <= c < px implies #[trigger] g[r][c]
        == v as i64 by {
        assert(s.spec_calibrated_pixel(frame, i, r, c) == spec_div_trunc(v as int, 1));
        assert(spec_div_trunc(v as int, 1) == v as int);
    }
    assert(is_uniform(g, px, v as i64));
    lemma_uniform_centroid(g, px, px, v as i64);
}

/// Geometry invariant: in every well-formed sensor -- and construction
/// yields no other -- each subaperture is a square of `pixels_per_subap`
/// pixels lying entirely within the `n_rows x n_cols` frame.
pub proof fn lemma_geometry_invariant(s: ShackHartmann)
    requires
        s.wf(),
    ensures
        forall|i: int| 0 <= i < s.n_subaps ==> {
            let sc = #[trigger] s.subap_coordinates[i];
            &&& sc.len() == 4
            &&& sc[0] <= sc[1] <= s.n_rows
            &&& sc[2] <= sc[3] <= s.n_cols
            &&& sc[1] - sc[0] == s.pixels_per_subap
            &&& sc[3] - sc[2] == s.pixels_per_subap
        },
{
    assert forall|i: int| 0 <= i < s.n_subaps implies {
        let sc = #[trigger] s.subap_coordinates[i];
        &&& sc.len() == 4
        &&& sc[0] <= sc[1] <= s.n_rows
        &&& sc[2] <= sc[3] <= s.n_cols
        &&& sc[1] - sc[0] == s.pixels_per_subap
        &&& sc[3] - sc[2] == s.pixels_per_subap
    } by {
        assert(s.rect_ok(i));
    }
}

} // verus!
