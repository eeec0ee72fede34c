//! Rendering rules that need no floating point.
//!
//! Magnitudes are non-negative single-precision floats. For such values the
//! IEEE-754 bit pattern, read as an unsigned integer, orders exactly as the
//! value does, so the global minimum and maximum are found on those keys.
use vstd::prelude::*;

verus! {

/// The rows of a key grid, each as a sequence.
pub open spec fn rows(grid: &Vec<Vec<u32>>) -> Seq<Seq<u32>> {
    Seq::new(grid.len() as nat, |i: int| grid[i]@)
}

/// `(r, c)` names a value of `g`.
pub open spec fn is_cell(g: Seq<Seq<u32>>, r: int, c: int) -> bool {
    0 <= r < g.len() && 0 <= c < g[r].len()
}

/// `g` holds at least one value.
pub open spec fn has_values(g: Seq<Seq<u32>>) -> bool {
    exists|r: int, c: int| #[trigger] is_cell(g, r, c)
}

/// `v` is one of the values of `g`.
pub open spec fn occurs(g: Seq<Seq<u32>>, v: u32) -> bool {
    exists|r: int, c: int| #[trigger] is_cell(g, r, c) && g[r][c] == v
}

/// Every value of `g` lies in `lo..=hi`.
pub open spec fn bounded(g: Seq<Seq<u32>>, lo: u32, hi: u32) -> bool {
    forall|r: int, c: int| #[trigger] is_cell(g, r, c) ==> lo <= g[r][c] <= hi
}

/// Global range of the magnitudes, which fixes how they map to intensities.
#[derive(Clone, Copy, Debug, PartialEq, Eq, Structural)]
pub enum Normalization {
    /// There is no magnitude at all.
    Empty,
    /// Every magnitude equals `level`: the range is degenerate and every
    /// intensity is taken to be zero instead of dividing by zero.
    Flat { level: u32 },
    /// Magnitudes span `min..=max` with `min < max`; intensity is
    /// `(m - min) / (max - min)`.
    Spread { min: u32, max: u32 },
}

/// `n` describes the global range of `g`.
pub open spec fn normalizes(g: Seq<Seq<u32>>, n: Normalization) -> bool {
    match n {
        Normalization::Empty => !has_values(g),
        Normalization::Flat { level } => occurs(g, level) && bounded(g, level, level),
        Normalization::Spread { min, max } => {
            &&& min < max
            &&& occurs(g, min)
            &&& occurs(g, max)
            &&& bounded(g, min, max)
        },
    }
}

/// A grid has exactly one normalization, so computing it again on the same
/// magnitudes gives the same range.
pub proof fn lemma_normalization_unique(g: Seq<Seq<u32>>, a: Normalization, b: Normalization)
    requires
        normalizes(g, a),
        normalizes(g, b),
    ensures
        a == b,
{
    match a {
        Normalization::Empty => {
            if !(b is Empty) {
                assert(has_values(g));
            }
        },
        Normalization::Flat { level } => {
            let (r, c) = choose|r: int, c: int| #[trigger] is_cell(g, r, c) && g[r][c] == level;
            assert(is_cell(g, r, c));
            match b {
                Normalization::Spread { min, max } => {
                    let (r1, c1) = choose|r: int, c: int| #[trigger] is_cell(g, r, c) && g[r][c] == min;
                    let (r2, c2) = choose|r: int, c: int| #[trigger] is_cell(g, r, c) && g[r][c] == max;
                    assert(is_cell(g, r1, c1) && is_cell(g, r2, c2));
                },
                _ => {},
            }
        },
        Normalization::Spread { min, max } => {
            let (r1, c1) = choose|r: int, c: int| #[trigger] is_cell(g, r, c) && g[r][c] == min;
            let (r2, c2) = choose|r: int, c: int| #[trigger] is_cell(g, r, c) && g[r][c] == max;
            assert(is_cell(g, r1, c1) && is_cell(g, r2, c2));
            match b {
                Normalization::Spread { min: min2, max: max2 } => {
                    let (r3, c3) = choose|r: int, c: int|
                        #[trigger] is_cell(g, r, c) && g[r][c] == min2;
                    let (r4, c4) = choose|r: int, c: int|
                        #[trigger] is_cell(g, r, c) && g[r][c] == max2;
                    assert(is_cell(g, r3, c3) && is_cell(g, r4, c4));
                },
                _ => {},
            }
        },
    }
}

/// Smallest and largest value of `row`, if it has any.
fn row_range(row: &Vec<u32>) -> (r: Option<(u32, u32)>)
    ensures
        r is None <==> row.len() == 0,
        r matches Some((lo, hi)) ==> {
            &&& exists|c: int| 0 <= c < row.len() && row[c] == lo
            &&& exists|c: int| 0 <= c < row.len() && row[c] == hi
            &&& forall|c: int| 0 <= c < row.len() ==> lo <= #[trigger] row[c] <= hi
        },
{
    if row.len() == 0 {
        return None;
    }
    let mut lo: u32 = row[0];
    let mut hi: u32 = row[0];
    let mut j: usize = 1;
    while j < row.len()
        invariant
            1 <= j <= row.len(),
            exists|c: int| 0 <= c < j && row[c] == lo,
            exists|c: int| 0 <= c < j && row[c] == hi,
            forall|c: int| 0 <= c < j ==> lo <= #[trigger] row[c] <= hi,
        decreases row.len() - j,
    {
        let x = row[j];
        if x < lo {
            lo = x;
        }
        if x > hi {
            hi = x;
        }
        j = j + 1;
    }
    Some((lo, hi))
}

/// Finds the global minimum and maximum over every value of every row, and
/// classifies the range as empty, flat or spread.
pub fn normalization(grid: &Vec<Vec<u32>>) -> (r: Normalization)
    ensures
        normalizes(rows(grid), r),
{
    let ghost g = rows(grid);
    let mut range: Option<(u32, u32)> = None;
    let mut i: usize = 0;
    while i < grid.len()
        invariant
            g == rows(grid),
            i <= grid.len(),
            range is Some <==> exists|r: int, c: int| #[trigger] is_cell(g, r, c) && r < i,
            range matches Some((lo, hi)) ==> {
                &&& exists|r: int, c: int| #[trigger] is_cell(g, r, c) && r < i && g[r][c] == lo
                &&& exists|r: int, c: int| #[trigger] is_cell(g, r, c) && r < i && g[r][c] == hi
                &&& forall|r: int, c: int| #[trigger] is_cell(g, r, c) && r < i ==> lo <= g[r][c] <= hi
            },
        decreases grid.len() - i,
    {
        let row_r = row_range(&grid[i]);
        assert(g[i as int] == grid[i as int]@);
        match row_r {
            None => {
                assert forall|r: int, c: int| #[trigger] is_cell(g, r, c) && r < i + 1 implies r
                    < i by {
                    if r == i {
                        assert(g[r].len() == 0);
                    }
                }
            },
            Some((rlo, rhi)) => {
                proof {
                    let c_lo = choose|c: int|
                        0 <= c < grid[i as int].len() && grid[i as int][c] == rlo;
                    let c_hi = choose|c: int|
                        0 <= c < grid[i as int].len() && grid[i as int][c] == rhi;
                    assert(is_cell(g, i as int, c_lo) && g[i as int][c_lo] == rlo);
                    assert(is_cell(g, i as int, c_hi) && g[i as int][c_hi] == rhi);
                }
                match range {
                    None => {
                        range = Some((rlo, rhi));
                    },
                    Some((lo, hi)) => {
                        let nlo = if rlo < lo {
                            rlo
                        } else {
                            lo
                        };
                        let nhi = if rhi > hi {
                            rhi
                        } else {
                            hi
                        };
                        range = Some((nlo, nhi));
                    },
                }
                assert forall|r: int, c: int| #[trigger] is_cell(g, r, c) && r == i implies rlo
                    <= g[r][c] <= rhi by {
                    assert(g[r][c] == grid[i as int][c]);
                }
            },
        }
        i = i + 1;
    }
    match range {
        None => Normalization::Empty,
        Some((lo, hi)) => {
            if lo == hi {
                Normalization::Flat { level: lo }
            } else {
                Normalization::Spread { min: lo, max: hi }
            }
        },
    }
}

/// The saturating cast to an eight-bit color channel: negative values become 0,
/// values above 255 become 255, the rest are kept.
pub fn saturate_channel(v: i64) -> (r: u8)
    ensures
        r == (if v < 0 {
            0
        } else if v > 255 {
            255
        } else {
            v
        }),
{
    if v < 0 {
        0
    } else if v > 255 {
        255
    } else {
        v as u8
    }
}

} // verus!
