//! The grid scanner: the kernel applied to every point of the cross product
//! of the two coordinate axes, row range by row range.
//!
//! The scan walks the rows in contiguous chunks, one chunk per worker. Every
//! public scanning function promises the same cell values, so the assembled
//! grid is identical whatever the chunk size and worker count.

use vstd::prelude::*;

use crate::coord::{Coordinate, Point};
use crate::kernel::{converge_count, converge_point, default_tolerance, default_tolerance_bits};

verus! {

/// Whether `grid` holds exactly the kernel counts for the given axes: one row
/// per y coordinate, one column per x coordinate.
pub open spec fn grid_matches(
    grid: Seq<Seq<i32>>,
    xs: Seq<u32>,
    ys: Seq<u32>,
    offset: (u32, u32),
    max_iter: int,
    eps: u32,
) -> bool {
    &&& grid.len() == ys.len()
    &&& forall|r: int|
        0 <= r < ys.len() ==> #[trigger] grid[r].len() == xs.len()
    &&& forall|r: int, col: int|
        0 <= r < ys.len() && 0 <= col < xs.len() ==> #[trigger] grid[r][col] == converge_count(
            xs[col],
            ys[r],
            offset,
            max_iter,
            eps,
        )
}

/// The bit patterns of a sequence of coordinates.
pub open spec fn bits_of(axis: Seq<Coordinate>) -> Seq<u32> {
    Seq::new(axis.len(), |i: int| axis[i]@)
}

/// Any two grids that hold the kernel counts for the same axes, offset, cap
/// and tolerance are identical, cell for cell: the assembled grid does not
/// depend on the worker count or the chunk decomposition that produced it.
pub proof fn lemma_scan_grid_unique(
    g1: Seq<Seq<i32>>,
    g2: Seq<Seq<i32>>,
    xs: Seq<u32>,
    ys: Seq<u32>,
    offset: (u32, u32),
    max_iter: int,
    eps: u32,
)
    requires
        grid_matches(g1, xs, ys, offset, max_iter, eps),
        grid_matches(g2, xs, ys, offset, max_iter, eps),
    ensures
        g1 == g2,
{
    assert forall|r: int| 0 <= r < g1.len() implies g1[r] == g2[r] by {
        assert(g1[r] =~= g2[r]);
    }
    assert(g1 =~= g2);
}

/// Computes the rows `lo..hi` of the grid and appends them to `grid`.
fn scan_rows_into(
    grid: &mut Vec<Vec<i32>>,
    xs: &Vec<Coordinate>,
    ys: &Vec<Coordinate>,
    lo: usize,
    hi: usize,
    point_offset: &Point,
    max_iter: i32,
    eps: &Coordinate,
)
    requires
        lo <= hi <= ys@.len(),
    ensures
        final(grid)@.len() == old(grid)@.len() + (hi - lo),
        forall|r: int| 0 <= r < old(grid)@.len() ==> final(grid)@[r] == old(grid)@[r],
        forall|r: int|
            old(grid)@.len() <= r < final(grid)@.len() ==> (#[trigger] final(grid)@[r])@.len()
                == xs@.len(),
        forall|r: int, col: int|
            #![trigger final(grid)@[r]@[col]]
            old(grid)@.len() <= r < final(grid)@.len() && 0 <= col < xs@.len()
                ==> final(grid)@[r]@[col] == converge_count(
                xs@[col]@,
                ys@[lo + (r - old(grid)@.len())]@,
                point_offset@,
                max_iter as int,
                eps@,
            ),
{
    let mut r: usize = lo;
    while r < hi
        invariant
            lo <= r <= hi <= ys@.len(),
            grid@.len() == old(grid)@.len() + (r - lo),
            forall|i: int| 0 <= i < old(grid)@.len() ==> grid@[i] == old(grid)@[i],
            forall|i: int|
                old(grid)@.len() <= i < grid@.len() ==> (#[trigger] grid@[i])@.len() == xs@.len(),
            forall|i: int, col: int|
                #![trigger grid@[i]@[col]]
                old(grid)@.len() <= i < grid@.len() && 0 <= col < xs@.len() ==> grid@[i]@[col]
                    == converge_count(xs@[col]@, ys@[lo + (i - old(grid)@.len())]@, point_offset@,
                    max_iter as int, eps@),
        decreases hi - r,
    {
        let mut row: Vec<i32> = Vec::new();
        let mut col: usize = 0;
        let width = xs.len();
        while col < width
            invariant
                col <= width,
                width == xs@.len(),
                r < ys@.len(),
                row@.len() == col,
                forall|c: int|
                    0 <= c < col ==> row@[c] == converge_count(xs@[c]@, ys@[r as int]@,
                        point_offset@, max_iter as int, eps@),
            decreases width - col,
        {
            let count = converge_point(&xs[col], &ys[r], point_offset, max_iter, eps);
            row.push(count);
            col = col + 1;
        }
        grid.push(row);
        r = r + 1;
    }
}

/// Returns how many times each point of the given axes is transformed: the
/// full-width sub-grid for one contiguous row range, computed by one worker.
pub fn converge_point_set(
    xs: &Vec<Coordinate>,
    ys: &Vec<Coordinate>,
    point_offset: &Point,
    max_iter: i32,
    eps: &Coordinate,
) -> (grid: Vec<Vec<i32>>)
    ensures
        grid_matches(grid.deep_view(), bits_of(xs@), bits_of(ys@), point_offset@, max_iter as int,
            eps@),
{
    let mut grid: Vec<Vec<i32>> = Vec::new();
    scan_rows_into(&mut grid, xs, ys, 0, ys.len(), point_offset, max_iter, eps);
    proof {
        assert(forall|r: int|
            0 <= r < ys@.len() ==> grid.deep_view()[r] == #[trigger] grid@[r]@);
    }
    grid
}

/// Scans the whole grid by contiguous row chunks of the given length, the
/// last chunk absorbing any shorter remainder.
///
/// The chunk length decides only the order of work: the resulting grid equals
/// the kernel counts cell for cell, whatever chunk length a caller picks, so
/// any two chunk decompositions assemble the same grid.
pub fn scan_points_chunked(
    x_offset: &Coordinate,
    y_offset: &Coordinate,
    max_iter: i32,
    xs: &Vec<Coordinate>,
    ys: &Vec<Coordinate>,
    chunk_len: usize,
) -> (grid: Vec<Vec<i32>>)
    requires
        chunk_len >= 1,
    ensures
        grid_matches(grid.deep_view(), bits_of(xs@), bits_of(ys@), (x_offset@, y_offset@),
            max_iter as int, default_tolerance_bits()),
{
    let point_offset = Point::new(x_offset, y_offset);
    let eps = default_tolerance();
    let n_ys = ys.len();
    let mut grid: Vec<Vec<i32>> = Vec::new();
    let mut done: usize = 0;
    while done < n_ys
        invariant
            chunk_len >= 1,
            done <= n_ys,
            n_ys == ys@.len(),
            point_offset@ == (x_offset@, y_offset@),
            eps@ == default_tolerance_bits(),
            grid@.len() == done,
            forall|r: int| 0 <= r < done ==> (#[trigger] grid@[r])@.len() == xs@.len(),
            forall|r: int, col: int|
                #![trigger grid@[r]@[col]]
                0 <= r < done && 0 <= col < xs@.len() ==> grid@[r]@[col]
                    == converge_count(xs@[col]@, ys@[r]@, point_offset@, max_iter as int, eps@),
        decreases n_ys - done,
    {
        let remaining = n_ys - done;
        let step = if remaining < chunk_len || remaining - chunk_len < chunk_len {
            remaining
        } else {
            chunk_len
        };
        scan_rows_into(&mut grid, xs, ys, done, done + step, &point_offset, max_iter, &eps);
        done = done + step;
    }
    proof {
        assert(forall|r: int|
            0 <= r < ys@.len() ==> grid.deep_view()[r] == #[trigger] grid@[r]@);
    }
    grid
}

/// Relies on num_cpus::get, which reports at least one available processor.
#[verifier::external_body]
fn available_workers() -> (n: usize)
    ensures
        n >= 1,
{
    num_cpus::get()
}

/// Returns how many times each point of the grid is transformed, with the
/// default tolerance, splitting the rows into one chunk per available worker.
///
/// The worker count never shows in the result: the grid equals the kernel
/// counts cell for cell.
pub fn scan_points(
    x_offset: &Coordinate,
    y_offset: &Coordinate,
    max_iter: i32,
    xs: &Vec<Coordinate>,
    ys: &Vec<Coordinate>,
) -> (grid: Vec<Vec<i32>>)
    ensures
        grid_matches(grid.deep_view(), bits_of(xs@), bits_of(ys@), (x_offset@, y_offset@),
            max_iter as int, default_tolerance_bits()),
{
    let n_workers = available_workers();
    let per_worker = ys.len() / n_workers;
    let chunk_len = if per_worker == 0 {
        1
    } else {
        per_worker
    };
    scan_points_chunked(x_offset, y_offset, max_iter, xs, ys, chunk_len)
}

} // verus!
