//! The count-to-color mapping: a palette over the counts that occur, and the
//! raster of color channels for a whole grid.

use vstd::prelude::*;

verus! {

/// One color, as red, green and blue channel values.
#[derive(Clone, Copy, PartialEq, Eq, Structural, Debug)]
pub struct Color {
    pub r: u8,
    pub g: u8,
    pub b: u8,
}

/// The channel values of the fixed perceptual gradient sampled at position
/// `i` of `n`: the low end at zero, the high end at `n - 1`.
pub uninterp spec fn gradient_rgb(i: int, n: int) -> (u8, u8, u8);

/// Relies on the colorous crate's CIVIDIS gradient: `eval_rational(i, n)`
/// samples the gradient at `i / (n - 1)`, taking the high end when `n` is
/// one; the sample is a function of the two numbers alone, and the call
/// faults only when `n` is zero.
#[verifier::external_body]
fn gradient_color(i: usize, n: usize) -> (c: Color)
    requires
        n >= 1,
    ensures
        (c.r, c.g, c.b) == gradient_rgb(i as int, n as int),
{
    let sample = colorous::CIVIDIS.eval_rational(i, n);
    Color { r: sample.r, g: sample.g, b: sample.b }
}

/// The largest count of a row, folded onto `acc`.
pub open spec fn row_max_from(row: Seq<i32>, acc: int) -> int
    decreases row.len(),
{
    if row.len() == 0 {
        acc
    } else {
        row_max_from(row.drop_first(), if row.first() > acc {
            row.first() as int
        } else {
            acc
        })
    }
}

/// The largest count of a grid, folded onto `acc` row by row.
pub open spec fn grid_max_from(grid: Seq<Seq<i32>>, acc: int) -> int
    decreases grid.len(),
{
    if grid.len() == 0 {
        acc
    } else {
        grid_max_from(grid.drop_first(), row_max_from(grid.first(), acc))
    }
}

/// The largest count of a grid, or zero when the grid holds no cell.
pub open spec fn grid_max(grid: Seq<Seq<i32>>) -> int {
    grid_max_from(grid, 0)
}

proof fn lemma_row_max_from(row: Seq<i32>, acc: int)
    ensures
        acc <= row_max_from(row, acc),
        forall|c: int| 0 <= c < row.len() ==> #[trigger] row[c] <= row_max_from(row, acc),
    decreases row.len(),
{
    if row.len() > 0 {
        let acc2 = if row.first() > acc {
            row.first() as int
        } else {
            acc
        };
        lemma_row_max_from(row.drop_first(), acc2);
        assert forall|c: int| 0 <= c < row.len() implies #[trigger] row[c] <= row_max_from(
            row,
            acc,
        ) by {
            if c == 0 {
                assert(row[0] == row.first());
            } else {
                assert(row.drop_first()[c - 1] == row[c]);
            }
        }
    }
}

/// Every cell of a grid is bounded by the grid's largest count, and the fold
/// never drops below its seed.
pub proof fn lemma_grid_max_from(grid: Seq<Seq<i32>>, acc: int)
    ensures
        acc <= grid_max_from(grid, acc),
        forall|r: int, c: int|
            0 <= r < grid.len() && 0 <= c < grid[r].len() ==> #[trigger] grid[r][c]
                <= grid_max_from(grid, acc),
    decreases grid.len(),
{
    if grid.len() > 0 {
        lemma_row_max_from(grid.first(), acc);
        lemma_grid_max_from(grid.drop_first(), row_max_from(grid.first(), acc));
        assert forall|r: int, c: int|
            0 <= r < grid.len() && 0 <= c < grid[r].len() implies #[trigger] grid[r][c]
            <= grid_max_from(grid, acc) by {
            if r == 0 {
                assert(grid[0] == grid.first());
            } else {
                assert(grid.drop_first()[r - 1] == grid[r]);
            }
        }
    }
}

/// Returns the largest count of a grid, or zero when the grid holds no cell.
fn max_count(count_set: &Vec<Vec<i32>>) -> (m: i32)
    ensures
        m == grid_max(count_set.deep_view()),
        m >= 0,
        forall|r: int, c: int|
            0 <= r < count_set.deep_view().len() && 0 <= c < count_set.deep_view()[r].len()
                ==> #[trigger] count_set.deep_view()[r][c] <= m,
{
    let ghost g = count_set.deep_view();
    proof {
        assert(g.skip(0) =~= g);
    }
    let mut acc: i32 = 0;
    let mut r: usize = 0;
    while r < count_set.len()
        invariant
            r <= count_set@.len(),
            g == count_set.deep_view(),
            g.len() == count_set@.len(),
            forall|i: int| 0 <= i < g.len() ==> #[trigger] g[i] == count_set@[i]@,
            grid_max(g) == grid_max_from(g.skip(r as int), acc as int),
        decreases count_set@.len() - r,
    {
        let row = &count_set[r];
        let ghost rowseq = g[r as int];
        proof {
            assert(rowseq.skip(0) =~= rowseq);
        }
        let mut c: usize = 0;
        let mut row_acc: i32 = acc;
        while c < row.len()
            invariant
                c <= rowseq.len(),
                rowseq == row@,
                row_max_from(rowseq, acc as int) == row_max_from(
                    rowseq.skip(c as int),
                    row_acc as int,
                ),
            decreases rowseq.len() - c,
        {
            proof {
                assert(rowseq.skip(c as int).first() == rowseq[c as int]);
                assert(rowseq.skip(c as int).drop_first() == rowseq.skip(c as int + 1));
            }
            if row[c] > row_acc {
                row_acc = row[c];
            }
            c = c + 1;
        }
        proof {
            assert(rowseq.skip(rowseq.len() as int) =~= Seq::<i32>::empty());
            assert(g.skip(r as int).first() == g[r as int]);
            assert(g.skip(r as int).drop_first() =~= g.skip(r as int + 1));
        }
        acc = row_acc;
        r = r + 1;
    }
    proof {
        assert(g.skip(g.len() as int) =~= Seq::<Seq<i32>>::empty());
        lemma_grid_max_from(g, 0);
    }
    acc
}

/// Returns the palette that maps each count to a color: one entry for every
/// count up to the largest one in the grid, sampled at proportional positions
/// along the gradient. A grid without cells, or with only zero counts, gets a
/// single entry, the gradient's high end.
pub fn make_color_map(count_set: &Vec<Vec<i32>>) -> (palette: Vec<Color>)
    requires
        forall|r: int, c: int|
            0 <= r < count_set.deep_view().len() && 0 <= c < count_set.deep_view()[r].len()
                ==> 0 <= #[trigger] count_set.deep_view()[r][c],
    ensures
        palette@.len() == grid_max(count_set.deep_view()) + 1,
        forall|i: int|
            0 <= i < palette@.len() ==> ((#[trigger] palette@[i]).r, palette@[i].g, palette@[i].b)
                == gradient_rgb(i, palette@.len() as int),
{
    let m = max_count(count_set);
    let n: usize = m as usize + 1;
    let mut palette: Vec<Color> = Vec::new();
    let mut i: usize = 0;
    while i < n
        invariant
            i <= n,
            n >= 1,
            palette@.len() == i,
            forall|k: int|
                0 <= k < i ==> ((#[trigger] palette@[k]).r, palette@[k].g, palette@[k].b)
                    == gradient_rgb(k, n as int),
        decreases n - i,
    {
        palette.push(gradient_color(i, n));
        i = i + 1;
    }
    palette
}

/// The width of a rectangular grid: the length of its first row.
pub open spec fn grid_width(grid: Seq<Seq<i32>>) -> int {
    if grid.len() == 0 {
        0
    } else {
        grid[0].len() as int
    }
}

/// Whether every row of the grid has the width of the first.
pub open spec fn rectangular(grid: Seq<Seq<i32>>) -> bool {
    forall|r: int| 0 <= r < grid.len() ==> (#[trigger] grid[r]).len() == grid_width(grid)
}

/// Returns the interleaved red, green and blue channel raster of a grid: for
/// the cell at row `r` and column `c`, the three bytes at offset
/// `3 * (r * width + c)` hold the palette color of the cell's count.
pub fn draw_image(count_set: &Vec<Vec<i32>>) -> (raster: Vec<u8>)
    requires
        rectangular(count_set.deep_view()),
        forall|r: int, c: int|
            0 <= r < count_set.deep_view().len() && 0 <= c < count_set.deep_view()[r].len()
                ==> 0 <= #[trigger] count_set.deep_view()[r][c],
        count_set.deep_view().len() * grid_width(count_set.deep_view()) * 3 <= usize::MAX,
    ensures
        raster@.len() == count_set.deep_view().len() * grid_width(count_set.deep_view()) * 3,
        forall|r: int, c: int|
            #![trigger count_set.deep_view()[r][c]]
            0 <= r < count_set.deep_view().len() && 0 <= c < grid_width(count_set.deep_view())
                ==> {
                let cell = count_set.deep_view()[r][c];
                let n = grid_max(count_set.deep_view()) + 1;
                let base = 3 * (r * grid_width(count_set.deep_view()) + c);
                &&& raster@[base] == gradient_rgb(cell as int, n).0
                &&& raster@[base + 1] == gradient_rgb(cell as int, n).1
                &&& raster@[base + 2] == gradient_rgb(cell as int, n).2
            },
{
    let ghost g = count_set.deep_view();
    let palette = make_color_map(count_set);
    proof {
        lemma_grid_max_from(g, 0);
    }
    let height = count_set.len();
    let width = if height == 0 {
        0
    } else {
        count_set[0].len()
    };
    let mut raster: Vec<u8> = Vec::new();
    let mut r: usize = 0;
    while r < height
        invariant
            r <= height,
            g == count_set.deep_view(),
            height == g.len(),
            width == grid_width(g),
            rectangular(g),
            forall|i: int, c: int|
                0 <= i < g.len() && 0 <= c < g[i].len() ==> 0 <= #[trigger] g[i][c] <= grid_max(g),
            g.len() * grid_width(g) * 3 <= usize::MAX,
            palette@.len() == grid_max(g) + 1,
            forall|k: int|
                0 <= k < palette@.len() ==> ((#[trigger] palette@[k]).r, palette@[k].g,
                    palette@[k].b) == gradient_rgb(k, palette@.len() as int),
            raster@.len() == 3 * (r * width),
            forall|i: int, c: int|
                #![trigger g[i][c]]
                0 <= i < r && 0 <= c < width ==> {
                    let base = 3 * (i * width + c);
                    &&& raster@[base] == gradient_rgb(g[i][c] as int, grid_max(g) + 1).0
                    &&& raster@[base + 1] == gradient_rgb(g[i][c] as int, grid_max(g) + 1).1
                    &&& raster@[base + 2] == gradient_rgb(g[i][c] as int, grid_max(g) + 1).2
                },
        decreases height - r,
    {
        proof {
            assert((r + 1) * width <= g.len() * grid_width(g) && r * width + width == (r + 1)
                * width) by (nonlinear_arith)
                requires
                    r < g.len(),
                    width == grid_width(g),
                    width >= 0,
            ;
        }
        let row = &count_set[r];
        let mut c: usize = 0;
        while c < width
            invariant
                c <= width,
                r < height,
                g == count_set.deep_view(),
                height == g.len(),
                width == grid_width(g),
                row@ == count_set@[r as int]@,
                g[r as int] == row@,
                g[r as int].len() == width,
                forall|i: int, cc: int|
                    0 <= i < g.len() && 0 <= cc < g[i].len() ==> 0 <= #[trigger] g[i][cc]
                        <= grid_max(g),
                g.len() * grid_width(g) * 3 <= usize::MAX,
                r * width + width <= g.len() * grid_width(g),
                palette@.len() == grid_max(g) + 1,
                forall|k: int|
                    0 <= k < palette@.len() ==> ((#[trigger] palette@[k]).r, palette@[k].g,
                        palette@[k].b) == gradient_rgb(k, palette@.len() as int),
                raster@.len() == 3 * (r * width + c),
                forall|i: int, cc: int|
                    #![trigger g[i][cc]]
                    0 <= i < r && 0 <= cc < width ==> {
                        let base = 3 * (i * width + cc);
                        &&& raster@[base] == gradient_rgb(g[i][cc] as int, grid_max(g) + 1).0
                        &&& raster@[base + 1] == gradient_rgb(g[i][cc] as int, grid_max(g) + 1).1
                        &&& raster@[base + 2] == gradient_rgb(g[i][cc] as int, grid_max(g) + 1).2
                    },
                forall|cc: int|
                    #![trigger g[r as int][cc]]
                    0 <= cc < c ==> {
                        let base = 3 * (r * width + cc);
                        &&& raster@[base] == gradient_rgb(g[r as int][cc] as int, grid_max(g)
                            + 1).0
                        &&& raster@[base + 1] == gradient_rgb(g[r as int][cc] as int, grid_max(g)
                            + 1).1
                        &&& raster@[base + 2] == gradient_rgb(g[r as int][cc] as int, grid_max(g)
                            + 1).2
                    },
            decreases width - c,
        {
            let count = row[c];
            let entry = palette[count as usize];
            let ghost pre = raster@;
            raster.push(entry.r);
            raster.push(entry.g);
            raster.push(entry.b);
            proof {
                assert(raster@ =~= pre + seq![entry.r, entry.g, entry.b]);
                assert forall|i: int, cc: int|
                    #![trigger g[i][cc]]
                    0 <= i < r && 0 <= cc < width implies {
                    let base = 3 * (i * width + cc);
                    &&& raster@[base] == gradient_rgb(g[i][cc] as int, grid_max(g) + 1).0
                    &&& raster@[base + 1] == gradient_rgb(g[i][cc] as int, grid_max(g) + 1).1
                    &&& raster@[base + 2] == gradient_rgb(g[i][cc] as int, grid_max(g) + 1).2
                } by {
                    assert(i * width + cc + 1 <= r * width) by (nonlinear_arith)
                        requires
                            0 <= i < r,
                            0 <= cc < width,
                    ;
                }
            }
            c = c + 1;
        }
        proof {
            assert forall|i: int, cc: int|
                #![trigger g[i][cc]]
                0 <= i < r + 1 && 0 <= cc < width implies {
                let base = 3 * (i * width + cc);
                &&& raster@[base] == gradient_rgb(g[i][cc] as int, grid_max(g) + 1).0
                &&& raster@[base + 1] == gradient_rgb(g[i][cc] as int, grid_max(g) + 1).1
                &&& raster@[base + 2] == gradient_rgb(g[i][cc] as int, grid_max(g) + 1).2
            } by {
                if i == r as int {
                    assert(g[r as int][cc] == g[i][cc]);
                }
            }
        }
        r = r + 1;
    }
    proof {
        assert(raster@.len() == g.len() * grid_width(g) * 3) by (nonlinear_arith)
            requires
                raster@.len() == 3 * (g.len() * grid_width(g)),
        ;
    }
    raster
}

} // verus!
