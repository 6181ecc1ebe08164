//! The vertical layout of a table image: rows stacked under each other, with
//! a grid line above each row and one below the last.

use vstd::prelude::*;

verus! {

/// Where row `k` of rows with heights `hs` starts (the top of the grid line
/// above it): the rows before it, each with its grid line.
pub open spec fn row_start(hs: Seq<u32>, grid: nat, k: int) -> nat
    decreases k,
{
    if k <= 0 {
        0
    } else {
        row_start(hs, grid, k - 1) + hs[k - 1] as nat + grid
    }
}

/// The start of each row, then that of the bottom grid line.
pub fn row_starts(heights: &Vec<u32>, grid: u32) -> (r: Vec<u32>)
    requires
        row_start(heights@, grid as nat, heights.len() as int) <= u32::MAX,
    ensures
        r.len() == heights.len() + 1,
        forall|k: int| 0 <= k <= heights.len() ==> #[trigger] r@[k] == row_start(heights@, grid as nat, k),
{
    let mut r: Vec<u32> = Vec::new();
    let mut acc: u32 = 0;
    let mut i: usize = 0;
    while i < heights.len()
        invariant
            i <= heights.len(),
            acc == row_start(heights@, grid as nat, i as int),
            row_start(heights@, grid as nat, heights.len() as int) <= u32::MAX,
            r.len() == i,
            forall|k: int| 0 <= k < i ==> #[trigger] r@[k] == row_start(heights@, grid as nat, k),
        decreases heights.len() - i,
    {
        proof {
            lemma_row_start_monotone(heights@, grid as nat, i + 1, heights.len() as int);
        }
        r.push(acc);
        acc = acc + heights[i] + grid;
        i = i + 1;
    }
    r.push(acc);
    r
}

/// Row starts grow with the row.
pub proof fn lemma_row_start_monotone(hs: Seq<u32>, grid: nat, j: int, k: int)
    requires
        0 <= j <= k,
    ensures
        row_start(hs, grid, j) <= row_start(hs, grid, k),
    decreases k - j,
{
    if j < k {
        lemma_row_start_monotone(hs, grid, j, k - 1);
    }
}

/// The height of a table image: its rows, a grid line above each and one
/// below the last.
pub fn table_height(heights: &Vec<u32>, grid: u32) -> (h: u32)
    requires
        row_start(heights@, grid as nat, heights.len() as int) + grid <= u32::MAX,
    ensures
        h == row_start(heights@, grid as nat, heights.len() as int) + grid,
{
    let starts = row_starts(heights, grid);
    starts[heights.len()] + grid
}

} // verus!
