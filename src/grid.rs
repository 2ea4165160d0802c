use vstd::arithmetic::div_mod::{lemma_fundamental_div_mod, lemma_fundamental_div_mod_converse};
use vstd::prelude::*;

use crate::direction::ListDirection;
use crate::error::SheetError;
use crate::sprite::SpritePosition;

verus! {

/// `r` is the cell in column `i` and row `j` of the grid that splits a
/// `tw` by `th` texture into `h` columns and `v` rows. Every cell has the
/// texture's size divided by the counts; the remainders are dropped.
pub open spec fn is_cell(
    r: SpritePosition,
    tw: u32,
    th: u32,
    h: u32,
    v: u32,
    i: int,
    j: int,
) -> bool {
    &&& r.width == tw as int / h as int
    &&& r.height == th as int / v as int
    &&& r.x == i * (tw as int / h as int)
    &&& r.y == j * (th as int / v as int)
}

/// Column and row of the `k`-th cell listed in direction `d`, on a grid of
/// `h` columns and `v` rows.
pub open spec fn listed_cell(d: ListDirection, h: int, v: int, k: int) -> (int, int) {
    match d {
        ListDirection::Horizontal => (k / v, k % v),
        ListDirection::Vertical => (k % h, k / h),
    }
}

/// The `k`-th listed cell lies inside the grid, and its place in the
/// column-by-column array of cells leads back to it.
pub proof fn lemma_listed_cell(d: ListDirection, h: int, v: int, k: int)
    requires
        0 < h,
        0 < v,
        0 <= k < h * v,
    ensures
        0 <= listed_cell(d, h, v, k).0 < h,
        0 <= listed_cell(d, h, v, k).1 < v,
        (listed_cell(d, h, v, k).0 * v + listed_cell(d, h, v, k).1) / v == listed_cell(d, h, v, k).0,
        (listed_cell(d, h, v, k).0 * v + listed_cell(d, h, v, k).1) % v == listed_cell(d, h, v, k).1,
        0 <= listed_cell(d, h, v, k).0 * v + listed_cell(d, h, v, k).1 < h * v,
{
    lemma_fundamental_div_mod(k, v);
    lemma_fundamental_div_mod(k, h);
    assert(0 <= k / v < h) by (nonlinear_arith)
        requires
            0 <= k < h * v,
            0 < v,
            k == v * (k / v) + k % v,
            0 <= k % v < v,
    ;
    assert(0 <= k / h < v) by (nonlinear_arith)
        requires
            0 <= k < h * v,
            0 < h,
            k == h * (k / h) + k % h,
            0 <= k % h < h,
    ;
    let (i, j) = listed_cell(d, h, v, k);
    lemma_fundamental_div_mod_converse(i * v + j, v, i, j);
    assert(i * v + j < h * v) by (nonlinear_arith)
        requires
            0 <= i < h,
            0 <= j < v,
    ;
}

/// `s` lists all the cells of the grid, in direction `d`.
pub open spec fn lists_grid(
    s: Seq<SpritePosition>,
    tw: u32,
    th: u32,
    h: u32,
    v: u32,
    d: ListDirection,
) -> bool {
    &&& s.len() == h * v
    &&& forall|k: int|
        0 <= k < s.len() ==> is_cell(
            #[trigger] s[k],
            tw,
            th,
            h,
            v,
            listed_cell(d, h as int, v as int, k).0,
            listed_cell(d, h as int, v as int, k).1,
        )
}

/// The offset of a cell that is not past the last one stays within the texture.
proof fn lemma_offset_within(n: int, count: int, i: int)
    requires
        0 <= n,
        0 <= i < count,
    ensures
        0 <= i * (n / count) <= n,
{
    lemma_fundamental_div_mod(n, count);
    assert(0 <= n / count);
    assert(i * (n / count) <= count * (n / count)) by (nonlinear_arith)
        requires
            0 <= i < count,
            0 <= n / count,
    ;
    assert(0 <= n % count);
    assert(0 <= i * (n / count)) by (nonlinear_arith)
        requires
            0 <= i,
            0 <= n / count,
    ;
}

/// The cells of a grid, column by column: the cell in column `i` and row `j`
/// is `cells[i * rows + j]`.
pub struct SpriteGrid {
    pub columns: u32,
    pub rows: u32,
    pub cells: Vec<SpritePosition>,
}

impl SpriteGrid {
    /// One cell for each column and row.
    pub open spec fn wf(&self) -> bool {
        self.cells@.len() == self.columns * self.rows
    }

    /// Index in `cells` of the `k`-th cell listed in direction `d`.
    pub open spec fn source_index(&self, d: ListDirection, k: int) -> int {
        let (i, j) = listed_cell(d, self.columns as int, self.rows as int, k);
        i * self.rows + j
    }

    /// Splits a `texture_width` by `texture_height` texture into
    /// `horizontal_count` columns and `vertical_count` rows of equal cells.
    /// A count of zero is refused before anything is divided.
    pub fn partition(
        texture_width: u32,
        texture_height: u32,
        horizontal_count: u32,
        vertical_count: u32,
    ) -> (r: Result<SpriteGrid, SheetError>)
        ensures
            horizontal_count == 0 || vertical_count == 0 ==> r == Err::<SpriteGrid, SheetError>(
                SheetError::InvalidSliceCount,
            ),
            horizontal_count > 0 && vertical_count > 0 ==> match r {
                Ok(g) => {
                    &&& g.columns == horizontal_count
                    &&& g.rows == vertical_count
                    &&& g.wf()
                    &&& lists_grid(
                        g.cells@,
                        texture_width,
                        texture_height,
                        horizontal_count,
                        vertical_count,
                        ListDirection::Horizontal,
                    )
                },
                Err(_) => false,
            },
    {
        if horizontal_count == 0 || vertical_count == 0 {
            return Err(SheetError::InvalidSliceCount);
        }
        let h = horizontal_count;
        let v = vertical_count;
        let width = texture_width / h;
        let height = texture_height / v;
        let mut cells: Vec<SpritePosition> = Vec::new();
        let mut i: u32 = 0;
        while i < h
            invariant
                0 < h,
                0 < v,
                width == texture_width as int / h as int,
                height == texture_height as int / v as int,
                i <= h,
                cells@.len() == i * v,
                forall|k: int|
                    0 <= k < cells@.len() ==> is_cell(
                        #[trigger] cells@[k],
                        texture_width,
                        texture_height,
                        h,
                        v,
                        k / v as int,
                        k % v as int,
                    ),
            decreases h - i,
        {
            proof {
                lemma_offset_within(texture_width as int, h as int, i as int);
            }
            let x = i * width;
            let mut j: u32 = 0;
            while j < v
                invariant
                    0 < h,
                    0 < v,
                    width == texture_width as int / h as int,
                    height == texture_height as int / v as int,
                    i < h,
                    j <= v,
                    x == i * width,
                    cells@.len() == i * v + j,
                    forall|k: int|
                        0 <= k < cells@.len() ==> is_cell(
                            #[trigger] cells@[k],
                            texture_width,
                            texture_height,
                            h,
                            v,
                            k / v as int,
                            k % v as int,
                        ),
                decreases v - j,
            {
                proof {
                    lemma_offset_within(texture_height as int, v as int, j as int);
                    lemma_fundamental_div_mod_converse(i * v + j, v as int, i as int, j as int);
                }
                let y = j * height;
                cells.push(SpritePosition { x, y, width, height });
                j = j + 1;
            }
            assert(cells@.len() == (i + 1) * v) by (nonlinear_arith)
                requires
                    cells@.len() == i * v + v,
            ;
            i = i + 1;
        }
        Ok(SpriteGrid { columns: h, rows: v, cells })
    }

    /// Lists the cells in direction `direction`: by columns for `Horizontal`,
    /// by rows for `Vertical`.
    pub fn flatten(&self, direction: ListDirection) -> (r: Vec<SpritePosition>)
        requires
            self.wf(),
        ensures
            r@.len() == self.cells@.len(),
            forall|k: int|
                0 <= k < r@.len() ==> #[trigger] r@[k] == self.cells@[self.source_index(
                    direction,
                    k,
                )],
    {
        let n = self.cells.len();
        let h = self.columns;
        let v = self.rows;
        let mut out: Vec<SpritePosition> = Vec::new();
        match direction {
            ListDirection::Horizontal => {
                let mut i: u32 = 0;
                while i < h
                    invariant
                        n == self.cells@.len(),
                        direction == ListDirection::Horizontal,
                        self.wf(),
                        h == self.columns,
                        v == self.rows,
                        i <= h,
                        out@.len() == i * v,
                        forall|k: int|
                            0 <= k < out@.len() ==> #[trigger] out@[k] == self.cells@[self.source_index(
                                direction,
                                k,
                            )],
                    decreases h - i,
                {
                    let mut j: u32 = 0;
                    while j < v
                        invariant
                            n == self.cells@.len(),
                        direction == ListDirection::Horizontal,
                            self.wf(),
                            h == self.columns,
                            v == self.rows,
                            i < h,
                            j <= v,
                            out@.len() == i * v + j,
                            forall|k: int|
                                0 <= k < out@.len() ==> #[trigger] out@[k]
                                    == self.cells@[self.source_index(direction, k)],
                        decreases v - j,
                    {
                        assert(i * v + j < h * v) by (nonlinear_arith)
                            requires
                                i < h,
                                j < v,
                        ;
                        proof {
                            lemma_fundamental_div_mod_converse(i * v + j, v as int, i as int, j as int);
                        }
                        let at = i as usize * v as usize + j as usize;
                        assert(self.source_index(direction, i * v + j) == at);
                        out.push(self.cells[at]);
                        assert(out@[i * v + j] == self.cells@[at as int]);
                        j = j + 1;
                    }
                    assert(out@.len() == (i + 1) * v) by (nonlinear_arith)
                        requires
                            out@.len() == i * v + v,
                    ;
                    i = i + 1;
                }
            },
            ListDirection::Vertical => {
                let mut j: u32 = 0;
                while j < v
                    invariant
                        n == self.cells@.len(),
                        direction == ListDirection::Vertical,
                        self.wf(),
                        h == self.columns,
                        v == self.rows,
                        j <= v,
                        out@.len() == j * h,
                        forall|k: int|
                            0 <= k < out@.len() ==> #[trigger] out@[k] == self.cells@[self.source_index(
                                direction,
                                k,
                            )],
                    decreases v - j,
                {
                    let mut i: u32 = 0;
                    while i < h
                        invariant
                            n == self.cells@.len(),
                        direction == ListDirection::Vertical,
                            self.wf(),
                            h == self.columns,
                            v == self.rows,
                            j < v,
                            i <= h,
                            out@.len() == j * h + i,
                            forall|k: int|
                                0 <= k < out@.len() ==> #[trigger] out@[k]
                                    == self.cells@[self.source_index(direction, k)],
                        decreases h - i,
                    {
                        assert(i * v + j < h * v) by (nonlinear_arith)
                            requires
                                i < h,
                                j < v,
                        ;
                        assert(j * h + i < h * v) by (nonlinear_arith)
                            requires
                                i < h,
                                j < v,
                        ;
                        proof {
                            lemma_fundamental_div_mod_converse(j * h + i, h as int, j as int, i as int);
                        }
                        let at = i as usize * v as usize + j as usize;
                        assert(self.source_index(direction, j * h + i) == at);
                        out.push(self.cells[at]);
                        assert(out@[j * h + i] == self.cells@[at as int]);
                        i = i + 1;
                    }
                    assert(out@.len() == (j + 1) * h) by (nonlinear_arith)
                        requires
                            out@.len() == j * h + h,
                    ;
                    j = j + 1;
                }
            },
        }
        assert(out@.len() == n) by (nonlinear_arith)
            requires
                out@.len() == h * v || out@.len() == v * h,
                n == h * v,
        ;
        out
    }
}

} // verus!
