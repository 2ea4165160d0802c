use vstd::arithmetic::div_mod::{lemma_fundamental_div_mod, lemma_fundamental_div_mod_converse};
use vstd::prelude::*;

use crate::direction::ListDirection;
use crate::grid::{is_cell, lemma_listed_cell, listed_cell, lists_grid};
use crate::sprite::SpritePosition;

verus! {

/// Place, in a listing in direction `d` of a grid of `h` columns and `v`
/// rows, of the cell in column `i` and row `j`.
pub open spec fn listing_index(d: ListDirection, h: int, v: int, i: int, j: int) -> int {
    match d {
        ListDirection::Horizontal => i * v + j,
        ListDirection::Vertical => j * h + i,
    }
}

/// Where the entry at index `k` of a listing made of runs of length `a`
/// stands in the listing of the same grid made of runs of length `b`.
pub open spec fn transposed(k: int, a: int, b: int) -> int {
    (k % a) * b + k / a
}

/// Every cell of the grid is listed, in either direction: the cell in column
/// `i` and row `j` stands at `listing_index(d, h, v, i, j)`, with
/// `x = i * width` and `y = j * height`.
pub proof fn lemma_every_cell_listed(
    s: Seq<SpritePosition>,
    tw: u32,
    th: u32,
    h: u32,
    v: u32,
    d: ListDirection,
)
    requires
        lists_grid(s, tw, th, h, v, d),
    ensures
        forall|i: int, j: int|
            0 <= i < h && 0 <= j < v ==> {
                &&& 0 <= #[trigger] listing_index(d, h as int, v as int, i, j) < s.len()
                &&& is_cell(s[listing_index(d, h as int, v as int, i, j)], tw, th, h, v, i, j)
            },
{
    assert forall|i: int, j: int| 0 <= i < h && 0 <= j < v implies {
        &&& 0 <= #[trigger] listing_index(d, h as int, v as int, i, j) < s.len()
        &&& is_cell(s[listing_index(d, h as int, v as int, i, j)], tw, th, h, v, i, j)
    } by {
        let k = listing_index(d, h as int, v as int, i, j);
        assert(0 <= i * v + j < h * v) by (nonlinear_arith)
            requires
                0 <= i < h,
                0 <= j < v,
        ;
        assert(0 <= j * h + i < h * v) by (nonlinear_arith)
            requires
                0 <= i < h,
                0 <= j < v,
        ;
        match d {
            ListDirection::Horizontal => {
                lemma_fundamental_div_mod_converse(k, v as int, i, j);
            },
            ListDirection::Vertical => {
                lemma_fundamental_div_mod_converse(k, h as int, j, i);
            },
        }
        assert(listed_cell(d, h as int, v as int, k) == (i, j));
        assert(is_cell(s[k], tw, th, h, v, i, j));
    }
}

/// Listing one grid by columns and by rows gives the same sprites in two
/// orders. Index `k` of the listing by columns holds what index
/// `transposed(k, v, h)` of the listing by rows holds, index `m` of the
/// listing by rows holds what index `transposed(m, h, v)` of the listing by
/// columns holds, and the two index maps undo each other. On a grid of more
/// than one column and more than one row whose cells are not empty, the two
/// listings differ at their second sprite.
pub proof fn lemma_directions_permute(
    by_columns: Seq<SpritePosition>,
    by_rows: Seq<SpritePosition>,
    tw: u32,
    th: u32,
    h: u32,
    v: u32,
)
    requires
        lists_grid(by_columns, tw, th, h, v, ListDirection::Horizontal),
        lists_grid(by_rows, tw, th, h, v, ListDirection::Vertical),
    ensures
        by_columns.len() == by_rows.len(),
        forall|k: int|
            0 <= k < by_columns.len() ==> {
                &&& 0 <= #[trigger] transposed(k, v as int, h as int) < by_rows.len()
                &&& by_columns[k] == by_rows[transposed(k, v as int, h as int)]
                &&& transposed(transposed(k, v as int, h as int), h as int, v as int) == k
            },
        forall|m: int|
            0 <= m < by_rows.len() ==> {
                &&& 0 <= #[trigger] transposed(m, h as int, v as int) < by_columns.len()
                &&& by_rows[m] == by_columns[transposed(m, h as int, v as int)]
                &&& transposed(transposed(m, h as int, v as int), v as int, h as int) == m
            },
        h > 1 && v > 1 && (tw >= h || th >= v) ==> by_columns[1] != by_rows[1],
{
    let hi = h as int;
    let vi = v as int;
    lemma_every_cell_listed(by_columns, tw, th, h, v, ListDirection::Horizontal);
    lemma_every_cell_listed(by_rows, tw, th, h, v, ListDirection::Vertical);
    assert forall|k: int| 0 <= k < by_columns.len() implies {
        &&& 0 <= #[trigger] transposed(k, vi, hi) < by_rows.len()
        &&& by_columns[k] == by_rows[transposed(k, vi, hi)]
        &&& transposed(transposed(k, vi, hi), hi, vi) == k
    } by {
        lemma_listed_cell(ListDirection::Horizontal, hi, vi, k);
        let (i, j) = listed_cell(ListDirection::Horizontal, hi, vi, k);
        lemma_fundamental_div_mod(k, vi);
        assert(listing_index(ListDirection::Vertical, hi, vi, i, j) == transposed(k, vi, hi));
        lemma_fundamental_div_mod_converse(j * hi + i, hi, j, i);
    }
    assert forall|m: int| 0 <= m < by_rows.len() implies {
        &&& 0 <= #[trigger] transposed(m, hi, vi) < by_columns.len()
        &&& by_rows[m] == by_columns[transposed(m, hi, vi)]
        &&& transposed(transposed(m, hi, vi), vi, hi) == m
    } by {
        lemma_listed_cell(ListDirection::Vertical, hi, vi, m);
        let (i, j) = listed_cell(ListDirection::Vertical, hi, vi, m);
        lemma_fundamental_div_mod(m, hi);
        assert(listing_index(ListDirection::Horizontal, hi, vi, i, j) == transposed(m, hi, vi));
        lemma_fundamental_div_mod_converse(i * vi + j, vi, i, j);
    }
    if h > 1 && v > 1 && (tw >= h || th >= v) {
        lemma_fundamental_div_mod_converse(1, vi, 0, 1);
        lemma_fundamental_div_mod_converse(1, hi, 0, 1);
        assert(hi * vi > 1) by (nonlinear_arith)
            requires
                hi > 1,
                vi > 1,
        ;
        assert(tw as int / hi > 0 || th as int / vi > 0) by {
            lemma_fundamental_div_mod(tw as int, hi);
            lemma_fundamental_div_mod(th as int, vi);
            if tw >= h {
                assert(tw as int / hi > 0) by (nonlinear_arith)
                    requires
                        tw >= hi,
                        hi > 0,
                        tw == hi * (tw as int / hi) + tw as int % hi,
                        tw as int % hi < hi,
                ;
            } else {
                assert(th as int / vi > 0) by (nonlinear_arith)
                    requires
                        th >= vi,
                        vi > 0,
                        th == vi * (th as int / vi) + th as int % vi,
                        th as int % vi < vi,
                ;
            }
        }
        assert(by_columns[1].x == 0 && by_columns[1].y == th as int / vi);
        assert(by_rows[1].x == tw as int / hi && by_rows[1].y == 0);
    }
}

} // verus!
