//! Where food may appear: on a cell that the snake does not hold, at least
//! [`MARGIN`] cells away from every edge of the grid.

use vstd::prelude::*;
use vstd::arithmetic::div_mod::lemma_fundamental_div_mod_converse;
use vstd::arithmetic::div_mod::lemma_multiply_divide_lt;
use vstd::arithmetic::mul::lemma_mul_upper_bound;
use crate::grid::Coordinate;
use crate::snake::Snake;

verus! {

/// The distance kept between food and every edge of the grid.
pub const MARGIN: u16 = 10;

/// Whether a grid is large enough to hold the margin on both axes, so that
/// at least one cell is left for food.
pub open spec fn spans_margin(bounds: Coordinate) -> bool {
    bounds.col >= 2 * MARGIN && bounds.row >= 2 * MARGIN
}

/// Whether `cell` keeps the margin: its column lies in
/// `MARGIN ..= bounds.col - MARGIN`, its row in `MARGIN ..= bounds.row - MARGIN`.
pub open spec fn in_food_range(bounds: Coordinate, cell: Coordinate) -> bool {
    &&& MARGIN <= cell.col <= bounds.col - MARGIN
    &&& MARGIN <= cell.row <= bounds.row - MARGIN
}

/// The number of columns that keep the margin.
pub open spec fn food_columns(bounds: Coordinate) -> int {
    bounds.col - 2 * MARGIN + 1
}

/// The number of rows that keep the margin.
pub open spec fn food_rows(bounds: Coordinate) -> int {
    bounds.row - 2 * MARGIN + 1
}

/// The cells that keep the margin, row by row from the top, each row from
/// the left; none on a grid that is too small for the margin.
pub open spec fn food_cells(bounds: Coordinate) -> Seq<Coordinate> {
    if spans_margin(bounds) {
        Seq::new(
            (food_columns(bounds) * food_rows(bounds)) as nat,
            |i: int|
                Coordinate {
                    col: (MARGIN + i % food_columns(bounds)) as u16,
                    row: (MARGIN + i / food_columns(bounds)) as u16,
                },
        )
    } else {
        Seq::empty()
    }
}

/// The test that a cell is not part of `body`.
pub open spec fn is_free(body: Seq<Coordinate>) -> spec_fn(Coordinate) -> bool {
    |cell: Coordinate| !body.contains(cell)
}

/// The cells on which food may appear while the snake holds `body`: those of
/// [`food_cells`] that are not part of the body, in the same order.
pub open spec fn free_cells(bounds: Coordinate, body: Seq<Coordinate>) -> Seq<Coordinate> {
    food_cells(bounds).filter(is_free(body))
}

/// What holds of food that was placed while the snake held `body`: it keeps
/// the margin and is not part of the body; and there is none only where the
/// body covers every cell that keeps the margin.
pub open spec fn food_placed(
    bounds: Coordinate,
    body: Seq<Coordinate>,
    food: Option<Coordinate>,
) -> bool {
    match food {
        Some(cell) => in_food_range(bounds, cell) && !body.contains(cell),
        None => forall|cell: Coordinate| in_food_range(bounds, cell) ==> body.contains(cell),
    }
}

/// The cells of [`food_cells`] are exactly those that keep the margin.
pub proof fn food_cells_are_the_range(bounds: Coordinate)
    ensures
        spans_margin(bounds) ==> food_cells(bounds).len() == food_columns(bounds) * food_rows(
            bounds,
        ),
        forall|i: int|
            0 <= i < food_cells(bounds).len() ==> in_food_range(
                bounds,
                #[trigger] food_cells(bounds)[i],
            ),
        forall|cell: Coordinate|
            in_food_range(bounds, cell) ==> #[trigger] food_cells(bounds).contains(cell),
{
    if spans_margin(bounds) {
        let w = food_columns(bounds);
        let h = food_rows(bounds);
        assert(w * h >= 0) by (nonlinear_arith)
            requires
                w >= 1,
                h >= 1,
        ;
        assert forall|i: int| 0 <= i < food_cells(bounds).len() implies in_food_range(
            bounds,
            #[trigger] food_cells(bounds)[i],
        ) by {
            lemma_multiply_divide_lt(i, w, h);
            assert(0 <= i / w) by (nonlinear_arith)
                requires
                    0 <= i,
                    w >= 1,
            ;
            assert(0 <= i % w < w);
        }
        assert forall|cell: Coordinate| in_food_range(bounds, cell) implies #[trigger] food_cells(
            bounds,
        ).contains(cell) by {
            let r = cell.row - MARGIN;
            let c = cell.col - MARGIN;
            let i = r * w + c;
            lemma_fundamental_div_mod_converse(i, w, r, c);
            assert(0 <= i < w * h) by (nonlinear_arith)
                requires
                    i == r * w + c,
                    0 <= c < w,
                    0 <= r < h,
            ;
            assert(food_cells(bounds)[i] == cell);
        }
    }
}

/// A cell is one of [`free_cells`] exactly where it keeps the margin and is
/// not part of the body; so that sequence is empty exactly where no food can
/// be placed.
pub proof fn free_cells_are_the_free_range(bounds: Coordinate, body: Seq<Coordinate>)
    ensures
        forall|cell: Coordinate| #[trigger]
            free_cells(bounds, body).contains(cell) <==> in_food_range(bounds, cell)
                && !body.contains(cell),
        free_cells(bounds, body).len() == 0 <==> food_placed(bounds, body, None),
{
    let all = food_cells(bounds);
    let free = free_cells(bounds, body);
    food_cells_are_the_range(bounds);
    assert forall|cell: Coordinate| #[trigger] free.contains(cell) implies in_food_range(
        bounds,
        cell,
    ) && !body.contains(cell) by {
        all.lemma_filter_contains_rev(is_free(body), cell);
        let i = choose|i: int| 0 <= i < all.len() && all[i] == cell;
        assert(in_food_range(bounds, all[i]));
        let k = choose|k: int| 0 <= k < free.len() && free[k] == cell;
        all.lemma_filter_pred(is_free(body), k);
    }
    assert forall|cell: Coordinate|
        in_food_range(bounds, cell) && !body.contains(cell) implies #[trigger] free.contains(
        cell,
    ) by {
        assert(all.contains(cell));
        let i = choose|i: int| 0 <= i < all.len() && all[i] == cell;
        all.lemma_filter_contains(is_free(body), i);
    }
    if free.len() == 0 {
        assert forall|cell: Coordinate| in_food_range(bounds, cell) implies body.contains(
            cell,
        ) by {
            if !body.contains(cell) {
                assert(free.contains(cell));
            }
        }
    } else {
        assert(free.contains(free[0]));
    }
}

/// Filtering one more cell of a sequence either appends that cell or changes
/// nothing.
proof fn filter_one_more(all: Seq<Coordinate>, keep: spec_fn(Coordinate) -> bool, i: int)
    requires
        0 <= i < all.len(),
    ensures
        all.take(i + 1).filter(keep) == if keep(all[i]) {
            all.take(i).filter(keep).push(all[i])
        } else {
            all.take(i).filter(keep)
        },
{
    assert(all.take(i + 1) =~= all.take(i).push(all[i]));
    all.take(i).lemma_filter_push(all[i], keep);
}

/// What a prefix of a sequence keeps under a filter is a prefix of what the
/// whole sequence keeps.
proof fn filter_of_prefix(all: Seq<Coordinate>, keep: spec_fn(Coordinate) -> bool, i: int)
    requires
        0 <= i <= all.len(),
    ensures
        all.take(i).filter(keep).len() <= all.filter(keep).len(),
        all.take(i).filter(keep) == all.filter(keep).take(all.take(i).filter(keep).len() as int),
{
    assert(all =~= all.take(i) + all.skip(i));
    Seq::filter_distributes_over_add(all.take(i), all.skip(i), keep);
    let front = all.take(i).filter(keep);
    let back = all.skip(i).filter(keep);
    assert((front + back).take(front.len() as int) =~= front);
}

/// Whether the grid is large enough to hold the margin on both axes.
pub fn holds_margin(bounds: Coordinate) -> (ok: bool)
    ensures
        ok == spans_margin(bounds),
{
    bounds.col >= 2 * MARGIN && bounds.row >= 2 * MARGIN
}

/// Whether `cell` keeps the margin on a grid of the given size.
pub fn keeps_margin(bounds: Coordinate, cell: Coordinate) -> (ok: bool)
    ensures
        ok == in_food_range(bounds, cell),
{
    let columns_fit = MARGIN <= cell.col && cell.col as u32 + MARGIN as u32 <= bounds.col as u32;
    let rows_fit = MARGIN <= cell.row && cell.row as u32 + MARGIN as u32 <= bounds.row as u32;
    columns_fit && rows_fit
}

/// The number of cells that keep the margin.
fn count_food_cells(bounds: Coordinate) -> (total: u64)
    ensures
        total == food_cells(bounds).len(),
{
    if !holds_margin(bounds) {
        return 0;
    }
    let width: u64 = (bounds.col - 2 * MARGIN) as u64 + 1;
    let height: u64 = (bounds.row - 2 * MARGIN) as u64 + 1;
    proof {
        lemma_mul_upper_bound(width as int, 0x1_0000, height as int, 0x1_0000);
        assert(width * height >= 1) by (nonlinear_arith)
            requires
                width >= 1,
                height >= 1,
        ;
    }
    width * height
}

/// The cell at index `i` of [`food_cells`].
fn food_cell_at(bounds: Coordinate, i: u64) -> (cell: Coordinate)
    requires
        i < food_cells(bounds).len(),
    ensures
        cell == food_cells(bounds)[i as int],
{
    let width: u64 = (bounds.col - 2 * MARGIN) as u64 + 1;
    proof {
        lemma_multiply_divide_lt(i as int, width as int, food_rows(bounds));
    }
    Coordinate { col: (MARGIN as u64 + i % width) as u16, row: (MARGIN as u64 + i / width) as u16 }
}

/// The number of cells on which food may appear.
pub fn count_free_cells(bounds: Coordinate, snake: &Snake) -> (n: u64)
    ensures
        n == free_cells(bounds, snake@).len(),
{
    let total = count_food_cells(bounds);
    let ghost all = food_cells(bounds);
    let ghost keep = is_free(snake@);
    let mut n: u64 = 0;
    let mut i: u64 = 0;
    while i < total
        invariant
            all == food_cells(bounds),
            keep == is_free(snake@),
            total == all.len(),
            i <= total,
            n <= i,
            n == all.take(i as int).filter(keep).len(),
        decreases total - i,
    {
        let cell = food_cell_at(bounds, i);
        proof {
            filter_one_more(all, keep, i as int);
        }
        if !snake.contains(cell) {
            n += 1;
        }
        i += 1;
    }
    proof {
        assert(all.take(i as int) =~= all);
    }
    n
}

/// The free cell at index `k`, counting the free cells row by row from the
/// top, each row from the left.
pub fn free_cell_at(bounds: Coordinate, snake: &Snake, k: u64) -> (cell: Coordinate)
    requires
        k < free_cells(bounds, snake@).len(),
    ensures
        cell == free_cells(bounds, snake@)[k as int],
{
    let total = count_food_cells(bounds);
    let ghost all = food_cells(bounds);
    let ghost keep = is_free(snake@);
    let mut seen: u64 = 0;
    let mut i: u64 = 0;
    proof {
        all.lemma_filter_len(keep);
    }
    loop
        invariant
            all == food_cells(bounds),
            keep == is_free(snake@),
            total == all.len(),
            i < total,
            seen <= k < all.filter(keep).len(),
            seen == all.take(i as int).filter(keep).len(),
        decreases total - i,
    {
        let cell = food_cell_at(bounds, i);
        proof {
            filter_one_more(all, keep, i as int);
            filter_of_prefix(all, keep, i + 1);
        }
        if !snake.contains(cell) {
            if seen == k {
                proof {
                    let front = all.take(i + 1).filter(keep);
                    assert(front[k as int] == cell);
                    assert(all.filter(keep).take(front.len() as int)[k as int] == cell);
                }
                return cell;
            }
            seen += 1;
        }
        proof {
            if i + 1 == total {
                assert(all.take(i + 1) =~= all);
            }
        }
        i += 1;
    }
}

/// A number below `n`, drawn by `rand::Rng::gen_range` from the generator
/// that `rand::thread_rng` hands out. The draw differs from call to call, so
/// the contract states only the range, which the generator keeps for every
/// non-empty `0..n`; it samples uniformly. It panics on an empty range, which
/// `requires` leaves out, and otherwise only where the operating system
/// cannot seed the generator.
#[verifier::external_body]
fn random_below(n: u64) -> (k: u64)
    requires
        n > 0,
    ensures
        k < n,
{
    rand::Rng::gen_range(&mut rand::thread_rng(), 0..n)
}

/// Picks the cell for new food: one of the cells on which food may appear,
/// each as likely as any other; `None` where there is no such cell.
///
/// The cell is chosen by one draw among the free cells. That gives every
/// free cell the chance it would have if cells of the whole range were drawn
/// until one is free, and it ends also where the snake covers the range.
pub fn generate_food_pos(bounds: Coordinate, snake: &Snake) -> (food: Option<Coordinate>)
    ensures
        food_placed(bounds, snake@, food),
        food matches Some(cell) ==> free_cells(bounds, snake@).contains(cell),
        food is None <==> free_cells(bounds, snake@).len() == 0,
{
    proof {
        free_cells_are_the_free_range(bounds, snake@);
    }
    let n = count_free_cells(bounds, snake);
    if n == 0 {
        None
    } else {
        let k = random_below(n);
        let cell = free_cell_at(bounds, snake, k);
        assert(free_cells(bounds, snake@).contains(cell));
        Some(cell)
    }
}

} // verus!
