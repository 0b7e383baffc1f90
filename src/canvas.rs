//! Rectangles of text cells, as the `stamp` crate keeps them, and the
//! contracts of the `stamp` operations that the plots are built with.
use vstd::prelude::*;
use stamp::Stamp;
use crate::text::{concat, copies, join_lines};

verus! {

/// A rectangle of cells, row by row; each cell holds the text of one
/// grapheme.
pub type Grid = Seq<Seq<Seq<char>>>;

#[verifier::external_type_specification]
#[verifier::external_body]
pub struct ExStamp(Stamp);

/// The cells that a stamp holds, row by row.
pub uninterp spec fn stamp_cells(st: Stamp) -> Grid;

/// The width in columns that a stamp was made with.
pub uninterp spec fn stamp_width(st: Stamp) -> nat;

/// A character that takes exactly one cell of its own: printable ASCII,
/// the box drawing block, and the multiplication sign used as a marker.
pub open spec fn single_cell(c: char) -> bool {
    (' ' <= c && c <= '~') || ('\u{2500}' <= c && c <= '\u{257F}') || c == '\u{2715}'
}

/// Every character of every line takes one cell of its own.
pub open spec fn single_cell_lines(ls: Seq<Seq<char>>) -> bool {
    forall|i: int, j: int| 0 <= i < ls.len() && 0 <= j < ls[i].len() ==> single_cell(#[trigger] ls[i][j])
}

/// The length of the longest line.
pub open spec fn max_len(ls: Seq<Seq<char>>) -> nat
    decreases ls.len(),
{
    if ls.len() == 0 {
        0
    } else {
        let m = max_len(ls.drop_last());
        if ls.last().len() > m {
            ls.last().len()
        } else {
            m
        }
    }
}

/// The grid of one-character cells that single-cell lines make, each line
/// padded with spaces to the longest one.
pub open spec fn cells_of(ls: Seq<Seq<char>>) -> Grid {
    Seq::new(
        ls.len(),
        |i: int|
            Seq::new(
                max_len(ls),
                |j: int|
                    if j < ls[i].len() {
                        seq![ls[i][j]]
                    } else {
                        seq![' ']
                    },
            ),
    )
}

/// Every row holds at least `width` cells.
pub open spec fn rows_cover(g: Grid, width: nat) -> bool {
    forall|i: int| 0 <= i < g.len() ==> #[trigger] g[i].len() >= width
}

/// `top` (of width `top_width`) written over `base` (of width `base_width`)
/// with its upper left cell at column `col` and row `row`; what falls outside
/// `base` is dropped.
pub open spec fn overlay(base: Grid, base_width: nat, top: Grid, top_width: nat, col: nat, row: nat) -> Grid {
    Seq::new(
        base.len(),
        |i: int|
            Seq::new(
                base[i].len(),
                |j: int|
                    if row <= i < row + top.len() && col <= j < col + top_width && j < base_width {
                        top[i - row][j - col]
                    } else {
                        base[i][j]
                    },
            ),
    )
}

/// The text of a grid: the cells of each row written one after the other,
/// and the rows joined by newlines.
pub open spec fn grid_text(g: Grid) -> Seq<char> {
    join_lines(g.map_values(|row: Seq<Seq<char>>| concat(row)))
}

/// Relies on `stamp::Stamp::new`: an empty text is refused; a text whose
/// lines are made of characters that each take one cell, one at least,
/// becomes a grid of one cell per character, each line padded with spaces to
/// the longest (unicode-width gives each of these characters width one, and
/// each is a grapheme of its own).
#[verifier::external_body]
pub(crate) fn new_stamp(s: &str) -> (r: Result<Stamp, ()>)
    ensures
        s@.len() == 0 ==> r is Err,
        forall|ls: Seq<Seq<char>>|
            #![trigger join_lines(ls), single_cell_lines(ls)]
            s@ == join_lines(ls) && single_cell_lines(ls) && max_len(ls) >= 1 ==> {
                &&& r is Ok
                &&& stamp_cells(r->Ok_0) == cells_of(ls)
                &&& stamp_width(r->Ok_0) == max_len(ls)
            },
{
    Stamp::new(s)
}

/// Relies on `stamp::Stamp::height`: the number of rows.
#[verifier::external_body]
pub(crate) fn stamp_height(st: &Stamp) -> (r: usize)
    ensures
        r == stamp_cells(*st).len(),
{
    st.height()
}

/// Relies on `stamp::Stamp::layer`: refused when the position lies outside
/// `base`; else a copy of `base` with `top` written over it, clipped to
/// `base`. It indexes rows up to the stamps' widths, and adds the position
/// to `top`'s size once the position is found inside `base`, hence `requires`.
#[verifier::external_body]
pub(crate) fn layer(base: &Stamp, top: &Stamp, col: usize, row: usize) -> (r: Result<Stamp, ()>)
    requires
        rows_cover(stamp_cells(*base), stamp_width(*base)),
        rows_cover(stamp_cells(*top), stamp_width(*top)),
        col < stamp_width(*base) && row < stamp_cells(*base).len() ==> {
            &&& col + stamp_width(*top) <= usize::MAX
            &&& row + stamp_cells(*top).len() <= usize::MAX
        },
    ensures
        r is Err <==> (stamp_width(*base) <= col || stamp_cells(*base).len() <= row),
        r is Ok ==> stamp_width(r->Ok_0) == stamp_width(*base),
        r is Ok ==> stamp_cells(r->Ok_0) == overlay(
            stamp_cells(*base),
            stamp_width(*base),
            stamp_cells(*top),
            stamp_width(*top),
            col as nat,
            row as nat,
        ),
{
    base.layer(top, col, row)
}

/// Relies on `stamp::Stamp::render`: the cells of each row written one after
/// the other, rows joined by newlines.
#[verifier::external_body]
pub(crate) fn render_stamp(st: &Stamp) -> (r: String)
    ensures
        r@ == grid_text(stamp_cells(*st)),
{
    st.render()
}

} // verus!

verus! {

/// Every row of `g` has `width` cells, each one character taking one cell.
pub open spec fn glyph_grid(g: Grid, width: nat) -> bool {
    &&& forall|i: int| 0 <= i < g.len() ==> #[trigger] g[i].len() == width
    &&& forall|i: int, j: int|
        0 <= i < g.len() && 0 <= j < width ==> {
            &&& (#[trigger] g[i][j]).len() == 1
            &&& single_cell(g[i][j][0])
        }
}

/// The lines of a grid whose cells hold one character each.
pub open spec fn glyph_lines(g: Grid, width: nat) -> Seq<Seq<char>> {
    Seq::new(g.len(), |i: int| Seq::new(width, |j: int| g[i][j][0]))
}

/// Cells of one character each, written one after the other, are those
/// characters.
pub proof fn lemma_concat_singletons(row: Seq<Seq<char>>)
    requires
        forall|j: int| 0 <= j < row.len() ==> (#[trigger] row[j]).len() == 1,
    ensures
        concat(row) =~= Seq::new(row.len(), |j: int| row[j][0]),
    decreases row.len(),
{
    if row.len() > 0 {
        lemma_concat_singletons(row.drop_last());
    }
}

/// The text of a grid of one-character cells reads back as the same grid.
pub proof fn lemma_grid_round_trip(g: Grid, width: nat)
    requires
        g.len() >= 1,
        width >= 1,
        glyph_grid(g, width),
    ensures
        grid_text(g) == join_lines(glyph_lines(g, width)),
        single_cell_lines(glyph_lines(g, width)),
        max_len(glyph_lines(g, width)) == width,
        cells_of(glyph_lines(g, width)) == g,
{
    let ls = glyph_lines(g, width);
    let texts = g.map_values(|row: Seq<Seq<char>>| concat(row));
    assert forall|i: int| 0 <= i < g.len() implies #[trigger] texts[i] == ls[i] by {
        assert(g[i].len() == width);
        lemma_concat_singletons(g[i]);
    }
    assert(texts =~= ls);
    lemma_max_len_uniform_lines(ls, width);
    assert forall|i: int| 0 <= i < g.len() implies #[trigger] cells_of(ls)[i] == g[i] by {
        assert(g[i].len() == width);
        assert forall|j: int| 0 <= j < width implies #[trigger] cells_of(ls)[i][j] == g[i][j] by {
            assert(g[i][j] =~= seq![g[i][j][0]]);
        }
        assert(cells_of(ls)[i] =~= g[i]);
    }
    assert(cells_of(ls) =~= g);
}

/// Lines all of length `m`, one at least, have `m` as their maximum.
pub proof fn lemma_max_len_uniform_lines(ls: Seq<Seq<char>>, m: nat)
    requires
        ls.len() >= 1,
        forall|i: int| 0 <= i < ls.len() ==> #[trigger] ls[i].len() == m,
    ensures
        max_len(ls) == m,
    decreases ls.len(),
{
    if ls.len() > 1 {
        lemma_max_len_uniform_lines(ls.drop_last(), m);
    } else {
        assert(max_len(ls.drop_last()) == 0);
    }
}

/// Lines of equal length have that length as their maximum.
pub proof fn lemma_max_len_copies(line: Seq<char>, n: nat)
    requires
        n >= 1,
    ensures
        max_len(copies(line, n)) == line.len(),
    decreases n,
{
    assert(copies(line, n).drop_last() =~= copies(line, (n - 1) as nat));
    if n > 1 {
        lemma_max_len_copies(line, (n - 1) as nat);
    } else {
        assert(max_len(copies(line, 0)) == 0);
    }
}

/// A single line's maximum length is its own.
pub proof fn lemma_max_len_one(line: Seq<char>)
    ensures
        max_len(seq![line]) == line.len(),
{
    assert(seq![line].drop_last() =~= Seq::<Seq<char>>::empty());
    assert(max_len(Seq::<Seq<char>>::empty()) == 0);
}

/// The longest line is at least as long as any line.
pub proof fn lemma_max_len_ge(ls: Seq<Seq<char>>, k: int)
    requires
        0 <= k < ls.len(),
    ensures
        max_len(ls) >= ls[k].len(),
    decreases ls.len(),
{
    if k < ls.len() - 1 {
        lemma_max_len_ge(ls.drop_last(), k);
    }
}

/// No line is longer than `bound`, so neither is the longest.
pub proof fn lemma_max_len_le(ls: Seq<Seq<char>>, bound: nat)
    requires
        forall|i: int| 0 <= i < ls.len() ==> #[trigger] ls[i].len() <= bound,
    ensures
        max_len(ls) <= bound,
    decreases ls.len(),
{
    if ls.len() > 0 {
        lemma_max_len_le(ls.drop_last(), bound);
    }
}

} // verus!
