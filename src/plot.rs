//! Box plots drawn as three rows of text, and several of them stacked into
//! one figure.
use vstd::prelude::*;
use stamp::Stamp;
use crate::canvas::{
    lemma_max_len_ge, lemma_max_len_le, lemma_max_len_one, cells_of, grid_text, layer, max_len, new_stamp, overlay, render_stamp, rows_cover,
    single_cell, single_cell_lines, stamp_cells, stamp_width, glyph_grid, lemma_grid_round_trip,
    glyph_lines, stamp_height, Grid,
};
use crate::figure::{border_grid, lemma_border_grid_glyphs, one_glyph, Border, BorderChars, Filled};
use crate::text::{
    concat, concat_strings, join_lines, lemma_concat_chars, lemma_concat_len_ge, lemma_concat_len_le,
};

verus! {

/// The columns, counted from zero, at which the parts of a box plot are
/// drawn.
#[derive(Debug, Clone, Copy, PartialEq, Eq, Structural)]
pub struct BoxplotCols {
    pub box_lo: usize,
    pub box_mid: usize,
    pub box_hi: usize,
    pub marker: usize,
    pub wh_lo: usize,
    pub wh_hi: usize,
}

impl BoxplotCols {
    /// Every column but the marker's lies below `width`.
    pub open spec fn fits(&self, width: nat) -> bool {
        &&& self.box_lo < width
        &&& self.box_mid < width
        &&& self.box_hi < width
        &&& self.wh_lo < width
        &&& self.wh_hi < width
    }
}

/// The glyphs of one row of a box plot: one for each whisker end and box
/// line, and one to fill each stretch between two of them.
pub struct RowChars {
    wh_lo: &'static str,
    wh_lo_box_lo_fill: &'static str,
    box_lo: &'static str,
    box_lo_box_mid_fill: &'static str,
    box_mid: &'static str,
    box_mid_box_hi_fill: &'static str,
    box_hi: &'static str,
    box_hi_wh_hi_fill: &'static str,
    wh_hi: &'static str,
}

/// What a row holds at column `k` after a box plot row is drawn over `prev`;
/// where two parts meet at a column, the later drawn one shows: fills first,
/// then the box ends, the whisker ends, and the middle line last.
pub open spec fn row_entry(rc: RowChars, cols: BoxplotCols, prev: Seq<char>, k: int) -> Seq<char> {
    if k == cols.box_mid {
        rc.spec_box_mid()
    } else if k == cols.wh_hi {
        rc.spec_wh_hi()
    } else if k == cols.wh_lo {
        rc.spec_wh_lo()
    } else if k == cols.box_hi {
        rc.spec_box_hi()
    } else if k == cols.box_lo {
        rc.spec_box_lo()
    } else if cols.box_mid < k < cols.box_hi {
        rc.spec_box_mid_box_hi_fill()
    } else if cols.box_lo < k < cols.box_mid {
        rc.spec_box_lo_box_mid_fill()
    } else if cols.box_hi < k < cols.wh_hi {
        rc.spec_box_hi_wh_hi_fill()
    } else if cols.wh_lo < k < cols.box_lo {
        rc.spec_wh_lo_box_lo_fill()
    } else {
        prev
    }
}

/// Sets the entries `from + 1 .. to` of `row` to `s`.
fn fill(row: &mut Vec<String>, from: usize, to: usize, s: &str)
    requires
        to <= old(row).len(),
    ensures
        final(row).len() == old(row).len(),
        forall|k: int|
            0 <= k < old(row).len() ==> #[trigger] final(row)@[k]@ == (if from < k < to {
                s@
            } else {
                old(row)@[k]@
            }),
{
    let ghost start = row@;
    if from >= to {
        return;
    }
    let mut i: usize = from + 1;
    while i < to
        invariant
            from < i,
            i <= to || i == from + 1,
            to <= row.len(),
            row.len() == start.len(),
            forall|k: int|
                0 <= k < start.len() ==> #[trigger] row@[k]@ == (if from < k < i {
                    s@
                } else {
                    start[k]@
                }),
        decreases to - i,
    {
        row.set(i, s.to_owned());
        i = i + 1;
    }
}

impl RowChars {
    pub closed spec fn spec_wh_lo(&self) -> Seq<char> {
        self.wh_lo@
    }

    pub closed spec fn spec_wh_lo_box_lo_fill(&self) -> Seq<char> {
        self.wh_lo_box_lo_fill@
    }

    pub closed spec fn spec_box_lo(&self) -> Seq<char> {
        self.box_lo@
    }

    pub closed spec fn spec_box_lo_box_mid_fill(&self) -> Seq<char> {
        self.box_lo_box_mid_fill@
    }

    pub closed spec fn spec_box_mid(&self) -> Seq<char> {
        self.box_mid@
    }

    pub closed spec fn spec_box_mid_box_hi_fill(&self) -> Seq<char> {
        self.box_mid_box_hi_fill@
    }

    pub closed spec fn spec_box_hi(&self) -> Seq<char> {
        self.box_hi@
    }

    pub closed spec fn spec_box_hi_wh_hi_fill(&self) -> Seq<char> {
        self.box_hi_wh_hi_fill@
    }

    pub closed spec fn spec_wh_hi(&self) -> Seq<char> {
        self.wh_hi@
    }

    /// The glyphs from left to right: lower whisker end, its fill, lower box
    /// end, its fill, middle line, its fill, upper box end, its fill, upper
    /// whisker end.
    pub open spec fn glyphs(&self) -> Seq<Seq<char>> {
        seq![
            self.spec_wh_lo(),
            self.spec_wh_lo_box_lo_fill(),
            self.spec_box_lo(),
            self.spec_box_lo_box_mid_fill(),
            self.spec_box_mid(),
            self.spec_box_mid_box_hi_fill(),
            self.spec_box_hi(),
            self.spec_box_hi_wh_hi_fill(),
            self.spec_wh_hi(),
        ]
    }

    /// Every glyph is one character taking one cell.
    pub open spec fn wf(&self) -> bool {
        &&& one_glyph(self.spec_wh_lo())
        &&& one_glyph(self.spec_wh_lo_box_lo_fill())
        &&& one_glyph(self.spec_box_lo())
        &&& one_glyph(self.spec_box_lo_box_mid_fill())
        &&& one_glyph(self.spec_box_mid())
        &&& one_glyph(self.spec_box_mid_box_hi_fill())
        &&& one_glyph(self.spec_box_hi())
        &&& one_glyph(self.spec_box_hi_wh_hi_fill())
        &&& one_glyph(self.spec_wh_hi())
    }

    /// Draws this row of a box plot into `row`, one glyph per entry.
    pub fn render(&self, row: &mut Vec<String>, cols: &BoxplotCols)
        requires
            cols.fits(old(row).len() as nat),
        ensures
            final(row).len() == old(row).len(),
            forall|k: int|
                0 <= k < old(row).len() ==> #[trigger] final(row)@[k]@ == row_entry(
                    *self,
                    *cols,
                    old(row)@[k]@,
                    k,
                ),
    {
        // Lower whisker extent.
        fill(row, cols.wh_lo, cols.box_lo, self.wh_lo_box_lo_fill);
        // Upper whisker extent.
        fill(row, cols.box_hi, cols.wh_hi, self.box_hi_wh_hi_fill);
        // Lower box extent.
        fill(row, cols.box_lo, cols.box_mid, self.box_lo_box_mid_fill);
        // Upper box extent.
        fill(row, cols.box_mid, cols.box_hi, self.box_mid_box_hi_fill);
        // Box ends, whisker ends, and the middle line last.
        row.set(cols.box_lo, self.box_lo.to_owned());
        row.set(cols.box_hi, self.box_hi.to_owned());
        row.set(cols.wh_lo, self.wh_lo.to_owned());
        row.set(cols.wh_hi, self.wh_hi.to_owned());
        row.set(cols.box_mid, self.box_mid.to_owned());
    }
}

} // verus!

verus! {

/// A row of `width` empty entries.
fn make_row(width: usize) -> (r: Vec<String>)
    ensures
        r.len() == width,
        forall|k: int| 0 <= k < width ==> (#[trigger] r@[k])@ == Seq::<char>::empty(),
{
    let mut row: Vec<String> = Vec::new();
    let mut i: usize = 0;
    while i < width
        invariant
            i <= width,
            row.len() == i,
            forall|k: int| 0 <= k < i ==> (#[trigger] row@[k])@ == Seq::<char>::empty(),
        decreases width - i,
    {
        row.push(String::new());
        i = i + 1;
    }
    row
}

/// The texts of a row's entries.
pub open spec fn entry_texts(row: Seq<String>) -> Seq<Seq<char>> {
    row.map_values(|s: String| s@)
}

/// The three rows of a box plot, each a sequence of entries.
struct Plot(Vec<String>, Vec<String>, Vec<String>);

impl Plot {
    fn new(width: usize) -> (r: Self)
        ensures
            r.0.len() == width,
            r.1.len() == width,
            r.2.len() == width,
            forall|k: int| 0 <= k < width ==> (#[trigger] r.0@[k])@ == Seq::<char>::empty(),
            forall|k: int| 0 <= k < width ==> (#[trigger] r.1@[k])@ == Seq::<char>::empty(),
            forall|k: int| 0 <= k < width ==> (#[trigger] r.2@[k])@ == Seq::<char>::empty(),
    {
        Plot(make_row(width), make_row(width), make_row(width))
    }

    /// Each row's entries written one after the other, rows joined by
    /// newlines.
    fn render(&self) -> (r: String)
        ensures
            r@ == join_lines(
                seq![
                    concat(entry_texts(self.0@)),
                    concat(entry_texts(self.1@)),
                    concat(entry_texts(self.2@)),
                ],
            ),
    {
        let a = concat_strings(&self.0);
        let b = concat_strings(&self.1);
        let c = concat_strings(&self.2);
        let mut s = a;
        s.append("\n");
        s.append(b.as_str());
        s.append("\n");
        s.append(c.as_str());
        proof {
            reveal_strlit("\n");
            assert("\n"@ =~= seq!['\n']);
            let ls = seq![a@, b@, c@];
            assert(ls.drop_last() =~= seq![a@, b@]);
            assert(seq![a@, b@].drop_last() =~= seq![a@]);
            assert(join_lines(seq![a@]) == a@);
            assert(join_lines(seq![a@, b@]) == a@ + seq!['\n'] + b@);
            assert(s@ =~= join_lines(ls));
        }
        s
    }
}

/// The entries of one box plot row drawn on an empty row of `width` entries.
pub open spec fn plot_row(rc: RowChars, cols: BoxplotCols, width: nat) -> Seq<Seq<char>> {
    Seq::new(width, |k: int| row_entry(rc, cols, Seq::empty(), k))
}

/// The glyphs of a box plot: three rows and a marker for the mean.
pub struct BoxplotChars {
    marker: &'static str,
    rows: [RowChars; 3],
}

/// The three lines of a box plot drawn `width` entries wide, before the
/// marker is set.
pub open spec fn plot_lines(bc: BoxplotChars, cols: BoxplotCols, width: nat) -> Seq<Seq<char>> {
    seq![
        concat(plot_row(bc.spec_row(0), cols, width)),
        concat(plot_row(bc.spec_row(1), cols, width)),
        concat(plot_row(bc.spec_row(2), cols, width)),
    ]
}

/// The cells of a box plot: its three lines, padded to the longest, with the
/// marker written over the middle one at the marker's column.
pub open spec fn boxplot_grid(bc: BoxplotChars, cols: BoxplotCols, width: nat) -> Grid {
    let ls = plot_lines(bc, cols, width);
    overlay(cells_of(ls), max_len(ls), seq![seq![bc.spec_marker()]], 1, cols.marker as nat, 1)
}

/// The message of a plot that cannot be drawn.
pub open spec fn plot_error() -> Seq<char> {
    "Unable to plot sample data"@
}

/// The entries of a drawn row are empty or one glyph taking one cell.
proof fn lemma_plot_row_glyphs(rc: RowChars, cols: BoxplotCols, width: nat)
    requires
        rc.wf(),
    ensures
        forall|k: int, j: int|
            0 <= k < width && 0 <= j < plot_row(rc, cols, width)[k].len() ==> single_cell(
                #[trigger] plot_row(rc, cols, width)[k][j],
            ),
        forall|j: int|
            0 <= j < concat(plot_row(rc, cols, width)).len() ==> single_cell(
                #[trigger] concat(plot_row(rc, cols, width))[j],
            ),
{
    let ss = plot_row(rc, cols, width);
    assert forall|k: int, j: int| 0 <= k < ss.len() && 0 <= j < ss[k].len() implies single_cell(
        #[trigger] ss[k][j],
    ) by {
        assert(j == 0);
    }
    lemma_concat_chars(ss, |c: char| single_cell(c));
}

impl BoxplotChars {
    pub closed spec fn spec_marker(&self) -> Seq<char> {
        self.marker@
    }

    pub closed spec fn spec_row(&self, i: int) -> RowChars {
        self.rows[i]
    }

    /// Every glyph is one character taking one cell.
    pub open spec fn wf(&self) -> bool {
        &&& one_glyph(self.spec_marker())
        &&& self.spec_row(0).wf()
        &&& self.spec_row(1).wf()
        &&& self.spec_row(2).wf()
    }

    /// The ASCII glyphs.
    pub closed spec fn spec_ascii() -> BoxplotChars {
        BoxplotChars {
            marker: "x",
            rows: [
                RowChars {
                    wh_lo: " ",
                    wh_lo_box_lo_fill: " ",
                    box_lo: "+",
                    box_lo_box_mid_fill: "-",
                    box_mid: "+",
                    box_mid_box_hi_fill: "-",
                    box_hi: "+",
                    box_hi_wh_hi_fill: " ",
                    wh_hi: " ",
                },
                RowChars {
                    wh_lo: "|",
                    wh_lo_box_lo_fill: "-",
                    box_lo: "|",
                    box_lo_box_mid_fill: " ",
                    box_mid: "|",
                    box_mid_box_hi_fill: " ",
                    box_hi: "|",
                    box_hi_wh_hi_fill: "-",
                    wh_hi: "|",
                },
                RowChars {
                    wh_lo: " ",
                    wh_lo_box_lo_fill: " ",
                    box_lo: "+",
                    box_lo_box_mid_fill: "-",
                    box_mid: "+",
                    box_mid_box_hi_fill: "-",
                    box_hi: "+",
                    box_hi_wh_hi_fill: " ",
                    wh_hi: " ",
                },
            ],
        }
    }

    /// The box drawing glyphs.
    pub closed spec fn spec_unicode() -> BoxplotChars {
        BoxplotChars {
            marker: "\u{2715}",
            rows: [
                RowChars {
                    wh_lo: "\u{252C}",
                    wh_lo_box_lo_fill: " ",
                    box_lo: "\u{250C}",
                    box_lo_box_mid_fill: "\u{2500}",
                    box_mid: "\u{252C}",
                    box_mid_box_hi_fill: "\u{2500}",
                    box_hi: "\u{2510}",
                    box_hi_wh_hi_fill: " ",
                    wh_hi: "\u{252C}",
                },
                RowChars {
                    wh_lo: "\u{251C}",
                    wh_lo_box_lo_fill: "\u{2500}",
                    box_lo: "\u{2524}",
                    box_lo_box_mid_fill: " ",
                    box_mid: "\u{2502}",
                    box_mid_box_hi_fill: " ",
                    box_hi: "\u{251C}",
                    box_hi_wh_hi_fill: "\u{2500}",
                    wh_hi: "\u{2524}",
                },
                RowChars {
                    wh_lo: "\u{2534}",
                    wh_lo_box_lo_fill: " ",
                    box_lo: "\u{2514}",
                    box_lo_box_mid_fill: "\u{2500}",
                    box_mid: "\u{2534}",
                    box_mid_box_hi_fill: "\u{2500}",
                    box_hi: "\u{2518}",
                    box_hi_wh_hi_fill: " ",
                    wh_hi: "\u{2534}",
                },
            ],
        }
    }

    /// Box plots drawn with ASCII characters, the mean marked by `x`.
    pub fn ascii() -> (r: Self)
        ensures
            r == Self::spec_ascii(),
            r.wf(),
            r.spec_marker() == "x"@,
            r.spec_row(0).glyphs() == seq![" "@, " "@, "+"@, "-"@, "+"@, "-"@, "+"@, " "@, " "@],
            r.spec_row(1).glyphs() == seq!["|"@, "-"@, "|"@, " "@, "|"@, " "@, "|"@, "-"@, "|"@],
            r.spec_row(2).glyphs() == seq![" "@, " "@, "+"@, "-"@, "+"@, "-"@, "+"@, " "@, " "@],
    {
        proof {
            reveal_strlit(" ");
            reveal_strlit("+");
            reveal_strlit("-");
            reveal_strlit("x");
            reveal_strlit("|");
        }
        BoxplotChars {
            marker: "x",
            rows: [
                RowChars {
                    wh_lo: " ",
                    wh_lo_box_lo_fill: " ",
                    box_lo: "+",
                    box_lo_box_mid_fill: "-",
                    box_mid: "+",
                    box_mid_box_hi_fill: "-",
                    box_hi: "+",
                    box_hi_wh_hi_fill: " ",
                    wh_hi: " ",
                },
                RowChars {
                    wh_lo: "|",
                    wh_lo_box_lo_fill: "-",
                    box_lo: "|",
                    box_lo_box_mid_fill: " ",
                    box_mid: "|",
                    box_mid_box_hi_fill: " ",
                    box_hi: "|",
                    box_hi_wh_hi_fill: "-",
                    wh_hi: "|",
                },
                RowChars {
                    wh_lo: " ",
                    wh_lo_box_lo_fill: " ",
                    box_lo: "+",
                    box_lo_box_mid_fill: "-",
                    box_mid: "+",
                    box_mid_box_hi_fill: "-",
                    box_hi: "+",
                    box_hi_wh_hi_fill: " ",
                    wh_hi: " ",
                },
            ],
        }
    }

    /// Box plots drawn with box drawing characters, the mean marked by a multiplication sign.
    pub fn unicode() -> (r: Self)
        ensures
            r == Self::spec_unicode(),
            r.wf(),
            r.spec_marker() == "\u{2715}"@,
            r.spec_row(0).glyphs() == seq!["\u{252C}"@, " "@, "\u{250C}"@, "\u{2500}"@, "\u{252C}"@, "\u{2500}"@, "\u{2510}"@, " "@, "\u{252C}"@],
            r.spec_row(1).glyphs() == seq!["\u{251C}"@, "\u{2500}"@, "\u{2524}"@, " "@, "\u{2502}"@, " "@, "\u{251C}"@, "\u{2500}"@, "\u{2524}"@],
            r.spec_row(2).glyphs() == seq!["\u{2534}"@, " "@, "\u{2514}"@, "\u{2500}"@, "\u{2534}"@, "\u{2500}"@, "\u{2518}"@, " "@, "\u{2534}"@],
    {
        proof {
            reveal_strlit(" ");
            reveal_strlit("\u{2500}");
            reveal_strlit("\u{2502}");
            reveal_strlit("\u{250C}");
            reveal_strlit("\u{2510}");
            reveal_strlit("\u{2514}");
            reveal_strlit("\u{2518}");
            reveal_strlit("\u{251C}");
            reveal_strlit("\u{2524}");
            reveal_strlit("\u{252C}");
            reveal_strlit("\u{2534}");
            reveal_strlit("\u{2715}");
        }
        BoxplotChars {
            marker: "\u{2715}",
            rows: [
                RowChars {
                    wh_lo: "\u{252C}",
                    wh_lo_box_lo_fill: " ",
                    box_lo: "\u{250C}",
                    box_lo_box_mid_fill: "\u{2500}",
                    box_mid: "\u{252C}",
                    box_mid_box_hi_fill: "\u{2500}",
                    box_hi: "\u{2510}",
                    box_hi_wh_hi_fill: " ",
                    wh_hi: "\u{252C}",
                },
                RowChars {
                    wh_lo: "\u{251C}",
                    wh_lo_box_lo_fill: "\u{2500}",
                    box_lo: "\u{2524}",
                    box_lo_box_mid_fill: " ",
                    box_mid: "\u{2502}",
                    box_mid_box_hi_fill: " ",
                    box_hi: "\u{251C}",
                    box_hi_wh_hi_fill: "\u{2500}",
                    wh_hi: "\u{2524}",
                },
                RowChars {
                    wh_lo: "\u{2534}",
                    wh_lo_box_lo_fill: " ",
                    box_lo: "\u{2514}",
                    box_lo_box_mid_fill: "\u{2500}",
                    box_mid: "\u{2534}",
                    box_mid_box_hi_fill: "\u{2500}",
                    box_hi: "\u{2518}",
                    box_hi_wh_hi_fill: " ",
                    wh_hi: "\u{2534}",
                },
            ],
        }
    }

    /// The glyphs of row `i`, from the top.
    pub fn row(&self, i: usize) -> (r: &RowChars)
        requires
            i < 3,
        ensures
            *r == self.spec_row(i as int),
    {
        &self.rows[i]
    }

    /// Draws the box plot whose parts stand at `cols`, over `width` entries.
    /// It cannot be drawn when the marker falls right of the drawn lines.
    pub fn render(&self, cols: &BoxplotCols, width: usize) -> (r: Result<String, &'static str>)
        requires
            self.wf(),
            cols.fits(width as nat),
        ensures
            r is Ok <==> cols.marker < max_len(plot_lines(*self, *cols, width as nat)),
            r is Ok ==> r->Ok_0@ == grid_text(boxplot_grid(*self, *cols, width as nat)),
            r is Err ==> r->Err_0@ == plot_error(),
    {
        let ghost ls = plot_lines(*self, *cols, width as nat);
        let Plot(mut row0, mut row1, mut row2) = Plot::new(width);
        self.rows[0].render(&mut row0, cols);
        self.rows[1].render(&mut row1, cols);
        self.rows[2].render(&mut row2, cols);
        let plot = Plot(row0, row1, row2);

        let no_marker = plot.render();
        proof {
            reveal_strlit("Unable to plot sample data");
            assert(entry_texts(plot.0@) =~= plot_row(self.spec_row(0), *cols, width as nat));
            assert(entry_texts(plot.1@) =~= plot_row(self.spec_row(1), *cols, width as nat));
            assert(entry_texts(plot.2@) =~= plot_row(self.spec_row(2), *cols, width as nat));
            assert(no_marker@ == join_lines(ls));
            lemma_plot_row_glyphs(self.spec_row(0), *cols, width as nat);
            lemma_plot_row_glyphs(self.spec_row(1), *cols, width as nat);
            lemma_plot_row_glyphs(self.spec_row(2), *cols, width as nat);
            assert(single_cell_lines(ls));
            lemma_concat_len_ge(plot_row(self.spec_row(0), *cols, width as nat), cols.box_mid as int);
            lemma_max_len_ge(ls, 0);
            lemma_boxplot_grid_glyphs(*self, *cols, width as nat);
        }
        let base = match new_stamp(no_marker.as_str()) {
            Ok(st) => st,
            Err(_) => return Err("Unable to plot sample data"),
        };
        proof {
            assert(seq![self.spec_marker()[0]] =~= self.spec_marker());
            lemma_max_len_one(self.spec_marker());
            assert(single_cell_lines(seq![self.spec_marker()]));
            assert(self.spec_marker() == join_lines(seq![self.spec_marker()]));
            assert(cells_of(seq![self.spec_marker()]) =~~= seq![seq![self.spec_marker()]]);
        }
        let marker = match new_stamp(self.marker) {
            Ok(st) => st,
            Err(_) => return Err("Unable to plot sample data"),
        };
        let layered = match layer(&base, &marker, cols.marker, 1) {
            Ok(st) => st,
            Err(_) => return Err("Unable to plot sample data"),
        };
        Ok(render_stamp(&layered))
    }
}

} // verus!

verus! {

/// The cells of a box plot are one-character glyphs, three rows of them.
proof fn lemma_boxplot_grid_glyphs(bc: BoxplotChars, cols: BoxplotCols, width: nat)
    requires
        bc.wf(),
        cols.fits(width),
    ensures
        glyph_grid(boxplot_grid(bc, cols, width), max_len(plot_lines(bc, cols, width))),
        boxplot_grid(bc, cols, width).len() == 3,
        max_len(plot_lines(bc, cols, width)) >= 1,
        max_len(plot_lines(bc, cols, width)) <= width,
{
    let ls = plot_lines(bc, cols, width);
    let m = max_len(ls);
    let g = boxplot_grid(bc, cols, width);
    lemma_plot_row_glyphs(bc.spec_row(0), cols, width);
    lemma_plot_row_glyphs(bc.spec_row(1), cols, width);
    lemma_plot_row_glyphs(bc.spec_row(2), cols, width);
    lemma_concat_len_ge(plot_row(bc.spec_row(0), cols, width), cols.box_mid as int);
    lemma_max_len_ge(ls, 0);
    assert forall|i: int| 0 <= i < 3 implies #[trigger] ls[i].len() <= width by {
        let row = plot_row(bc.spec_row(i), cols, width);
        assert(ls[i] == concat(row));
        assert forall|k: int| 0 <= k < row.len() implies (#[trigger] row[k]).len() <= 1 by {}
        lemma_concat_len_le(row);
    }
    lemma_max_len_le(ls, width);
    assert forall|i: int, j: int| 0 <= i < g.len() && 0 <= j < m implies {
        &&& (#[trigger] g[i][j]).len() == 1
        &&& single_cell(g[i][j][0])
    } by {
        assert(ls[i] == concat(plot_row(bc.spec_row(i), cols, width)));
    }
}

/// A box plot set in a figure of several: where its parts stand, the width it
/// is drawn over, and its offset from the left edge of the figure's content.
#[derive(Debug, Clone, Copy, PartialEq, Eq, Structural)]
pub struct PlacedPlot {
    pub cols: BoxplotCols,
    pub width: usize,
    pub offset: usize,
}

/// The message for a figure of no plots.
pub open spec fn empty_error() -> Seq<char> {
    "Cannot plot empty list of summaries"@
}

/// The cells left free around the plots on each side: two inside a frame.
pub open spec fn pad_cells(border: bool) -> nat {
    if border {
        2
    } else {
        0
    }
}

pub open spec fn plot_style(ascii: bool) -> BoxplotChars {
    if ascii {
        BoxplotChars::spec_ascii()
    } else {
        BoxplotChars::spec_unicode()
    }
}

pub open spec fn frame_style(ascii: bool) -> BorderChars {
    if ascii {
        BorderChars::spec_ascii()
    } else {
        BorderChars::spec_unicode()
    }
}

/// The height of a figure of `n` plots, three rows each.
pub open spec fn figure_height(n: nat, border: bool) -> nat {
    3 * n + 2 * pad_cells(border)
}

/// What the plots are drawn over: a frame, or blank cells.
pub open spec fn figure_base(ascii: bool, border: bool, width: nat, height: nat) -> Grid {
    if border {
        border_grid(frame_style(ascii), width, height)
    } else {
        Seq::new(height, |i: int| Seq::new(width, |j: int| seq![' ']))
    }
}

/// The width in cells of a drawn box plot.
pub open spec fn plot_width(bc: BoxplotChars, p: PlacedPlot) -> nat {
    max_len(plot_lines(bc, p.cols, p.width as nat))
}

/// A plot can be drawn, and its offset lies inside the figure.
pub open spec fn placed_ok(ascii: bool, border: bool, width: nat, p: PlacedPlot) -> bool {
    &&& p.cols.marker < plot_width(plot_style(ascii), p)
    &&& p.offset + pad_cells(border) < width
}

/// The figure's cells once the first `k` plots are drawn, plot `i` with its
/// top row at row `3 * i` below the padding.
pub open spec fn stacked_grid(ascii: bool, border: bool, width: nat, plots: Seq<PlacedPlot>, k: nat) -> Grid
    decreases k,
{
    if k == 0 || k > plots.len() {
        figure_base(ascii, border, width, figure_height(plots.len(), border))
    } else {
        let p = plots[k - 1];
        let bc = plot_style(ascii);
        overlay(
            stacked_grid(ascii, border, width, plots, (k - 1) as nat),
            width,
            boxplot_grid(bc, p.cols, p.width as nat),
            plot_width(bc, p),
            (p.offset + pad_cells(border)) as nat,
            (pad_cells(border) + 3 * (k - 1)) as nat,
        )
    }
}

/// Draws the placed box plots one below the other in a figure `width` cells
/// wide, framed when `border` is set.
pub fn compose_plots(plots: &Vec<PlacedPlot>, width: usize, ascii: bool, border: bool) -> (r: Result<
    String,
    &'static str,
>)
    requires
        width >= 1,
        border ==> width >= 3,
        3 * plots.len() + 4 <= usize::MAX,
        forall|i: int| 0 <= i < plots.len() ==> (#[trigger] plots@[i]).cols.fits(plots@[i].width as nat),
        forall|i: int|
            0 <= i < plots.len() ==> (#[trigger] plots@[i]).offset + plots@[i].width + 2 <= usize::MAX,
    ensures
        plots.len() == 0 ==> r is Err && r->Err_0@ == empty_error(),
        r is Ok <==> plots.len() > 0 && forall|i: int|
            0 <= i < plots.len() ==> placed_ok(ascii, border, width as nat, #[trigger] plots@[i]),
        r is Ok ==> r->Ok_0@ == grid_text(stacked_grid(ascii, border, width as nat, plots@, plots.len() as nat)),
        r is Err && plots.len() > 0 ==> r->Err_0@ == plot_error(),
{
    proof {
        reveal_strlit("Cannot plot empty list of summaries");
        reveal_strlit("Unable to plot sample data");
    }
    if plots.len() == 0 {
        return Err("Cannot plot empty list of summaries");
    }
    let padding: usize = if border { 2 } else { 0 };
    let style = if ascii { BoxplotChars::ascii() } else { BoxplotChars::unicode() };
    let ghost n = plots.len();

    let mut stamps: Vec<Stamp> = Vec::new();
    let mut height: usize = 0;
    let mut i: usize = 0;
    while i < plots.len()
        invariant
            i <= plots.len(),
            n == plots.len(),
            3 * n + 4 <= usize::MAX,
            style == plot_style(ascii),
            style.wf(),
            forall|k: int| 0 <= k < n ==> (#[trigger] plots@[k]).cols.fits(plots@[k].width as nat),
            stamps.len() == i,
            height == 3 * i,
            forall|k: int|
                0 <= k < i ==> {
                    &&& stamp_cells(#[trigger] stamps@[k]) == boxplot_grid(style, plots@[k].cols, plots@[k].width as nat)
                    &&& stamp_width(stamps@[k]) == plot_width(style, plots@[k])
                    &&& rows_cover(stamp_cells(stamps@[k]), stamp_width(stamps@[k]))
                    &&& plots@[k].cols.marker < plot_width(style, plots@[k])
                    &&& stamp_cells(stamps@[k]).len() == 3
                    &&& plot_width(style, plots@[k]) <= plots@[k].width
                },
        decreases plots.len() - i,
    {
        let p = plots[i];
        let text = match style.render(&p.cols, p.width) {
            Ok(t) => t,
            Err(e) => return Err(e),
        };
        let ghost g = boxplot_grid(style, p.cols, p.width as nat);
        let ghost m = plot_width(style, p);
        proof {
            lemma_boxplot_grid_glyphs(style, p.cols, p.width as nat);
            lemma_grid_round_trip(g, m);
            assert(text@ == join_lines(glyph_lines(g, m)));
        }
        let st = match new_stamp(text.as_str()) {
            Ok(st) => st,
            Err(_) => return Err("Unable to plot sample data"),
        };
        height = height + stamp_height(&st);
        stamps.push(st);
        i = i + 1;
    }
    height = height + 2 * padding;
    let ghost h = figure_height(n as nat, border);
    assert(height == h);

    let base_text = if border {
        let frame = if ascii { BorderChars::ascii() } else { BorderChars::unicode() };
        Border::new(frame, width, height).render()
    } else {
        Filled::blank(width, height).render()
    };
    let ghost base = figure_base(ascii, border, width as nat, h);
    proof {
        if border {
            lemma_border_grid_glyphs(frame_style(ascii), width as nat, h);
            lemma_grid_round_trip(base, width as nat);
            assert(base_text@ == join_lines(glyph_lines(base, width as nat)));
        } else {
            reveal_strlit(" ");
            assert(" "@ =~= seq![' ']);
            crate::text::lemma_repeat_char(' ', width as nat);
            assert(glyph_grid(base, width as nat));
            lemma_grid_round_trip(base, width as nat);
            assert(glyph_lines(base, width as nat) =~~= crate::text::copies(crate::text::repeat(seq![' '], width as nat), h));
            assert(base_text@ == join_lines(glyph_lines(base, width as nat)));
        }
    }
    let mut all = match new_stamp(base_text.as_str()) {
        Ok(st) => st,
        Err(_) => return Err("Unable to plot sample data"),
    };

    let mut i: usize = 0;
    while i < stamps.len()
        invariant
            i <= n,
            n == plots.len(),
            n == stamps.len(),
            3 * n + 4 <= usize::MAX,
            style == plot_style(ascii),
            padding == pad_cells(border),
            forall|k: int| 0 <= k < n ==> (#[trigger] plots@[k]).offset + plots@[k].width + 2 <= usize::MAX,
            forall|k: int|
                0 <= k < n ==> {
                    &&& stamp_cells(#[trigger] stamps@[k]) == boxplot_grid(style, plots@[k].cols, plots@[k].width as nat)
                    &&& stamp_width(stamps@[k]) == plot_width(style, plots@[k])
                    &&& rows_cover(stamp_cells(stamps@[k]), stamp_width(stamps@[k]))
                    &&& plots@[k].cols.marker < plot_width(style, plots@[k])
                    &&& stamp_cells(stamps@[k]).len() == 3
                    &&& plot_width(style, plots@[k]) <= plots@[k].width
                },
            stamp_cells(all) == stacked_grid(ascii, border, width as nat, plots@, i as nat),
            stamp_cells(all).len() == figure_height(n as nat, border),
            stamp_width(all) == width,
            rows_cover(stamp_cells(all), width as nat),
            forall|k: int| 0 <= k < i ==> (#[trigger] plots@[k]).offset + padding < width,
        decreases n - i,
    {
        let offset = plots[i].offset + padding;
        let row = padding + i * stamp_height(&stamps[i]);
        all = match layer(&all, &stamps[i], offset, row) {
            Ok(st) => st,
            Err(_) => return Err("Unable to plot sample data"),
        };
        i = i + 1;
    }
    assert forall|k: int| 0 <= k < n implies placed_ok(ascii, border, width as nat, #[trigger] plots@[k]) by {
        assert(plots@[k].offset + padding < width);
        assert(stamp_width(stamps@[k]) == plot_width(style, plots@[k]));
    }
    Ok(render_stamp(&all))
}

} // verus!

verus! {

/// `cols` spaces.
fn make_padding(cols: usize) -> (r: String)
    ensures
        r@ == crate::text::repeat(seq![' '], cols as nat),
{
    let mut s = String::new();
    proof {
        reveal_strlit(" ");
        assert(" "@ =~= seq![' ']);
    }
    crate::text::push_repeated(&mut s, " ", cols);
    s
}

/// Each line of `ls` preceded by `cols` spaces.
pub open spec fn shifted(ls: Seq<Seq<char>>, cols: nat) -> Seq<Seq<char>> {
    ls.map_values(|l: Seq<char>| crate::text::repeat(seq![' '], cols) + l)
}

/// Moves the text `s` right by `cols` columns: each of its lines is preceded
/// by `cols` spaces.
pub fn pad(s: &String, cols: usize) -> (r: String)
    ensures
        forall|ls: Seq<Seq<char>>|
            ls.len() >= 1 && crate::text::no_newlines(ls) && join_lines(ls) == s@ ==> r@ == join_lines(
                #[trigger] shifted(ls, cols as nat),
            ),
{
    let padding = make_padding(cols);
    let lines = crate::text::split_lines(s.as_str());
    let ghost ls = crate::text::texts(lines@);
    let ghost out_lines = shifted(ls, cols as nat);
    let mut out = String::new();
    let mut i: usize = 0;
    while i < lines.len()
        invariant
            i <= lines.len(),
            lines.len() >= 1,
            ls == crate::text::texts(lines@),
            out_lines == shifted(ls, cols as nat),
            padding@ == crate::text::repeat(seq![' '], cols as nat),
            out@ == join_lines(out_lines.take(i as int)) + (if 0 < i < lines.len() {
                seq!['\n']
            } else {
                Seq::empty()
            }),
        decreases lines.len() - i,
    {
        out.append(padding.as_str());
        out.append(lines[i].as_str());
        proof {
            assert(out_lines.take(i + 1).drop_last() =~= out_lines.take(i as int));
            if i == 0 {
                assert(out_lines.take(0) =~= Seq::<Seq<char>>::empty());
            }
        }
        if i + 1 != lines.len() {
            out.append("\n");
            proof {
                reveal_strlit("\n");
                assert("\n"@ =~= seq!['\n']);
            }
        }
        i = i + 1;
        assert(out@ =~= join_lines(out_lines.take(i as int)) + (if 0 < i < lines.len() {
            seq!['\n']
        } else {
            Seq::empty()
        }));
    }
    assert(out_lines.take(i as int) =~= out_lines);
    assert forall|ls2: Seq<Seq<char>>|
        ls2.len() >= 1 && crate::text::no_newlines(ls2) && join_lines(ls2) == s@ implies out@ == join_lines(
            #[trigger] shifted(ls2, cols as nat),
        ) by {
        crate::text::lemma_join_lines_injective(ls, ls2);
    }
    out
}

} // verus!
