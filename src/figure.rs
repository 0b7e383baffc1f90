//! Plain rectangles of text: a filled block and a bordered frame.
use vstd::prelude::*;
use stamp::Stamp;
use crate::canvas::{
    cells_of, grid_text, layer, lemma_max_len_copies, lemma_max_len_one, new_stamp, render_stamp, rows_cover,
    single_cell, single_cell_lines, stamp_cells, stamp_width, glyph_grid, Grid,
};
use crate::text::{copies, join_lines, lemma_repeat_char, push_lines, push_repeated, repeat};

verus! {

/// A `width` by `height` block of text, every cell holding `filler`.
pub struct Filled {
    filler: String,
    height: usize,
    width: usize,
}

/// The text of a block of `height` lines, each `filler` written `width` times.
pub open spec fn filled_text(filler: Seq<char>, width: nat, height: nat) -> Seq<char> {
    join_lines(copies(repeat(filler, width), height))
}

impl Filled {
    pub closed spec fn spec_filler(&self) -> Seq<char> {
        self.filler@
    }

    pub closed spec fn spec_width(&self) -> nat {
        self.width as nat
    }

    pub closed spec fn spec_height(&self) -> nat {
        self.height as nat
    }

    pub fn new(width: usize, height: usize, filler: &str) -> (r: Self)
        ensures
            r.spec_filler() == filler@,
            r.spec_width() == width,
            r.spec_height() == height,
    {
        let filler = filler.to_owned();
        Filled { filler, height, width }
    }

    /// A block of spaces.
    pub fn blank(width: usize, height: usize) -> (r: Self)
        ensures
            r.spec_filler() == " "@,
            r.spec_width() == width,
            r.spec_height() == height,
    {
        Self::new(width, height, " ")
    }

    pub fn render(&self) -> (r: String)
        ensures
            r@ == filled_text(self.spec_filler(), self.spec_width(), self.spec_height()),
    {
        let mut line = String::new();
        push_repeated(&mut line, self.filler.as_str(), self.width);
        let mut s = String::new();
        push_lines(&mut s, line.as_str(), self.height);
        assert(s@ =~= filled_text(self.spec_filler(), self.spec_width(), self.spec_height()));
        s
    }
}

/// The glyphs of a frame's sides and corners.
pub struct BorderChars {
    left: &'static str,
    bottom_left: &'static str,
    bottom: &'static str,
    bottom_right: &'static str,
    right: &'static str,
    top_left: &'static str,
    top: &'static str,
    top_right: &'static str,
}

/// A text of exactly one character, which takes one cell.
pub open spec fn one_glyph(s: Seq<char>) -> bool {
    s.len() == 1 && single_cell(s[0])
}

impl BorderChars {
    pub closed spec fn spec_left(&self) -> Seq<char> {
        self.left@
    }

    pub closed spec fn spec_bottom_left(&self) -> Seq<char> {
        self.bottom_left@
    }

    pub closed spec fn spec_bottom(&self) -> Seq<char> {
        self.bottom@
    }

    pub closed spec fn spec_bottom_right(&self) -> Seq<char> {
        self.bottom_right@
    }

    pub closed spec fn spec_right(&self) -> Seq<char> {
        self.right@
    }

    pub closed spec fn spec_top_left(&self) -> Seq<char> {
        self.top_left@
    }

    pub closed spec fn spec_top(&self) -> Seq<char> {
        self.top@
    }

    pub closed spec fn spec_top_right(&self) -> Seq<char> {
        self.top_right@
    }

    /// Every glyph is one character taking one cell.
    pub open spec fn wf(&self) -> bool {
        &&& one_glyph(self.spec_left())
        &&& one_glyph(self.spec_bottom_left())
        &&& one_glyph(self.spec_bottom())
        &&& one_glyph(self.spec_bottom_right())
        &&& one_glyph(self.spec_right())
        &&& one_glyph(self.spec_top_left())
        &&& one_glyph(self.spec_top())
        &&& one_glyph(self.spec_top_right())
    }

    /// The frame glyphs made of `|`, `-` and `+`.
    pub closed spec fn spec_ascii() -> BorderChars {
        BorderChars {
            left: "|",
            bottom_left: "+",
            bottom: "-",
            bottom_right: "+",
            right: "|",
            top_left: "+",
            top: "-",
            top_right: "+",
        }
    }

    /// The frame glyphs made of box drawing characters.
    pub closed spec fn spec_unicode() -> BorderChars {
        BorderChars {
            left: "\u{2502}",
            bottom_left: "\u{2514}",
            bottom: "\u{2500}",
            bottom_right: "\u{2518}",
            right: "\u{2502}",
            top_left: "\u{250C}",
            top: "\u{2500}",
            top_right: "\u{2510}",
        }
    }

    /// A frame drawn with `|`, `-` and `+`.
    pub fn ascii() -> (r: Self)
        ensures
            r == Self::spec_ascii(),
            r.wf(),
            r.spec_left() == "|"@,
            r.spec_right() == "|"@,
            r.spec_top() == "-"@,
            r.spec_bottom() == "-"@,
            r.spec_top_left() == "+"@,
            r.spec_top_right() == "+"@,
            r.spec_bottom_left() == "+"@,
            r.spec_bottom_right() == "+"@,
    {
        proof {
            reveal_strlit("|");
            reveal_strlit("-");
            reveal_strlit("+");
        }
        BorderChars {
            left: "|",
            bottom_left: "+",
            bottom: "-",
            bottom_right: "+",
            right: "|",
            top_left: "+",
            top: "-",
            top_right: "+",
        }
    }

    /// A frame drawn with box drawing characters.
    pub fn unicode() -> (r: Self)
        ensures
            r == Self::spec_unicode(),
            r.wf(),
            r.spec_left() == "\u{2502}"@,
            r.spec_right() == "\u{2502}"@,
            r.spec_top() == "\u{2500}"@,
            r.spec_bottom() == "\u{2500}"@,
            r.spec_top_left() == "\u{250C}"@,
            r.spec_top_right() == "\u{2510}"@,
            r.spec_bottom_left() == "\u{2514}"@,
            r.spec_bottom_right() == "\u{2518}"@,
    {
        proof {
            reveal_strlit("\u{2502}");
            reveal_strlit("\u{2500}");
            reveal_strlit("\u{250C}");
            reveal_strlit("\u{2510}");
            reveal_strlit("\u{2514}");
            reveal_strlit("\u{2518}");
        }
        BorderChars {
            left: "\u{2502}",
            bottom_left: "\u{2514}",
            bottom: "\u{2500}",
            bottom_right: "\u{2518}",
            right: "\u{2502}",
            top_left: "\u{250C}",
            top: "\u{2500}",
            top_right: "\u{2510}",
        }
    }
}

} // verus!

verus! {

/// A frame of `width` by `height` cells drawn with `chars`.
pub struct Border {
    chars: BorderChars,
    height: usize,
    width: usize,
}

/// The glyph at row `i`, column `j` of a `width` by `height` frame: corners,
/// then the top and bottom rows, then the left and right columns, blank inside.
pub open spec fn border_glyph(chars: BorderChars, width: nat, height: nat, i: int, j: int) -> Seq<char> {
    if i == 0 && j == 0 {
        chars.spec_top_left()
    } else if i == 0 && j == width - 1 {
        chars.spec_top_right()
    } else if i == height - 1 && j == 0 {
        chars.spec_bottom_left()
    } else if i == height - 1 && j == width - 1 {
        chars.spec_bottom_right()
    } else if i == 0 {
        chars.spec_top()
    } else if i == height - 1 {
        chars.spec_bottom()
    } else if j == 0 {
        chars.spec_left()
    } else if j == width - 1 {
        chars.spec_right()
    } else {
        seq![' ']
    }
}

/// The cells of a `width` by `height` frame.
pub open spec fn border_grid(chars: BorderChars, width: nat, height: nat) -> Grid {
    Seq::new(height, |i: int| Seq::new(width, |j: int| border_glyph(chars, width, height, i, j)))
}

/// A line of `size` copies of `c`.
fn render_horizontal_line(c: &str, size: usize) -> (r: String)
    ensures
        r@ == repeat(c@, size as nat),
{
    let mut s = String::new();
    push_repeated(&mut s, c, size);
    s
}

/// A column of `size` copies of `c`, one per line.
fn render_vertical_line(c: &str, size: usize) -> (r: String)
    ensures
        r@ == join_lines(copies(c@, size as nat)),
{
    let mut s = String::new();
    push_lines(&mut s, c, size);
    s
}

impl Border {
    pub closed spec fn spec_chars(&self) -> BorderChars {
        self.chars
    }

    pub closed spec fn spec_width(&self) -> nat {
        self.width as nat
    }

    pub closed spec fn spec_height(&self) -> nat {
        self.height as nat
    }

    /// A frame can be drawn: its glyphs take one cell each, and it is at
    /// least three cells wide and high.
    pub open spec fn wf(&self) -> bool {
        &&& self.spec_chars().wf()
        &&& self.spec_width() >= 3
        &&& self.spec_height() >= 3
    }

    pub fn new(chars: BorderChars, width: usize, height: usize) -> (r: Self)
        ensures
            r.spec_chars() == chars,
            r.spec_width() == width,
            r.spec_height() == height,
    {
        Border { chars, height, width }
    }

    pub fn render(&self) -> (r: String)
        requires
            self.wf(),
        ensures
            r@ == grid_text(border_grid(self.spec_chars(), self.spec_width(), self.spec_height())),
    {
        match self.render_checked() {
            Ok(s) => s,
            Err(_) => {
                assert(false);
                String::new()
            },
        }
    }

    fn render_checked(&self) -> (r: Result<String, ()>)
        requires
            self.wf(),
        ensures
            r is Ok,
            r->Ok_0@ == grid_text(border_grid(self.spec_chars(), self.spec_width(), self.spec_height())),
    {
        let w = self.width;
        let h = self.height;
        let ghost chars = self.chars;
        let filled_text = Filled::blank(w, h).render();
        proof {
            reveal_strlit(" ");
            assert(" "@ =~= seq![' ']);
            lemma_repeat_char(' ', w as nat);
            lemma_max_len_copies(repeat(seq![' '], w as nat), h as nat);
            assert(single_cell_lines(copies(repeat(seq![' '], w as nat), h as nat)));
            assert(filled_text@ == join_lines(copies(repeat(seq![' '], w as nat), h as nat)));
        }
        let filled = new_stamp(filled_text.as_str())?;
        assert(stamp_cells(filled) =~~= Seq::new(h as nat, |i: int| Seq::new(w as nat, |j: int| seq![' '])));

        let bottom_left = self.glyph_stamp(self.chars.bottom_left)?;
        let bottom_right = self.glyph_stamp(self.chars.bottom_right)?;
        let top_left = self.glyph_stamp(self.chars.top_left)?;
        let top_right = self.glyph_stamp(self.chars.top_right)?;

        let bottom = self.row_stamp(self.chars.bottom)?;
        let left = self.column_stamp(self.chars.left)?;
        let right = self.column_stamp(self.chars.right)?;
        let top = self.row_stamp(self.chars.top)?;

        let l1 = layer(&filled, &top_left, 0, 0)?;
        let l2 = layer(&l1, &top, 1, 0)?;
        let l3 = layer(&l2, &top_right, w - 1, 0)?;
        let l4 = layer(&l3, &right, w - 1, 1)?;
        let l5 = layer(&l4, &bottom_right, w - 1, h - 1)?;
        let l6 = layer(&l5, &bottom, 1, h - 1)?;
        let l7 = layer(&l6, &bottom_left, 0, h - 1)?;
        let l8 = layer(&l7, &left, 0, 1)?;
        let ghost g = border_grid(chars, w as nat, h as nat);
        assert(stamp_cells(l8).len() == g.len());
        assert forall|i: int| 0 <= i < g.len() implies #[trigger] stamp_cells(l8)[i] =~= g[i] by {
            assert forall|j: int| 0 <= j < g[i].len() implies #[trigger] stamp_cells(l8)[i][j] == g[i][j] by {
            }
        }
        assert(stamp_cells(l8) =~= g);
        Ok(render_stamp(&l8))
    }

    /// A one-cell stamp of a glyph.
    fn glyph_stamp(&self, c: &str) -> (r: Result<Stamp, ()>)
        requires
            one_glyph(c@),
        ensures
            r is Ok,
            stamp_cells(r->Ok_0) == seq![seq![c@]],
            stamp_width(r->Ok_0) == 1,
            rows_cover(stamp_cells(r->Ok_0), 1),
    {
        proof {
            lemma_max_len_one(c@);
            assert(seq![c@[0]] =~= c@);
            assert(cells_of(seq![c@]) =~~= seq![seq![c@]]);
            assert(single_cell_lines(seq![c@]));
            assert(c@ == join_lines(seq![c@]));
        }
        new_stamp(c)
    }

    /// A stamp of one row: the glyph `c` over the frame's width less its
    /// corners.
    fn row_stamp(&self, c: &str) -> (r: Result<Stamp, ()>)
        requires
            self.wf(),
            one_glyph(c@),
        ensures
            r is Ok,
            stamp_cells(r->Ok_0) == seq![Seq::new((self.spec_width() - 2) as nat, |j: int| c@)],
            stamp_width(r->Ok_0) == self.spec_width() - 2,
            rows_cover(stamp_cells(r->Ok_0), stamp_width(r->Ok_0)),
    {
        let n = self.width - 2;
        let line = render_horizontal_line(c, n);
        proof {
            assert(seq![c@[0]] =~= c@);
            lemma_repeat_char(c@[0], n as nat);
            lemma_max_len_one(line@);
            assert(single_cell_lines(seq![line@]));
            assert(line@ == join_lines(seq![line@]));
            assert(cells_of(seq![line@]) =~~= seq![Seq::new(n as nat, |j: int| c@)]);
        }
        new_stamp(line.as_str())
    }

    /// A stamp of one column: the glyph `c` over the frame's height less its
    /// corners.
    fn column_stamp(&self, c: &str) -> (r: Result<Stamp, ()>)
        requires
            self.wf(),
            one_glyph(c@),
        ensures
            r is Ok,
            stamp_cells(r->Ok_0) == Seq::new((self.spec_height() - 2) as nat, |i: int| seq![c@]),
            stamp_width(r->Ok_0) == 1,
            rows_cover(stamp_cells(r->Ok_0), 1),
    {
        let n = self.height - 2;
        let column = render_vertical_line(c, n);
        proof {
            assert(seq![c@[0]] =~= c@);
            lemma_max_len_copies(c@, n as nat);
            assert(single_cell_lines(copies(c@, n as nat)));
            assert(column@ == join_lines(copies(c@, n as nat)));
            assert(cells_of(copies(c@, n as nat)) =~~= Seq::new(n as nat, |i: int| seq![c@]));
        }
        new_stamp(column.as_str())
    }
}

} // verus!

verus! {

/// The cells of a frame are one-character glyphs.
pub proof fn lemma_border_grid_glyphs(chars: BorderChars, width: nat, height: nat)
    requires
        chars.wf(),
    ensures
        glyph_grid(border_grid(chars, width, height), width),
        border_grid(chars, width, height).len() == height,
{
    let g = border_grid(chars, width, height);
    assert forall|i: int, j: int| 0 <= i < g.len() && 0 <= j < width implies {
        &&& (#[trigger] g[i][j]).len() == 1
        &&& single_cell(g[i][j][0])
    } by {
        assert(g[i][j] == border_glyph(chars, width, height, i, j));
    }
}

} // verus!
