//! The virtual terminal: `avt::Vt` behind contracts, and the plain values
//! (cells, pens, colours) that the rest of the library reads from it.

use vstd::prelude::*;
use crate::style::grid_view;
use crate::text::strings_view;

verus! {

/// A colour of the terminal palette or a direct RGB colour.
#[derive(Clone, Copy, Debug, PartialEq, Eq)]
pub enum Color {
    Indexed(u8),
    Rgb(u8, u8, u8),
}

/// The on/off attributes of a pen.
#[derive(Clone, Copy, Debug, PartialEq, Eq)]
pub struct Attrs {
    pub bold: bool,
    pub faint: bool,
    pub italic: bool,
    pub underline: bool,
    pub strikethrough: bool,
    pub blink: bool,
    pub inverse: bool,
}

/// The drawing attributes of a cell.
#[derive(Clone, Copy, Debug, PartialEq, Eq)]
pub struct Pen {
    pub foreground: Option<Color>,
    pub background: Option<Color>,
    pub attrs: Attrs,
}

/// One cell of the screen: its glyph, the columns the glyph takes, its pen.
#[derive(Clone, Copy, Debug, PartialEq, Eq)]
pub struct Cell {
    pub ch: char,
    pub width: usize,
    pub pen: Pen,
}

/// The pen of a cell that nothing has drawn on: no colours, nothing on.
pub open spec fn default_pen() -> Pen {
    Pen {
        foreground: None,
        background: None,
        attrs: Attrs {
            bold: false,
            faint: false,
            italic: false,
            underline: false,
            strikethrough: false,
            blink: false,
            inverse: false,
        },
    }
}

impl Default for Pen {
    fn default() -> (pen: Pen)
        ensures
            pen == default_pen(),
    {
        Pen {
            foreground: None,
            background: None,
            attrs: Attrs {
                bold: false,
                faint: false,
                italic: false,
                underline: false,
                strikethrough: false,
                blink: false,
                inverse: false,
            },
        }
    }
}

impl Color {
    /// Whether two colours are the same.
    pub fn same(&self, other: &Color) -> (eq: bool)
        ensures
            eq == (*self == *other),
    {
        match (self, other) {
            (Color::Indexed(a), Color::Indexed(b)) => *a == *b,
            (Color::Rgb(r1, g1, b1), Color::Rgb(r2, g2, b2)) => *r1 == *r2 && *g1 == *g2 && *b1 == *b2,
            _ => false,
        }
    }
}

fn same_color(a: &Option<Color>, b: &Option<Color>) -> (eq: bool)
    ensures
        eq == (*a == *b),
{
    match (a, b) {
        (None, None) => true,
        (Some(x), Some(y)) => x.same(y),
        _ => false,
    }
}

impl Pen {
    /// Whether two pens draw alike: same colours, same attributes.
    pub fn same(&self, other: &Pen) -> (eq: bool)
        ensures
            eq == (*self == *other),
    {
        same_color(&self.foreground, &other.foreground) && same_color(
            &self.background,
            &other.background,
        ) && self.attrs.bold == other.attrs.bold && self.attrs.faint == other.attrs.faint
            && self.attrs.italic == other.attrs.italic && self.attrs.underline
            == other.attrs.underline && self.attrs.strikethrough == other.attrs.strikethrough
            && self.attrs.blink == other.attrs.blink && self.attrs.inverse == other.attrs.inverse
    }
}

/// `avt::Vt`, the terminal. Nothing inside it is seen from here.
#[verifier::external_type_specification]
#[verifier::external_body]
pub struct ExVt(avt::Vt);

/// Everything that `feed_str` was called with on this terminal since it was
/// built, in order. It is the record of those calls: `avt` keeps the screen
/// that they made, not the input itself.
pub uninterp spec fn vt_fed(vt: avt::Vt) -> Seq<char>;

/// What `avt::Vt::size` returns: `(cols, rows)`.
pub uninterp spec fn vt_size(vt: avt::Vt) -> (usize, usize);

/// What `avt::Vt::view` holds: the visible lines, top to bottom, each as
/// its cells, left to right. A cell is what `avt::Cell::char`, `width` and
/// `pen` return, the pen as what its getters return.
pub uninterp spec fn vt_grid(vt: avt::Vt) -> Seq<Seq<Cell>>;

/// What `avt::Line::text` returns for each line of `avt::Vt::view`.
pub uninterp spec fn vt_text(vt: avt::Vt) -> Seq<Seq<char>>;

/// What `avt::Vt::dump` returns.
pub uninterp spec fn vt_dump(vt: avt::Vt) -> Seq<char>;

/// What `avt::Vt::cursor_key_app_mode` returns.
pub uninterp spec fn vt_app_mode(vt: avt::Vt) -> bool;

/// `avt::Vt::builder().size(cols, rows).resizable(true).build()`: a terminal
/// of the given size that nothing was fed to. `avt` computes `rows - 1` while
/// building, so a terminal without rows or columns is left out.
#[verifier::external_body]
pub(crate) fn vt_build(cols: usize, rows: usize) -> (vt: avt::Vt)
    requires
        cols > 0,
        rows > 0,
    ensures
        vt_size(vt) == (cols, rows),
        vt_fed(vt) == Seq::<char>::empty(),
{
    avt::Vt::builder().size(cols, rows).resizable(true).build()
}

/// `avt::Vt::feed_str`: the terminal consumes `s`. What it shows afterwards,
/// and what size it then has, is not stated.
#[verifier::external_body]
pub(crate) fn vt_feed_str(vt: &mut avt::Vt, s: &str)
    ensures
        vt_fed(*final(vt)) == vt_fed(*old(vt)) + s@,
{
    let _ = vt.feed_str(s);
}

/// `avt::Vt::size`.
#[verifier::external_body]
pub(crate) fn vt_get_size(vt: &avt::Vt) -> (size: (usize, usize))
    ensures
        size == vt_size(*vt),
{
    vt.size()
}

/// `avt::Vt::dump`.
#[verifier::external_body]
pub(crate) fn vt_get_dump(vt: &avt::Vt) -> (seq: String)
    ensures
        seq@ == vt_dump(*vt),
{
    vt.dump()
}

/// `avt::Vt::cursor_key_app_mode`.
#[verifier::external_body]
pub(crate) fn vt_get_app_mode(vt: &avt::Vt) -> (on: bool)
    ensures
        on == vt_app_mode(*vt),
{
    vt.cursor_key_app_mode()
}

/// `avt::Line::text` of each line of `avt::Vt::view`, top to bottom.
#[verifier::external_body]
pub(crate) fn vt_get_text(vt: &avt::Vt) -> (lines: Vec<String>)
    ensures
        strings_view(lines) == vt_text(*vt),
{
    vt.view().iter().map(|l| l.text()).collect()
}

/// `avt::Cell::char` and `avt::Cell::width` of every cell of
/// `avt::Vt::view`, line by line.
#[verifier::external_body]
fn vt_get_glyphs(vt: &avt::Vt) -> (layer: Vec<Vec<(char, usize)>>)
    ensures
        is_layer(layer, vt_grid(*vt), |c: Cell| (c.ch, c.width)),
{
    vt.view().iter().map(|l| l.cells().iter().map(|c| (c.char(), c.width())).collect()).collect()
}

/// The on/off attributes of the pen of every cell of `avt::Vt::view`, each
/// read with the `avt::Pen` method of its name.
#[verifier::external_body]
fn vt_get_attrs(vt: &avt::Vt) -> (layer: Vec<Vec<Attrs>>)
    ensures
        is_layer(layer, vt_grid(*vt), |c: Cell| c.pen.attrs),
{
    vt.view().iter().map(|l| l.cells().iter().map(|c| c.pen()).map(|p| Attrs {
        bold: p.is_bold(),
        faint: p.is_faint(),
        italic: p.is_italic(),
        underline: p.is_underline(),
        strikethrough: p.is_strikethrough(),
        blink: p.is_blink(),
        inverse: p.is_inverse(),
    }).collect()).collect()
}

/// `avt::Pen::foreground` of every cell of `avt::Vt::view`.
#[verifier::external_body]
fn vt_get_foregrounds(vt: &avt::Vt) -> (layer: Vec<Vec<Option<Color>>>)
    ensures
        is_layer(layer, vt_grid(*vt), |c: Cell| c.pen.foreground),
{
    vt.view().iter().map(|l| l.cells().iter().map(|c| c.pen().foreground().map(|k| match k {
        avt::Color::Indexed(i) => Color::Indexed(i),
        avt::Color::RGB(v) => Color::Rgb(v.r, v.g, v.b),
    })).collect()).collect()
}

/// `avt::Pen::background` of every cell of `avt::Vt::view`.
#[verifier::external_body]
fn vt_get_backgrounds(vt: &avt::Vt) -> (layer: Vec<Vec<Option<Color>>>)
    ensures
        is_layer(layer, vt_grid(*vt), |c: Cell| c.pen.background),
{
    vt.view().iter().map(|l| l.cells().iter().map(|c| c.pen().background().map(|k| match k {
        avt::Color::Indexed(i) => Color::Indexed(i),
        avt::Color::RGB(v) => Color::Rgb(v.r, v.g, v.b),
    })).collect()).collect()
}

/// `layer` has the shape of `grid` and holds `f` of each of its cells.
pub open spec fn is_layer<T>(layer: Vec<Vec<T>>, grid: Seq<Seq<Cell>>, f: spec_fn(Cell) -> T) -> bool {
    &&& layer@.len() == grid.len()
    &&& forall|r: int| 0 <= r < grid.len() ==> (#[trigger] layer@[r])@.len() == grid[r].len()
    &&& forall|r: int, c: int|
        0 <= r < grid.len() && 0 <= c < grid[r].len() ==> #[trigger] layer@[r]@[c] == f(grid[r][c])
}

/// The visible cells of the terminal, line by line.
pub(crate) fn vt_get_grid(vt: &avt::Vt) -> (grid: Vec<Vec<Cell>>)
    ensures
        grid_view(grid) == vt_grid(*vt),
{
    let glyphs = vt_get_glyphs(vt);
    let attrs = vt_get_attrs(vt);
    let fgs = vt_get_foregrounds(vt);
    let bgs = vt_get_backgrounds(vt);
    let ghost model = vt_grid(*vt);
    let mut grid: Vec<Vec<Cell>> = Vec::new();
    let mut r: usize = 0;
    while r < glyphs.len()
        invariant
            r <= glyphs@.len(),
            model == vt_grid(*vt),
            is_layer(glyphs, model, |c: Cell| (c.ch, c.width)),
            is_layer(attrs, model, |c: Cell| c.pen.attrs),
            is_layer(fgs, model, |c: Cell| c.pen.foreground),
            is_layer(bgs, model, |c: Cell| c.pen.background),
            grid@.len() == r,
            forall|i: int| 0 <= i < r ==> (#[trigger] grid@[i])@ == model[i],
        decreases glyphs@.len() - r,
    {
        let mut row: Vec<Cell> = Vec::new();
        let mut c: usize = 0;
        while c < glyphs[r].len()
            invariant
                r < glyphs@.len(),
                c <= glyphs@[r as int]@.len(),
                is_layer(glyphs, model, |c: Cell| (c.ch, c.width)),
                is_layer(attrs, model, |c: Cell| c.pen.attrs),
                is_layer(fgs, model, |c: Cell| c.pen.foreground),
                is_layer(bgs, model, |c: Cell| c.pen.background),
                row@.len() == c,
                forall|j: int| 0 <= j < c ==> #[trigger] row@[j] == model[r as int][j],
            decreases glyphs@[r as int]@.len() - c,
        {
            assert(attrs@[r as int]@.len() == model[r as int].len());
            assert(fgs@[r as int]@.len() == model[r as int].len());
            assert(bgs@[r as int]@.len() == model[r as int].len());
            let glyph = glyphs[r][c];
            let cell = Cell {
                ch: glyph.0,
                width: glyph.1,
                pen: Pen { foreground: fgs[r][c], background: bgs[r][c], attrs: attrs[r][c] },
            };
            assert(glyphs@[r as int]@[c as int] == (model[r as int][c as int].ch, model[r as int][c as int].width));
            assert(attrs@[r as int]@[c as int] == model[r as int][c as int].pen.attrs);
            assert(fgs@[r as int]@[c as int] == model[r as int][c as int].pen.foreground);
            assert(bgs@[r as int]@[c as int] == model[r as int][c as int].pen.background);
            row.push(cell);
            c += 1;
        }
        assert(row@ =~= model[r as int]);
        grid.push(row);
        r += 1;
    }
    assert(grid_view(grid) =~= model);
    grid
}

} // verus!
