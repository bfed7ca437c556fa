//! The style data of a snapshot: the pens that occur on the screen, numbered
//! in the order in which they are met, and the two maps of glyphs and pen
//! numbers, both of exactly the size of the screen.

use crate::text::strings_view;
use crate::vt::{default_pen, Attrs, Cell, Color, Pen};
use vstd::prelude::*;

verus! {

/// A colour as it is shown to clients.
#[derive(Clone, Copy, Debug, PartialEq, Eq)]
pub enum ColorJson {
    Indexed { indexed: u8 },
    Rgb { rgb: [u8; 3] },
}

impl View for ColorJson {
    type V = Color;

    open spec fn view(&self) -> Color {
        match *self {
            ColorJson::Indexed { indexed } => Color::Indexed(indexed),
            ColorJson::Rgb { rgb } => Color::Rgb(rgb@[0], rgb@[1], rgb@[2]),
        }
    }
}

impl ColorJson {
    /// The colour in the form shown to clients.
    pub fn from(color: Color) -> (json: ColorJson)
        ensures
            json@ == color,
    {
        match color {
            Color::Indexed(i) => ColorJson::Indexed { indexed: i },
            Color::Rgb(r, g, b) => ColorJson::Rgb { rgb: [r, g, b] },
        }
    }
}

/// A pen as it is shown to clients: its colours, where it has any, and the
/// names of the attributes that are on.
#[derive(Clone, Debug, PartialEq)]
pub struct PenJson {
    pub fg: Option<ColorJson>,
    pub bg: Option<ColorJson>,
    pub attrs: Vec<String>,
}

/// What a `PenJson` holds.
pub struct PenJsonView {
    pub fg: Option<Color>,
    pub bg: Option<Color>,
    pub attrs: Seq<Seq<char>>,
}

pub open spec fn color_view(color: Option<ColorJson>) -> Option<Color> {
    match color {
        Some(c) => Some(c@),
        None => None,
    }
}

impl View for PenJson {
    type V = PenJsonView;

    open spec fn view(&self) -> PenJsonView {
        PenJsonView {
            fg: color_view(self.fg),
            bg: color_view(self.bg),
            attrs: strings_view(self.attrs),
        }
    }
}

/// `name`, if `on`.
pub open spec fn named(on: bool, name: Seq<char>) -> Seq<Seq<char>> {
    if on {
        seq![name]
    } else {
        Seq::empty()
    }
}

/// The names of the attributes that are on, in the order bold, faint,
/// italic, underline, strikethrough, blink, inverse.
pub open spec fn attr_names(a: Attrs) -> Seq<Seq<char>> {
    named(a.bold, "bold"@) + named(a.faint, "faint"@) + named(a.italic, "italic"@) + named(
        a.underline,
        "underline"@,
    ) + named(a.strikethrough, "strikethrough"@) + named(a.blink, "blink"@) + named(
        a.inverse,
        "inverse"@,
    )
}

/// What clients are shown of a pen.
pub open spec fn pen_json(pen: Pen) -> PenJsonView {
    PenJsonView { fg: pen.foreground, bg: pen.background, attrs: attr_names(pen.attrs) }
}

fn push_named(names: &mut Vec<String>, on: bool, name: &str)
    ensures
        strings_view(*final(names)) == strings_view(*old(names)) + named(on, name@),
{
    if on {
        names.push(String::from_str(name));
    }
    assert(strings_view(*final(names)) =~= strings_view(*old(names)) + named(on, name@));
}

fn convert_color(color: Option<Color>) -> (json: Option<ColorJson>)
    ensures
        color_view(json) == color,
{
    match color {
        Some(c) => Some(ColorJson::from(c)),
        None => None,
    }
}

impl PenJson {
    /// The pen in the form shown to clients.
    pub fn from(pen: &Pen) -> (json: PenJson)
        ensures
            json@ == pen_json(*pen),
    {
        let mut attrs: Vec<String> = Vec::new();
        assert(strings_view(attrs) =~= Seq::<Seq<char>>::empty());
        push_named(&mut attrs, pen.attrs.bold, "bold");
        push_named(&mut attrs, pen.attrs.faint, "faint");
        push_named(&mut attrs, pen.attrs.italic, "italic");
        push_named(&mut attrs, pen.attrs.underline, "underline");
        push_named(&mut attrs, pen.attrs.strikethrough, "strikethrough");
        push_named(&mut attrs, pen.attrs.blink, "blink");
        push_named(&mut attrs, pen.attrs.inverse, "inverse");
        assert(strings_view(attrs) =~= attr_names(pen.attrs));
        PenJson { fg: convert_color(pen.foreground), bg: convert_color(pen.background), attrs }
    }
}

/// The palette after one more cell: a cell that takes room on the screen
/// adds its pen, unless the palette has it.
pub open spec fn palette_add(pens: Seq<Pen>, cell: Cell) -> Seq<Pen> {
    if cell.width > 0 && !pens.contains(cell.pen) {
        pens.push(cell.pen)
    } else {
        pens
    }
}

/// The palette after the first `k` cells of `row`, starting from `pens`.
pub open spec fn palette_cells(pens: Seq<Pen>, row: Seq<Cell>, k: int) -> Seq<Pen>
    decreases k,
{
    if k <= 0 {
        pens
    } else {
        palette_add(palette_cells(pens, row, k - 1), row[k - 1])
    }
}

/// The palette after the first `n` rows of `grid`: the default pen first,
/// then every other pen in the order in which its first cell is met.
pub open spec fn palette_rows(grid: Seq<Seq<Cell>>, n: int) -> Seq<Pen>
    decreases n,
{
    if n <= 0 {
        seq![default_pen()]
    } else {
        palette_cells(palette_rows(grid, n - 1), grid[n - 1], grid[n - 1].len() as int)
    }
}

/// The palette of a screen. The number of a pen is its index.
pub open spec fn palette(grid: Seq<Seq<Cell>>) -> Seq<Pen> {
    palette_rows(grid, grid.len() as int)
}

/// The number under which `pens` holds `pen`; 0, the default pen's, for a
/// pen that it does not hold.
pub open spec fn pen_id(pens: Seq<Pen>, pen: Pen) -> nat {
    match pens.index_of_first(pen) {
        Some(i) => i as nat,
        None => 0,
    }
}

/// A palette starts with the default pen and names no pen twice.
pub open spec fn palette_wf(pens: Seq<Pen>) -> bool {
    &&& pens.len() > 0
    &&& pens[0] == default_pen()
    &&& pens.no_duplicates()
}

pub proof fn lemma_palette_add_wf(pens: Seq<Pen>, cell: Cell)
    requires
        palette_wf(pens),
    ensures
        palette_wf(palette_add(pens, cell)),
        pens.len() <= palette_add(pens, cell).len() <= pens.len() + 1,
        cell.width > 0 ==> palette_add(pens, cell).contains(cell.pen),
        forall|p: Pen| pens.contains(p) ==> palette_add(pens, cell).contains(p),
{
    let next = palette_add(pens, cell);
    if cell.width > 0 && !pens.contains(cell.pen) {
        assert(next[pens.len() as int] == cell.pen);
        assert forall|p: Pen| pens.contains(p) implies next.contains(p) by {
            let i = choose|i: int| 0 <= i < pens.len() && pens[i] == p;
            assert(next[i] == p);
        }
    }
}

pub proof fn lemma_palette_cells_wf(pens: Seq<Pen>, row: Seq<Cell>, k: int)
    requires
        palette_wf(pens),
        0 <= k <= row.len(),
    ensures
        palette_wf(palette_cells(pens, row, k)),
        pens.len() <= palette_cells(pens, row, k).len() <= pens.len() + k,
        forall|p: Pen| pens.contains(p) ==> palette_cells(pens, row, k).contains(p),
        forall|j: int| 0 <= j < k && row[j].width > 0 ==> palette_cells(pens, row, k).contains(#[trigger] row[j].pen),
    decreases k,
{
    if k > 0 {
        lemma_palette_cells_wf(pens, row, k - 1);
        lemma_palette_add_wf(palette_cells(pens, row, k - 1), row[k - 1]);
    }
}

pub proof fn lemma_palette_rows_wf(grid: Seq<Seq<Cell>>, n: int)
    requires
        0 <= n <= grid.len(),
    ensures
        palette_wf(palette_rows(grid, n)),
        forall|r: int, c: int|
            0 <= r < n && 0 <= c < grid[r].len() && grid[r][c].width > 0 ==> palette_rows(grid, n).contains(
                #[trigger] grid[r][c].pen,
            ),
    decreases n,
{
    if n > 0 {
        lemma_palette_rows_wf(grid, n - 1);
        lemma_palette_cells_wf(palette_rows(grid, n - 1), grid[n - 1], grid[n - 1].len() as int);
    } else {
        assert(seq![default_pen()].no_duplicates());
    }
}

/// The number of a pen names a pen of the palette, and the pen itself where
/// the palette holds it.
pub proof fn lemma_pen_id(pens: Seq<Pen>, pen: Pen)
    requires
        pens.len() > 0,
    ensures
        pen_id(pens, pen) < pens.len(),
        pens.contains(pen) ==> pens[pen_id(pens, pen) as int] == pen,
{
    pens.index_of_first_ensures(pen);
}

fn find_pen(pens: &Vec<Pen>, pen: &Pen) -> (found: Option<usize>)
    ensures
        match found {
            Some(i) => pens@.index_of_first(*pen) == Some(i as int),
            None => pens@.index_of_first(*pen) is None,
        },
{
    let mut i: usize = 0;
    while i < pens.len()
        invariant
            i <= pens@.len(),
            forall|j: int| 0 <= j < i ==> pens@[j] != *pen,
        decreases pens@.len() - i,
    {
        if pens[i].same(pen) {
            proof {
                pens@.index_of_first_ensures(*pen);
            }
            return Some(i);
        }
        i += 1;
    }
    proof {
        pens@.index_of_first_ensures(*pen);
    }
    None
}

/// The rows of a screen as sequences of cells.
pub open spec fn grid_view(grid: Vec<Vec<Cell>>) -> Seq<Seq<Cell>> {
    Seq::new(grid@.len(), |i: int| grid@[i]@)
}

/// The pens of a screen, each under its number: the default pen under 0,
/// the others in the order in which the rows, read left to right and top to
/// bottom, first show them on a cell that takes room.
pub fn build_style_palette(grid: &Vec<Vec<Cell>>) -> (pens: Vec<Pen>)
    ensures
        pens@ == palette(grid_view(*grid)),
        palette_wf(pens@),
{
    let ghost model = grid_view(*grid);
    let mut pens: Vec<Pen> = Vec::new();
    pens.push(Pen::default());
    assert(pens@ =~= palette_rows(model, 0));
    let mut r: usize = 0;
    while r < grid.len()
        invariant
            r <= grid@.len(),
            model == grid_view(*grid),
            pens@ == palette_rows(model, r as int),
        decreases grid@.len() - r,
    {
        let row = &grid[r];
        let ghost start = pens@;
        let mut c: usize = 0;
        while c < row.len()
            invariant
                c <= row@.len(),
                row@ == model[r as int],
                pens@ == palette_cells(start, row@, c as int),
            decreases row@.len() - c,
        {
            let cell = &row[c];
            if cell.width > 0 {
                if find_pen(&pens, &cell.pen).is_none() {
                    proof {
                        pens@.index_of_first_ensures(cell.pen);
                    }
                    pens.push(cell.pen);
                } else {
                    proof {
                        pens@.index_of_first_ensures(cell.pen);
                    }
                }
            }
            c += 1;
        }
        r += 1;
    }
    proof {
        lemma_palette_rows_wf(model, model.len() as int);
    }
    pens
}

/// The glyph at a place of the screen, a space where the screen has no cell.
pub open spec fn glyph_at(grid: Seq<Seq<Cell>>, r: int, c: int) -> char {
    if 0 <= r < grid.len() && 0 <= c < grid[r].len() {
        grid[r][c].ch
    } else {
        ' '
    }
}

/// The pen number at a place of the screen, 0 where the screen has no cell.
pub open spec fn style_at(grid: Seq<Seq<Cell>>, pens: Seq<Pen>, r: int, c: int) -> usize {
    if 0 <= r < grid.len() && 0 <= c < grid[r].len() {
        pen_id(pens, grid[r][c].pen) as usize
    } else {
        0
    }
}

/// The glyphs of a screen, in `rows` rows of `cols` each.
pub open spec fn char_map(grid: Seq<Seq<Cell>>, cols: nat, rows: nat) -> Seq<Seq<char>> {
    Seq::new(rows, |r: int| Seq::new(cols, |c: int| glyph_at(grid, r, c)))
}

/// The pen numbers of a screen, in `rows` rows of `cols` each.
pub open spec fn style_map(grid: Seq<Seq<Cell>>, pens: Seq<Pen>, cols: nat, rows: nat) -> Seq<
    Seq<usize>,
> {
    Seq::new(rows, |r: int| Seq::new(cols, |c: int| style_at(grid, pens, r, c)))
}

/// A table as sequences of its rows.
pub open spec fn table_view<T>(table: Vec<Vec<T>>) -> Seq<Seq<T>> {
    Seq::new(table@.len(), |i: int| table@[i]@)
}

/// The glyph of every cell, zero-width cells included; rows cut or filled
/// with spaces to `cols`, and the screen cut or filled with blank rows to
/// `rows`.
pub fn build_char_map(grid: &Vec<Vec<Cell>>, cols: usize, rows: usize) -> (map: Vec<Vec<char>>)
    ensures
        table_view(map) == char_map(grid_view(*grid), cols as nat, rows as nat),
{
    let ghost model = grid_view(*grid);
    let mut map: Vec<Vec<char>> = Vec::new();
    let mut r: usize = 0;
    while r < rows
        invariant
            r <= rows,
            model == grid_view(*grid),
            map@.len() == r,
            forall|i: int|
                0 <= i < r ==> (#[trigger] map@[i])@ == Seq::new(
                    cols as nat,
                    |c: int| glyph_at(model, i, c),
                ),
        decreases rows - r,
    {
        let mut row: Vec<char> = Vec::new();
        let mut c: usize = 0;
        while c < cols
            invariant
                c <= cols,
                r < rows,
                model == grid_view(*grid),
                row@.len() == c,
                forall|j: int| 0 <= j < c ==> #[trigger] row@[j] == glyph_at(model, r as int, j),
            decreases cols - c,
        {
            let ch = if r < grid.len() && c < grid[r].len() {
                grid[r][c].ch
            } else {
                ' '
            };
            row.push(ch);
            c += 1;
        }
        assert(row@ =~= Seq::new(cols as nat, |c: int| glyph_at(model, r as int, c)));
        map.push(row);
        r += 1;
    }
    assert(table_view(map) =~= char_map(model, cols as nat, rows as nat));
    map
}

/// The pen number of every cell, 0 for a pen that the palette does not hold;
/// rows cut or filled with 0 to `cols`, and the screen cut or filled with
/// rows of 0 to `rows`.
pub fn build_style_map(grid: &Vec<Vec<Cell>>, pens: &Vec<Pen>, cols: usize, rows: usize) -> (map:
    Vec<Vec<usize>>)
    ensures
        table_view(map) == style_map(grid_view(*grid), pens@, cols as nat, rows as nat),
        pens@.len() > 0 ==> forall|r: int, c: int|
            0 <= r < rows && 0 <= c < cols ==> (#[trigger] map@[r]@[c]) < pens@.len(),
{
    let ghost model = grid_view(*grid);
    let mut map: Vec<Vec<usize>> = Vec::new();
    let mut r: usize = 0;
    while r < rows
        invariant
            r <= rows,
            model == grid_view(*grid),
            map@.len() == r,
            forall|i: int|
                0 <= i < r ==> (#[trigger] map@[i])@ == Seq::new(
                    cols as nat,
                    |c: int| style_at(model, pens@, i, c),
                ),
            pens@.len() > 0 ==> forall|i: int, c: int|
                0 <= i < r && 0 <= c < cols ==> (#[trigger] map@[i]@[c]) < pens@.len(),
        decreases rows - r,
    {
        let mut row: Vec<usize> = Vec::new();
        let mut c: usize = 0;
        while c < cols
            invariant
                c <= cols,
                r < rows,
                model == grid_view(*grid),
                row@.len() == c,
                forall|j: int|
                    0 <= j < c ==> #[trigger] row@[j] == style_at(model, pens@, r as int, j),
                pens@.len() > 0 ==> forall|j: int| 0 <= j < c ==> #[trigger] row@[j] < pens@.len(),
            decreases cols - c,
        {
            let id: usize = if r < grid.len() && c < grid[r].len() {
                proof {
                    if pens@.len() > 0 {
                        lemma_pen_id(pens@, grid@[r as int]@[c as int].pen);
                    }
                }
                match find_pen(pens, &grid[r][c].pen) {
                    Some(i) => i,
                    None => 0,
                }
            } else {
                0
            };
            row.push(id);
            c += 1;
        }
        assert(row@ =~= Seq::new(cols as nat, |c: int| style_at(model, pens@, r as int, c)));
        map.push(row);
        r += 1;
    }
    assert(table_view(map) =~= style_map(model, pens@, cols as nat, rows as nat));
    map
}

/// The style data of a snapshot.
#[derive(Clone, Debug, PartialEq)]
pub struct StyleData {
    pub char_map: Vec<Vec<char>>,
    pub style_map: Vec<Vec<usize>>,
    pub styles: Vec<PenJson>,
}

/// What a `StyleData` holds. The pen under number `i` is `styles[i]`.
pub struct StyleView {
    pub char_map: Seq<Seq<char>>,
    pub style_map: Seq<Seq<usize>>,
    pub styles: Seq<PenJsonView>,
}

impl View for StyleData {
    type V = StyleView;

    open spec fn view(&self) -> StyleView {
        StyleView {
            char_map: table_view(self.char_map),
            style_map: table_view(self.style_map),
            styles: Seq::new(self.styles@.len(), |i: int| self.styles@[i]@),
        }
    }
}

/// The style data of a screen of `cols` by `rows`.
pub open spec fn style_of(grid: Seq<Seq<Cell>>, cols: nat, rows: nat) -> StyleView {
    StyleView {
        char_map: char_map(grid, cols, rows),
        style_map: style_map(grid, palette(grid), cols, rows),
        styles: palette(grid).map_values(|pen: Pen| pen_json(pen)),
    }
}

impl StyleView {
    /// Both maps have `rows` rows of `cols` entries, and every entry of the
    /// style map is the number of a pen in `styles`.
    pub open spec fn fits(self, cols: nat, rows: nat) -> bool {
        &&& self.char_map.len() == rows
        &&& self.style_map.len() == rows
        &&& forall|r: int| 0 <= r < rows ==> (#[trigger] self.char_map[r]).len() == cols
        &&& forall|r: int| 0 <= r < rows ==> (#[trigger] self.style_map[r]).len() == cols
        &&& forall|r: int, c: int|
            0 <= r < rows && 0 <= c < cols ==> (#[trigger] self.style_map[r][c]) < self.styles.len()
    }
}

/// Whatever the screen holds, its style data has maps of exactly `rows` by
/// `cols`, and every number in the style map is the number of a pen in
/// `styles`.
pub proof fn lemma_style_fits(grid: Seq<Seq<Cell>>, cols: nat, rows: nat)
    ensures
        style_of(grid, cols, rows).fits(cols, rows),
        style_of(grid, cols, rows).styles.len() > 0,
        style_of(grid, cols, rows).styles[0] == pen_json(default_pen()),
{
    lemma_palette_rows_wf(grid, grid.len() as int);
    let style = style_of(grid, cols, rows);
    assert forall|r: int, c: int| 0 <= r < rows && 0 <= c < cols implies (
    #[trigger] style.style_map[r][c]) < style.styles.len() by {
        if 0 <= r < grid.len() && 0 <= c < grid[r].len() {
            lemma_pen_id(palette(grid), grid[r][c].pen);
        }
    }
}

impl StyleData {
    /// The style data of a screen of `cols` by `rows` that shows `grid`.
    pub fn build(grid: &Vec<Vec<Cell>>, cols: usize, rows: usize) -> (data: StyleData)
        ensures
            data@ == style_of(grid_view(*grid), cols as nat, rows as nat),
            data@.fits(cols as nat, rows as nat),
    {
        let pens = build_style_palette(grid);
        let char_map = build_char_map(grid, cols, rows);
        let style_map = build_style_map(grid, &pens, cols, rows);
        let mut styles: Vec<PenJson> = Vec::new();
        let mut i: usize = 0;
        while i < pens.len()
            invariant
                i <= pens@.len(),
                styles@.len() == i,
                forall|j: int| 0 <= j < i ==> (#[trigger] styles@[j])@ == pen_json(pens@[j]),
            decreases pens@.len() - i,
        {
            styles.push(PenJson::from(&pens[i]));
            i += 1;
        }
        let data = StyleData { char_map, style_map, styles };
        proof {
            assert(data@.styles =~= pens@.map_values(|pen: Pen| pen_json(pen)));
            lemma_style_fits(grid_view(*grid), cols as nat, rows as nat);
        }
        data
    }
}

} // verus!
