use vstd::prelude::*;

use crate::colors::{BitMapDrawable, Color};

verus! {

/// The font that text is rendered with.
#[derive(Clone, Copy, Debug, PartialEq, Eq, Structural)]
pub enum Font {
    /// The highest-priority monospace font of the GUI toolkit
    EguiMonospace,
    /// The public-domain 8x8 pixel font
    Font8x8,
}

/// Options for rendering a string.
#[derive(Clone, Copy, Debug, PartialEq, Eq, Structural)]
pub struct FontOptions {
    /// Font to use
    pub font: Font,
    /// Is the background transparent? Otherwise it is the configured background color.
    pub background_is_transparent: bool,
    /// Height of the rendered text in pixels
    pub font_height: u32,
}

/// A rendered gray-scale bitmap of a string, row by row.
#[derive(Clone, Debug)]
pub struct BitMapText {
    /// Intensity of each pixel, row by row
    pub data: Vec<u8>,
    /// Width of the bitmap
    pub width: i32,
    /// Height of the bitmap
    pub height: i32,
}

/// How a texel of intensity `gray` of a label changes the pixel `under` it.
pub open spec fn blend_texel(under: Color, gray: u8, transparent: bool, background: Color) -> Color {
    if transparent {
        if gray == 0 {
            under
        } else {
            under.added_spec(gray)
        }
    } else if gray == 0 {
        background
    } else {
        Color::gray_spec(gray)
    }
}

/// A label placed on a raster: the bitmap, the column and row of its left
/// top corner, and whether its background is transparent.
pub type Placement = (BitMapText, int, int, bool);

/// The raster `r`, `width` pixels wide, after drawing bitmap `b` with its
/// left top corner at `(x, y)`.
pub open spec fn label_drawn(
    r: Seq<Color>,
    b: BitMapText,
    x: int,
    y: int,
    width: int,
    transparent: bool,
    background: Color,
) -> Seq<Color> {
    Seq::new(r.len(), |i: int| b.drawn(r[i], i, x, y, width, transparent, background))
}

/// The raster `r` after drawing the placed labels `ps` in order.
pub open spec fn labels_drawn(r: Seq<Color>, ps: Seq<Placement>, width: int, background: Color) -> Seq<Color>
    decreases ps.len(),
{
    if ps.len() == 0 {
        r
    } else {
        let p = ps.last();
        label_drawn(labels_drawn(r, ps.drop_last(), width, background), p.0, p.1, p.2, width, p.3, background)
    }
}

/// Drawing one more label after `ps` draws it over what `ps` drew.
pub proof fn lemma_labels_drawn_push(r: Seq<Color>, ps: Seq<Placement>, p: Placement, width: int, background: Color)
    ensures
        labels_drawn(r, ps.push(p), width, background) == label_drawn(
            labels_drawn(r, ps, width, background),
            p.0,
            p.1,
            p.2,
            width,
            p.3,
            background,
        ),
{
    assert(ps.push(p).drop_last() == ps);
}

/// Drawing labels never changes the length of the raster.
pub proof fn lemma_labels_drawn_len(r: Seq<Color>, ps: Seq<Placement>, width: int, background: Color)
    ensures
        labels_drawn(r, ps, width, background).len() == r.len(),
    decreases ps.len(),
{
    if ps.len() > 0 {
        lemma_labels_drawn_len(r, ps.drop_last(), width, background);
    }
}

impl BitMapText {
    /// The dimensions match the data.
    pub open spec fn wf(&self) -> bool {
        &&& self.width >= 0
        &&& self.height >= 0
        &&& self.data@.len() == self.width * self.height
    }

    pub open spec fn texel(&self, column: int, row: int) -> u8 {
        self.data@[row * self.width + column]
    }

    /// The label pixel that lands on index `i` of a raster `render_width`
    /// pixels wide when the label's left top lies at `(x_offset, y_offset)`.
    pub open spec fn covers(
        &self,
        i: int,
        x_offset: int,
        y_offset: int,
        render_width: int,
    ) -> bool {
        &&& 0 <= i % render_width - x_offset < self.width
        &&& 0 <= i / render_width - y_offset < self.height
    }

    /// The pixel at index `i` after drawing this label over `under`.
    pub open spec fn drawn(
        &self,
        under: Color,
        i: int,
        x_offset: int,
        y_offset: int,
        render_width: int,
        transparent: bool,
        background: Color,
    ) -> Color {
        if self.covers(i, x_offset, y_offset, render_width) {
            blend_texel(
                under,
                self.texel(i % render_width - x_offset, i / render_width - y_offset),
                transparent,
                background,
            )
        } else {
            under
        }
    }

    /// The intensity at a position relative to the left top corner, if it lies inside.
    pub fn fetch(&self, pixel_distance_l: i32, pixel_distance_t: i32) -> (r: Option<u8>)
        requires
            self.wf(),
        ensures
            r == (if 0 <= pixel_distance_l < self.width && 0 <= pixel_distance_t < self.height {
                Some(self.texel(pixel_distance_l as int, pixel_distance_t as int))
            } else {
                None
            }),
    {
        if pixel_distance_l < 0 || pixel_distance_t < 0 || pixel_distance_l >= self.width
            || pixel_distance_t >= self.height {
            None
        } else {
            proof {
                assert(pixel_distance_t * self.width + pixel_distance_l < self.width * self.height)
                    by (nonlinear_arith)
                    requires
                        0 <= pixel_distance_l < self.width,
                        0 <= pixel_distance_t < self.height,
                ;
            }
            assert(self.data@.len() == self.data.len());
            let i = pixel_distance_t as usize * self.width as usize + pixel_distance_l as usize;
            Some(self.data[i])
        }
    }

    /// Draws this label into `data`, a raster `render_width` pixels wide, with
    /// its left top corner at `(x_offset, y_offset)`. Label pixels that fall
    /// outside the raster are left out.
    pub fn draw(
        &self,
        data: &mut Vec<Color>,
        x_offset: usize,
        y_offset: usize,
        render_width: usize,
        transparent: bool,
        background: Color,
    )
        requires
            self.wf(),
            render_width > 0,
        ensures
            final(data)@.len() == old(data)@.len(),
            forall|i: int|
                0 <= i < old(data)@.len() ==> #[trigger] final(data)@[i] == self.drawn(
                    old(data)@[i],
                    i,
                    x_offset as int,
                    y_offset as int,
                    render_width as int,
                    transparent,
                    background,
                ),
            final(data)@ == label_drawn(
                old(data)@,
                *self,
                x_offset as int,
                y_offset as int,
                render_width as int,
                transparent,
                background,
            ),
    {
        let ghost before = data@;
        let w = self.width as usize;
        let h = self.height as usize;
        let len = data.len();
        let mut row: usize = 0;
        while row < h
            invariant
                self.wf(),
                w == self.width,
                h == self.height,
                render_width > 0,
                len == before.len(),
                data@.len() == len,
                row <= h,
                forall|i: int|
                    0 <= i < len ==> #[trigger] data@[i] == (if self.covers(
                        i,
                        x_offset as int,
                        y_offset as int,
                        render_width as int,
                    ) && i / render_width as int - y_offset < row {
                        self.drawn(
                            before[i],
                            i,
                            x_offset as int,
                            y_offset as int,
                            render_width as int,
                            transparent,
                            background,
                        )
                    } else {
                        before[i]
                    }),
            decreases h - row,
        {
            let mut column: usize = 0;
            while column < w
                invariant
                    self.wf(),
                    w == self.width,
                    h == self.height,
                    render_width > 0,
                    len == before.len(),
                    data@.len() == len,
                    row < h,
                    column <= w,
                    forall|i: int|
                        0 <= i < len ==> #[trigger] data@[i] == (if self.covers(
                            i,
                            x_offset as int,
                            y_offset as int,
                            render_width as int,
                        ) && (i / render_width as int - y_offset < row || (i / render_width as int
                            - y_offset == row && i % render_width as int - x_offset < column)) {
                            self.drawn(
                                before[i],
                                i,
                                x_offset as int,
                                y_offset as int,
                                render_width as int,
                                transparent,
                                background,
                            )
                        } else {
                            before[i]
                        }),
                decreases w - column,
            {
                self.draw_texel(data, column, row, x_offset, y_offset, render_width, transparent, background, Ghost(before));
                column = column + 1;
            }
            row = row + 1;
        }
        assert(data@ =~= label_drawn(
            before,
            *self,
            x_offset as int,
            y_offset as int,
            render_width as int,
            transparent,
            background,
        ));
    }

    fn draw_texel(
        &self,
        data: &mut Vec<Color>,
        column: usize,
        row: usize,
        x_offset: usize,
        y_offset: usize,
        render_width: usize,
        transparent: bool,
        background: Color,
        Ghost(before): Ghost<Seq<Color>>,
    )
        requires
            self.wf(),
            render_width > 0,
            column < self.width,
            row < self.height,
            old(data)@.len() == before.len(),
            forall|i: int|
                0 <= i < before.len() ==> #[trigger] old(data)@[i] == (if self.covers(
                    i,
                    x_offset as int,
                    y_offset as int,
                    render_width as int,
                ) && (i / render_width as int - y_offset < row || (i / render_width as int
                    - y_offset == row && i % render_width as int - x_offset < column)) {
                    self.drawn(
                        before[i],
                        i,
                        x_offset as int,
                        y_offset as int,
                        render_width as int,
                        transparent,
                        background,
                    )
                } else {
                    before[i]
                }),
        ensures
            final(data)@.len() == before.len(),
            forall|i: int|
                0 <= i < before.len() ==> #[trigger] final(data)@[i] == (if self.covers(
                    i,
                    x_offset as int,
                    y_offset as int,
                    render_width as int,
                ) && (i / render_width as int - y_offset < row || (i / render_width as int
                    - y_offset == row && i % render_width as int - x_offset < column + 1)) {
                    self.drawn(
                        before[i],
                        i,
                        x_offset as int,
                        y_offset as int,
                        render_width as int,
                        transparent,
                        background,
                    )
                } else {
                    before[i]
                }),
    {
        let len = data.len();
        let x = x_offset as u128 + column as u128;
        let y = y_offset as u128 + row as u128;
        let ghost target: int = (y as int) * (render_width as int) + (x as int);
        assert forall|i: int| 0 <= i < len && #[trigger] self.covers(i, x_offset as int, y_offset as int, render_width as int)
            && i / render_width as int - y_offset == row && i % render_width as int - x_offset == column
            implies i == target by {
            vstd::arithmetic::div_mod::lemma_fundamental_div_mod(i, render_width as int);
            assert(i / render_width as int == y as int);
            assert(i % render_width as int == x as int);
            assert(i == render_width as int * (y as int) + (x as int));
            assert(render_width as int * (y as int) == (y as int) * (render_width as int))
                by (nonlinear_arith);
        }
        if x < render_width as u128 && y < len as u128 {
            proof {
                crate::geometry::lemma_product_fits(y as int, render_width as int);
            }
            let index = y * (render_width as u128) + x;
            if index < len as u128 {
                let i = index as usize;
                proof {
                    vstd::arithmetic::div_mod::lemma_fundamental_div_mod_converse(
                        i as int,
                        render_width as int,
                        y as int,
                        x as int,
                    );
                    assert(self.covers(i as int, x_offset as int, y_offset as int, render_width as int));
                }
                let w = self.width as usize;
                assert(self.data@.len() == self.data.len());
                proof {
                    assert(row * w + column < self.width * self.height) by (nonlinear_arith)
                        requires row < self.height, column < w, w == self.width;
                }
                let gray = self.data[row * w + column];
                let under = data[i];
                let c = if transparent {
                    if gray == 0 {
                        under
                    } else {
                        under.saturating_add(gray)
                    }
                } else if gray == 0 {
                    background
                } else {
                    Color::gray(gray)
                };
                data.set(i, c);
            }
        }
    }
}

/// The rows of the 8x8 glyph of ASCII character `code`, top row first; bit
/// `c` of a row is set where column `c` is lit.
pub uninterp spec fn basic_glyph_rows(code: u8) -> Seq<u8>;

/// The rows of box-drawing glyph `index` (`U+2500 + index`), laid out as
/// `basic_glyph_rows`.
pub uninterp spec fn box_glyph_rows(index: usize) -> Seq<u8>;

/// Relies on `font8x8::unicode::BASIC_UNICODE`: entry `code` holds the
/// eight rows of the glyph of ASCII character `code`.
#[verifier::external_body]
fn basic_glyph(code: u8) -> (r: [u8; 8])
    requires
        code < 128,
    ensures
        r@ == basic_glyph_rows(code),
{
    font8x8::unicode::BASIC_UNICODE[code as usize].1
}

/// Relies on `font8x8::unicode::BOX_UNICODE`: entry `index` holds the eight
/// rows of box-drawing character `U+2500 + index`.
#[verifier::external_body]
fn box_glyph(index: usize) -> (r: [u8; 8])
    requires
        index < 128,
    ensures
        r@ == box_glyph_rows(index),
{
    font8x8::unicode::BOX_UNICODE[index].1
}

/// The box-drawing glyph drawn for characters outside ASCII: `U+256C`.
pub const REPLACEMENT_GLYPH: usize = 108;

/// The glyph rows of character `c`.
pub open spec fn glyph_of(c: char) -> Seq<u8> {
    if (c as u32) < 128 {
        basic_glyph_rows((c as u32) as u8)
    } else {
        box_glyph_rows(REPLACEMENT_GLYPH)
    }
}

/// Pixel `(column, row)` of a glyph with rows `rows` is lit.
pub open spec fn lit(rows: Seq<u8>, column: u8, row: int) -> bool {
    (rows[row] >> column) & 1u8 == 1u8
}

/// Some pixel of column `column` of the glyph is lit.
pub open spec fn column_used(rows: Seq<u8>, column: int) -> bool {
    exists|row: int| 0 <= row < 8 && #[trigger] lit(rows, column as u8, row)
}

/// The first used column at or after `column`, or 8.
pub open spec fn first_used(rows: Seq<u8>, column: int) -> int
    decreases 8 - column,
{
    if column >= 8 {
        8
    } else if column_used(rows, column) {
        column
    } else {
        first_used(rows, column + 1)
    }
}

/// One past the last used column before `column`, or 0.
pub open spec fn end_used(rows: Seq<u8>, column: int) -> int
    decreases column,
{
    if column <= 0 {
        0
    } else if column_used(rows, column - 1) {
        column
    } else {
        end_used(rows, column - 1)
    }
}

/// The columns of the first `n` characters of `text`: each character's used
/// columns (character index, glyph column), followed by one empty column
/// (`None`); characters without a used column are left out.
pub open spec fn text_columns(text: Seq<char>, n: int) -> Seq<Option<(usize, u8)>>
    decreases n,
{
    if n <= 0 {
        seq![]
    } else {
        let rows = glyph_of(text[n - 1]);
        let lo = first_used(rows, 0);
        let hi = end_used(rows, 8);
        if lo < hi {
            text_columns(text, n - 1) + Seq::new((hi - lo) as nat, |i: int| Some(((n - 1) as usize, (lo + i) as u8)))
                + seq![None]
        } else {
            text_columns(text, n - 1)
        }
    }
}

/// The columns of `text` rendered in the 8x8 font, without the trailing empty column.
pub open spec fn font8x8_columns(text: Seq<char>) -> Seq<Option<(usize, u8)>> {
    let all = text_columns(text, text.len() as int);
    if all.len() == 0 {
        all
    } else {
        all.drop_last()
    }
}

/// Pixel `row` of column `column` of a rendering of `text` is lit.
pub open spec fn column_lit(text: Seq<char>, column: Option<(usize, u8)>, row: int) -> bool {
    match column {
        None => false,
        Some((k, c)) => lit(glyph_of(text[k as int]), c, row),
    }
}

/// Whether some pixel of column `column` of `rows` is lit.
fn column_used_exec(rows: &[u8; 8], column: u8) -> (r: bool)
    requires
        column < 8,
    ensures
        r == column_used(rows@, column as int),
{
    let mut row: usize = 0;
    while row < 8
        invariant
            row <= 8,
            column < 8,
            rows@.len() == 8,
            forall|j: int| 0 <= j < row ==> !lit(rows@, column, j),
        decreases 8 - row,
    {
        if (rows[row] >> column) & 1u8 == 1u8 {
            assert(lit(rows@, column, row as int));
            assert((column as int) as u8 == column);
            assert(column_used(rows@, column as int));
            return true;
        }
        row = row + 1;
    }
    false
}

impl BitMapText {
    /// Renders `text` in the public-domain 8x8 font, each font pixel `scaling`
    /// pixels wide and high (at least 1). Characters outside ASCII are drawn as
    /// a box-drawing cross; the empty columns at both sides of each character
    /// are dropped and one empty column separates characters. Returns `None`
    /// where no column is lit or the bitmap would not fit into memory sizes.
    pub fn font8x8(text: &Vec<char>, scaling: usize) -> (r: Option<BitMapText>)
        ensures
            ({
                let cols = font8x8_columns(text@);
                let s = if scaling > 1 {
                    scaling as int
                } else {
                    1int
                };
                let w = cols.len() * s;
                let h = 8 * s;
                &&& r is Some <==> (cols.len() > 0 && w <= i32::MAX && h <= i32::MAX && w * h
                    <= usize::MAX)
                &&& r is Some ==> {
                    let b = r->Some_0;
                    &&& b.wf()
                    &&& b.width == w
                    &&& b.height == h
                    &&& forall|x: int, y: int|
                        0 <= x < w && 0 <= y < h ==> #[trigger] b.texel(x, y) == (if column_lit(
                            text@,
                            cols[x / s],
                            y / s,
                        ) {
                            255u8
                        } else {
                            0u8
                        })
                }
            }),
    {
        let mut glyphs: Vec<[u8; 8]> = Vec::new();
        let mut columns: Vec<Option<(usize, u8)>> = Vec::new();
        let mut k: usize = 0;
        while k < text.len()
            invariant
                k <= text@.len(),
                glyphs@.len() == k,
                forall|j: int| 0 <= j < k ==> (#[trigger] glyphs@[j])@ == glyph_of(text@[j]),
                columns@ == text_columns(text@, k as int),
                forall|j: int|
                    0 <= j < columns@.len() && columns@[j] is Some ==> (#[trigger] columns@[j])->Some_0.0
                        < k && columns@[j]->Some_0.1 < 8,
            decreases text@.len() - k,
        {
            let c = text[k];
            let code = c as u32;
            let rows = if code < 128 {
                basic_glyph(code as u8)
            } else {
                box_glyph(REPLACEMENT_GLYPH)
            };
            let mut lo: u8 = 0;
            while lo < 8 && !column_used_exec(&rows, lo)
                invariant
                    lo <= 8,
                    first_used(rows@, lo as int) == first_used(rows@, 0),
                decreases 8 - lo,
            {
                lo = lo + 1;
            }
            let mut hi: u8 = 8;
            while hi > 0 && !column_used_exec(&rows, hi - 1)
                invariant
                    hi <= 8,
                    end_used(rows@, hi as int) == end_used(rows@, 8),
                decreases hi,
            {
                hi = hi - 1;
            }
            let ghost prev = columns@;
            if lo < hi {
                let mut col: u8 = lo;
                while col < hi
                    invariant
                        lo <= col <= hi <= 8,
                        forall|j: int|
                            0 <= j < columns@.len() && columns@[j] is Some ==> (#[trigger] columns@[j])->Some_0.0
                                <= k && columns@[j]->Some_0.1 < 8,
                        forall|j: int|
                            0 <= j < prev.len() && prev[j] is Some ==> (#[trigger] prev[j])->Some_0.0
                                < k,
                        columns@ == prev + Seq::new(
                            (col - lo) as nat,
                            |i: int| Some((k, (lo + i) as u8)),
                        ),
                    decreases hi - col,
                {
                    columns.push(Some((k, col)));
                    col = col + 1;
                    proof {
                        assert(columns@ =~= prev + Seq::new(
                            (col - lo) as nat,
                            |i: int| Some((k, (lo + i) as u8)),
                        ));
                    }
                }
                columns.push(None);
            }
            glyphs.push(rows);
            proof {
                assert(text@[k as int] == c);
                assert(rows@ == glyph_of(c));
                assert(first_used(rows@, 0) == lo as int);
                assert(end_used(rows@, 8) == hi as int);
            }
            k = k + 1;
        }
        if columns.len() == 0 {
            return None;
        }
        columns.pop();
        let s: usize = if scaling > 1 {
            scaling
        } else {
            1
        };
        let n = columns.len();
        if n == 0 {
            return None;
        }
        proof {
            crate::geometry::lemma_product_fits(n as int, s as int);
        }
        let w = n as u128 * s as u128;
        let h = 8 * s as u128;
        if w > i32::MAX as u128 || h > i32::MAX as u128 {
            return None;
        }
        let w = w as usize;
        let h = h as usize;
        proof {
            crate::geometry::lemma_product_fits(w as int, h as int);
        }
        if w as u128 * h as u128 > usize::MAX as u128 {
            return None;
        }
        let total = w * h;
        let mut data: Vec<u8> = Vec::new();
        let mut i: usize = 0;
        while i < total
            invariant
                i <= total,
                total == w * h,
                w == n * s,
                h == 8 * s,
                s >= 1,
                n == columns@.len(),
                columns@ == font8x8_columns(text@),
                glyphs@.len() == text@.len(),
                forall|j: int| 0 <= j < text@.len() ==> (#[trigger] glyphs@[j])@ == glyph_of(text@[j]),
                forall|j: int|
                    0 <= j < columns@.len() && columns@[j] is Some ==> (#[trigger] columns@[j])->Some_0.0
                        < text@.len() && columns@[j]->Some_0.1 < 8,
                data@.len() == i,
                forall|j: int|
                    0 <= j < i ==> #[trigger] data@[j] == (if column_lit(
                        text@,
                        columns@[(j % w as int) / s as int],
                        (j / w as int) / s as int,
                    ) {
                        255u8
                    } else {
                        0u8
                    }),
            decreases total - i,
        {
            proof {
                assert(w > 0) by (nonlinear_arith)
                    requires i < w * h;
                assert(i / w < h as int) by (nonlinear_arith)
                    requires i < w * h, w > 0;
                let xm = (i as int) % (w as int);
                let yd = (i as int) / (w as int);
                assert(0 <= xm < w);
                assert(0 <= yd < h);
                assert(xm / (s as int) < n) by (nonlinear_arith)
                    requires 0 <= xm < w, w == n * s, s >= 1;
                assert(yd / (s as int) < 8) by (nonlinear_arith)
                    requires 0 <= yd < h, h == 8 * s, s >= 1;
            }
            let x = (i % w) / s;
            let y = (i / w) / s;
            let on = match columns[x] {
                None => false,
                Some((k, c)) => (glyphs[k][y] >> c) & 1u8 == 1u8,
            };
            data.push(if on {
                255u8
            } else {
                0u8
            });
            i = i + 1;
        }
        let r = BitMapText { data, width: w as i32, height: h as i32 };
        proof {
            assert forall|x: int, y: int| 0 <= x < w && 0 <= y < h implies #[trigger] r.texel(x, y) == (if column_lit(
                text@,
                columns@[x / s as int],
                y / s as int,
            ) {
                255u8
            } else {
                0u8
            }) by {
                let j = y * w + x;
                assert(0 <= j < w * h) by (nonlinear_arith)
                    requires 0 <= x < w, 0 <= y < h, j == y * w + x;
                vstd::arithmetic::div_mod::lemma_fundamental_div_mod_converse(j, w as int, y, x);
            }
        }
        Some(r)
    }
}

} // verus!
