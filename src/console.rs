use vstd::prelude::*;

verus! {

/// An RGB color.
#[derive(Debug, Clone, Copy, PartialEq, Eq, Structural)]
pub struct Color {
    pub r: u8,
    pub g: u8,
    pub b: u8,
}

impl Color {
    pub fn black() -> (c: Color)
        ensures
            c == (Color { r: 0, g: 0, b: 0 }),
    {
        Color { r: 0, g: 0, b: 0 }
    }

    pub fn white() -> (c: Color)
        ensures
            c == (Color { r: 255, g: 255, b: 255 }),
    {
        Color { r: 255, g: 255, b: 255 }
    }

    pub fn red() -> (c: Color)
        ensures
            c == (Color { r: 255, g: 0, b: 0 }),
    {
        Color { r: 255, g: 0, b: 0 }
    }

    pub fn green() -> (c: Color)
        ensures
            c == (Color { r: 0, g: 255, b: 0 }),
    {
        Color { r: 0, g: 255, b: 0 }
    }

    pub fn blue() -> (c: Color)
        ensures
            c == (Color { r: 0, g: 0, b: 255 }),
    {
        Color { r: 0, g: 0, b: 255 }
    }

    pub fn yellow() -> (c: Color)
        ensures
            c == (Color { r: 255, g: 255, b: 0 }),
    {
        Color { r: 255, g: 255, b: 0 }
    }

    pub fn cyan() -> (c: Color)
        ensures
            c == (Color { r: 0, g: 255, b: 255 }),
    {
        Color { r: 0, g: 255, b: 255 }
    }
}

/// Shape of the pixel surface: sizes in pixels, bytes per pixel.
#[derive(Debug, Clone, Copy, PartialEq, Eq, Structural)]
pub struct FrameGeometry {
    pub width: usize,
    pub height: usize,
    pub stride: usize,
    pub bytes_per_pixel: usize,
}

/// Integer factor each glyph bit is scaled by.
pub const SCALE: usize = 2;
/// Width and height of a glyph bitmap in bits.
pub const GLYPH_SIZE: usize = 8;
/// Width and height of one character cell on screen, in pixels.
pub const CELL: usize = 16;

/// The byte of channel `k` of a pixel of color `c`: blue, green, red, then an
/// opaque alpha.
pub open spec fn channel(c: Color, k: int) -> u8 {
    if k == 0 {
        c.b
    } else if k == 1 {
        c.g
    } else if k == 2 {
        c.r
    } else {
        255
    }
}

/// Number of bytes of a pixel that are written.
pub open spec fn written_bytes(bpp: int) -> int {
    if bpp < 4 { bpp } else { 4 }
}

/// `s` with the pixel at byte `offset` painted in `c`; unchanged when the
/// pixel does not fit entirely in `s`.
pub open spec fn painted(s: Seq<u8>, offset: int, bpp: int, c: Color) -> Seq<u8> {
    if offset + bpp <= s.len() {
        Seq::new(
            s.len(),
            |i: int|
                if offset <= i < offset + written_bytes(bpp) {
                    channel(c, i - offset)
                } else {
                    s[i]
                },
        )
    } else {
        s
    }
}

/// Geometry on which every cursor and pixel computation stays in range.
pub open spec fn geometry_ok(g: FrameGeometry) -> bool {
    &&& g.width >= CELL
    &&& g.height >= CELL
    &&& 1 <= g.bytes_per_pixel
    &&& g.width * g.height * g.bytes_per_pixel <= usize::MAX
}

/// Row the cursor moves to on a newline from row `y`: one cell down, or the
/// last fully visible row when that would not fit (the screen scrolls).
pub open spec fn next_row(height: usize, y: usize) -> usize {
    if y + 2 * CELL > height {
        (height - CELL) as usize
    } else {
        (y + CELL) as usize
    }
}

/// Whether a newline from row `y` scrolls the screen.
pub open spec fn scrolls(height: usize, y: usize) -> bool {
    y + 2 * CELL > height
}

/// Cursor after writing `ch` at cursor `(x, y)`.
pub open spec fn cursor_after(g: FrameGeometry, x: usize, y: usize, ch: char) -> (usize, usize) {
    if ch == '\n' {
        (0, next_row(g.height, y))
    } else if ch == '\r' {
        (0, y)
    } else if x + CELL > g.width {
        (CELL, next_row(g.height, y))
    } else {
        ((x + CELL) as usize, y)
    }
}

/// Cursor after writing the characters of `s` in order from `(x, y)`.
pub open spec fn cursor_after_all(g: FrameGeometry, x: usize, y: usize, s: Seq<char>) -> (usize, usize)
    decreases s.len(),
{
    if s.len() == 0 {
        (x, y)
    } else {
        let p = cursor_after_all(g, x, y, s.drop_last());
        cursor_after(g, p.0, p.1, s.last())
    }
}

/// Whether the pixel with index `p` holds color `c` in `s`.
pub open spec fn pixel_is(s: Seq<u8>, bpp: int, p: int, c: Color) -> bool {
    forall|j: int| 0 <= j < written_bytes(bpp) ==> #[trigger] s[p * bpp + j] == channel(c, j)
}

proof fn lemma_geometry_bounds(g: FrameGeometry)
    requires
        geometry_ok(g),
    ensures
        g.width * g.height <= g.width * g.height * g.bytes_per_pixel,
        g.width * g.bytes_per_pixel <= usize::MAX,
        g.height * (g.width * g.bytes_per_pixel) == g.width * g.height * g.bytes_per_pixel,
        g.width + 2 * CELL <= usize::MAX,
        g.height + 2 * CELL <= usize::MAX,
{
    let (w, h, b) = (g.width as int, g.height as int, g.bytes_per_pixel as int);
    assert(w * h <= w * h * b) by (nonlinear_arith)
        requires b >= 1, w >= 0, h >= 0;
    assert(w * b <= w * h * b) by (nonlinear_arith)
        requires b >= 1, w >= 0, h >= 1;
    assert(h * (w * b) == w * h * b) by (nonlinear_arith);
    assert(w * 16 <= w * h && h * 16 <= w * h) by (nonlinear_arith)
        requires w >= 16, h >= 16;
}

proof fn lemma_offset_fits(g: FrameGeometry, x: usize, y: usize)
    requires
        geometry_ok(g),
        x < g.width,
        y < g.height,
    ensures
        y * g.width + x < g.width * g.height,
        (y * g.width + x) * g.bytes_per_pixel + g.bytes_per_pixel
            <= g.width * g.height * g.bytes_per_pixel,
{
    let (w, h, b) = (g.width as int, g.height as int, g.bytes_per_pixel as int);
    assert(y * w + x + 1 <= h * w) by (nonlinear_arith)
        requires 0 <= x < w, 0 <= y < h;
    assert((y * w + x) * b + b <= w * h * b) by (nonlinear_arith)
        requires y * w + x + 1 <= h * w, b >= 1, 0 <= x, 0 <= y;
    assert(h * w == w * h) by (nonlinear_arith);
    lemma_geometry_bounds(g);
}

/// Text output onto a pixel surface: cursor, colors, geometry and glyphs. The
/// surface itself is handed to each drawing call.
pub struct Writer {
    info: FrameGeometry,
    cursor_x: usize,
    cursor_y: usize,
    fg_color: Color,
    bg_color: Color,
    font: Vec<u8>,
}

impl Writer {
    pub closed spec fn geometry(&self) -> FrameGeometry {
        self.info
    }

    pub closed spec fn cursor(&self) -> (usize, usize) {
        (self.cursor_x, self.cursor_y)
    }

    pub closed spec fn fg(&self) -> Color {
        self.fg_color
    }

    pub closed spec fn bg(&self) -> Color {
        self.bg_color
    }

    /// The glyph table: eight row bytes per character code.
    pub closed spec fn glyphs(&self) -> Seq<u8> {
        self.font@
    }

    /// The cursor stays on a fully visible cell row and within the row width.
    pub open spec fn wf(&self) -> bool {
        &&& geometry_ok(self.geometry())
        &&& self.cursor().0 <= self.geometry().width
        &&& self.cursor().1 + CELL <= self.geometry().height
    }

    /// A writer for a surface of the given geometry, white on black, with the
    /// cursor at the origin. `font` holds eight row bytes per character code
    /// (bit `k` of a row is column `k`); codes past its end draw blank.
    pub fn new(info: FrameGeometry, font: Vec<u8>) -> (w: Writer)
        requires
            geometry_ok(info),
        ensures
            w.wf(),
            w.geometry() == info,
            w.cursor() == (0usize, 0usize),
            w.fg() == Color::white_spec(),
            w.bg() == Color::black_spec(),
            w.glyphs() == font@,
    {
        Writer {
            info,
            cursor_x: 0,
            cursor_y: 0,
            fg_color: Color::white(),
            bg_color: Color::black(),
            font,
        }
    }

    pub fn set_fg_color(&mut self, color: Color)
        ensures
            final(self).fg() == color,
            final(self).bg() == old(self).bg(),
            final(self).cursor() == old(self).cursor(),
            final(self).geometry() == old(self).geometry(),
            final(self).glyphs() == old(self).glyphs(),
    {
        self.fg_color = color;
    }

    pub fn set_bg_color(&mut self, color: Color)
        ensures
            final(self).bg() == color,
            final(self).fg() == old(self).fg(),
            final(self).cursor() == old(self).cursor(),
            final(self).geometry() == old(self).geometry(),
            final(self).glyphs() == old(self).glyphs(),
    {
        self.bg_color = color;
    }

    /// The cursor position.
    pub fn get_cursor(&self) -> (r: (usize, usize))
        ensures
            r == self.cursor(),
    {
        (self.cursor_x, self.cursor_y)
    }

    /// Paints the pixel at byte `offset` in `color`, if it fits in the surface.
    fn write_pixel_at_offset(&self, surface: &mut [u8], offset: usize, color: Color)
        requires
            geometry_ok(self.geometry()),
        ensures
            final(surface)@ == painted(old(surface)@, offset as int,
                self.geometry().bytes_per_pixel as int, color),
    {
        let bpp = self.info.bytes_per_pixel;
        if offset <= surface.len() && bpp <= surface.len() - offset {
            surface[offset] = color.b;
            if bpp > 1 {
                surface[offset + 1] = color.g;
            }
            if bpp > 2 {
                surface[offset + 2] = color.r;
            }
            if bpp > 3 {
                surface[offset + 3] = 255;
            }
            assert(surface@ =~= painted(old(surface)@, offset as int, bpp as int, color));
        } else {
            assert(surface@ =~= painted(old(surface)@, offset as int, bpp as int, color));
        }
    }
}

impl Writer {
    /// Paints the pixel at column `x`, row `y`, if it fits in the surface.
    fn write_pixel(&self, surface: &mut [u8], x: usize, y: usize, color: Color)
        requires
            geometry_ok(self.geometry()),
            x < self.geometry().width,
            y < self.geometry().height,
        ensures
            final(surface)@ == painted(old(surface)@,
                (y * self.geometry().width + x) * self.geometry().bytes_per_pixel,
                self.geometry().bytes_per_pixel as int, color),
    {
        proof {
            lemma_offset_fits(self.info, x, y);
            lemma_geometry_bounds(self.info);
            assert(y * self.info.width <= usize::MAX);
            assert(y * self.info.width + x <= usize::MAX);
        }
        let offset = (y * self.info.width + x) * self.info.bytes_per_pixel;
        self.write_pixel_at_offset(surface, offset, color);
    }

    /// Row `row` of the glyph of `ch`; blank for codes past the table's end.
    fn glyph_row(&self, ch: char, row: usize) -> (r: u8)
        requires
            row < GLYPH_SIZE,
        ensures
            r == glyph_row_of(self.glyphs(), ch, row as int),
    {
        let code = ch as u32 as usize;
        if code < self.font.len() / 8 {
            proof {
                assert(code * 8 + row < self.font.len()) by (nonlinear_arith)
                    requires code < self.font.len() / 8, row < 8;
            }
            self.font[code * 8 + row]
        } else {
            0
        }
    }

    /// Draws the cell of `ch` with its top left corner at `(start_x, start_y)`:
    /// each glyph bit becomes a `SCALE` by `SCALE` block, set bits in the
    /// foreground color and clear bits in the background color. Pixels off
    /// the screen or past the end of the surface are skipped.
    fn draw_char(&self, surface: &mut [u8], ch: char, start_x: usize, start_y: usize)
        requires
            geometry_ok(self.geometry()),
            start_x <= self.geometry().width,
            start_y <= self.geometry().height,
        ensures
            drawn_over(self.geometry(), self.glyphs(), self.fg(), self.bg(), ch, start_x as int,
                start_y as int, old(surface)@, final(surface)@),
    {
        let ghost len = surface@.len();
        let ghost g = self.info;
        let ghost b = g.bytes_per_pixel as int;
        let ghost orig = surface@;
        proof {
            lemma_geometry_bounds(self.info);
        }
        let mut py: usize = 0;
        while py < CELL
            invariant
                geometry_ok(g),
                g == self.geometry(),
                b == g.bytes_per_pixel,
                start_x <= g.width,
                start_y <= g.height,
                g.width + 2 * CELL <= usize::MAX,
                g.height + 2 * CELL <= usize::MAX,
                py <= CELL,
                surface@.len() == len,
                forall|qx: int, qy: int|
                    0 <= qx < CELL && 0 <= qy < py
                        && pixel_fits(g, len, start_x + qx, start_y + qy)
                        ==> #[trigger] cell_pixel_drawn(surface@, g, start_x + qx, start_y + qy,
                            self.cell_color(ch, qx, qy)),
                orig == old(surface)@,
                forall|i: int| 0 <= i < len && !in_cell_first(g, len, start_x as int, start_y as int,
                    py * CELL, i) ==> #[trigger] surface@[i] == orig[i],
            decreases CELL - py,
        {
            let bits = self.glyph_row(ch, py / SCALE);
            let mut px: usize = 0;
            while px < CELL
                invariant
                    geometry_ok(g),
                    g == self.geometry(),
                    b == g.bytes_per_pixel,
                    start_x <= g.width,
                    start_y <= g.height,
                    g.width + 2 * CELL <= usize::MAX,
                    g.height + 2 * CELL <= usize::MAX,
                    py < CELL,
                    px <= CELL,
                    bits == glyph_row_of(self.glyphs(), ch, py as int / 2),
                    surface@.len() == len,
                    forall|qx: int, qy: int|
                        0 <= qx < CELL && 0 <= qy < CELL && (qy < py || (qy == py && qx < px))
                            && pixel_fits(g, len, start_x + qx, start_y + qy)
                            ==> #[trigger] cell_pixel_drawn(surface@, g, start_x + qx, start_y + qy,
                                self.cell_color(ch, qx, qy)),
                    orig == old(surface)@,
                    forall|i: int| 0 <= i < len && !in_cell_first(g, len, start_x as int, start_y as int,
                        py * CELL + px, i) ==> #[trigger] surface@[i] == orig[i],
                decreases CELL - px,
            {
                let pixel_on = (bits >> ((px / SCALE) as u8)) & 1;
                let color = if pixel_on == 1 { self.fg_color } else { self.bg_color };
                let x = start_x + px;
                let y = start_y + py;
                let ghost n = py * CELL + px;
                let ghost before = surface@;
                if x < self.info.width && y < self.info.height {
                    self.write_pixel(surface, x, y, color);
                    proof {
                        lemma_offset_fits(g, x, y);
                        let o = (y * g.width + x) * b;
                        assert forall|i: int| 0 <= i < len && !in_cell_first(g, len, start_x as int,
                            start_y as int, n + 1, i) implies #[trigger] surface@[i] == orig[i] by {
                            lemma_first_grow(g, len, start_x as int, start_y as int, n, i);
                            if o + b <= len && o <= i < o + written_bytes(b) {
                                assert(cell_byte(g, len, start_x as int, start_y as int, px as int, py as int, i));
                                lemma_first_includes(g, len, start_x as int, start_y as int, px as int, py as int, i);
                            }
                        }
                    }
                    proof {
                        lemma_offset_fits(g, x, y);
                        let p = y * g.width + x;
                        assert forall|qx: int, qy: int|
                            0 <= qx < CELL && 0 <= qy < CELL && (qy < py || (qy == py && qx < px + 1))
                                && pixel_fits(g, len, start_x + qx, start_y + qy)
                                implies #[trigger] cell_pixel_drawn(surface@, g, start_x + qx, start_y + qy,
                                    self.cell_color(ch, qx, qy)) by {
                            let (cx, cy) = (start_x + qx, start_y + qy);
                            let q = cy * g.width + cx;
                            if qx == px && qy == py {
                                lemma_paint_sets(before, b, p, color);
                            } else {
                                lemma_index_distinct(g.width as int, x as int, y as int, cx, cy);
                                assert(cell_pixel_drawn(before, g, cx, cy, self.cell_color(ch, qx, qy)));
                                lemma_paint_keeps(before, b, p, q, color, self.cell_color(ch, qx, qy));
                            }
                        }
                    }
                }
                proof {
                    assert forall|i: int| 0 <= i < len && !in_cell_first(g, len, start_x as int,
                        start_y as int, n + 1, i) implies #[trigger] surface@[i] == orig[i] by {
                        lemma_first_grow(g, len, start_x as int, start_y as int, n, i);
                    }
                }
                px = px + 1;
            }
            py = py + 1;
        }
        proof {
            assert(py == CELL);
            assert(py * CELL == CELL * CELL);
            assert forall|i: int| 0 <= i < len && !in_cell(g, len, start_x as int, start_y as int, i)
                implies #[trigger] surface@[i] == orig[i] by {}
            assert forall|px: int, py: int|
                0 <= px < CELL && 0 <= py < CELL && pixel_fits(g, len, start_x + px, start_y + py)
                    implies #[trigger] cell_pixel_drawn(surface@, g, start_x + px, start_y + py,
                        glyph_color(self.glyphs(), self.fg(), self.bg(), ch, px, py)) by {
                assert(cell_pixel_drawn(surface@, g, start_x + px, start_y + py, self.cell_color(ch, px, py)));
            }
        }
    }

    /// Color of pixel `(px, py)` of the cell of `ch` in this writer's colors.
    pub open spec fn cell_color(&self, ch: char, px: int, py: int) -> Color {
        glyph_color(self.glyphs(), self.fg(), self.bg(), ch, px, py)
    }

    /// Fills the whole surface with the background color (when it is large
    /// enough to hold the geometry) and moves the cursor to the origin.
    pub fn clear_screen(&mut self, surface: &mut [u8])
        requires
            old(self).wf(),
        ensures
            final(self).wf(),
            final(self).cursor() == (0usize, 0usize),
            final(self).fg() == old(self).fg(),
            final(self).bg() == old(self).bg(),
            final(self).geometry() == old(self).geometry(),
            final(self).glyphs() == old(self).glyphs(),
            cleared(old(self).geometry(), old(self).bg(), old(surface)@, final(surface)@),
    {
        let bpp = self.info.bytes_per_pixel;
        proof {
            lemma_geometry_bounds(self.info);
        }
        let total_pixels = self.info.width * self.info.height;
        let expected_size = total_pixels * bpp;
        if surface.len() >= expected_size {
            let mut p: usize = 0;
            while p < total_pixels
                invariant
                    self.wf(),
                    bpp == self.geometry().bytes_per_pixel,
                    total_pixels == self.geometry().width * self.geometry().height,
                    expected_size == total_pixels * bpp,
                    surface@.len() == old(surface)@.len(),
                    surface@.len() >= expected_size,
                    p <= total_pixels,
                    forall|q: int| 0 <= q < p ==> #[trigger] pixel_is(surface@, bpp as int, q, self.bg()),
                    forall|k: int| expected_size <= k < surface@.len() ==> #[trigger] surface@[k] == old(surface)@[k],
                decreases total_pixels - p,
            {
                proof {
                    assert(p * bpp + bpp <= expected_size) by (nonlinear_arith)
                        requires p < total_pixels, expected_size == total_pixels * bpp;
                }
                let ghost before = surface@;
                self.write_pixel_at_offset(surface, p * bpp, self.bg_color);
                proof {
                    assert forall|q: int| 0 <= q < p + 1 implies #[trigger] pixel_is(surface@, bpp as int, q, self.bg()) by {
                        if q < p {
                            assert forall|j: int| 0 <= j < written_bytes(bpp as int) implies
                                #[trigger] surface@[q * bpp + j] == channel(self.bg(), j) by {
                                assert(q * bpp + j < p * bpp) by (nonlinear_arith)
                                    requires q < p, 0 <= j < bpp;
                                assert(q * bpp + j >= 0) by (nonlinear_arith)
                                    requires q >= 0, j >= 0, bpp >= 1;
                                assert(pixel_is(before, bpp as int, q, self.bg()));
                            }
                        } else {
                            assert forall|j: int| 0 <= j < written_bytes(bpp as int) implies
                                #[trigger] surface@[q * bpp + j] == channel(self.bg(), j) by {
                            }
                        }
                    }
                }
                p = p + 1;
            }
        }
        self.cursor_x = 0;
        self.cursor_y = 0;
    }

    /// Moves the cursor to the start of the next cell row, scrolling when that
    /// row would not fully fit.
    pub fn newline(&mut self, surface: &mut [u8])
        requires
            old(self).wf(),
        ensures
            final(self).wf(),
            final(self).cursor() == (0usize, next_row(old(self).geometry().height, old(self).cursor().1)),
            final(self).fg() == old(self).fg(),
            final(self).bg() == old(self).bg(),
            final(self).geometry() == old(self).geometry(),
            final(self).glyphs() == old(self).glyphs(),
            newline_effect(old(self).geometry(), old(self).cursor().1, old(self).bg(), old(surface)@,
                final(surface)@),
    {
        proof {
            lemma_geometry_bounds(self.info);
        }
        self.cursor_x = 0;
        self.cursor_y = self.cursor_y + CELL;
        if self.cursor_y + CELL > self.info.height {
            self.scroll_up(surface);
        }
    }

    /// Moves every pixel row up by one cell row, fills the exposed bottom with
    /// the background color and puts the cursor on the last fully visible row.
    fn scroll_up(&mut self, surface: &mut [u8])
        requires
            geometry_ok(old(self).geometry()),
            old(self).cursor().0 <= old(self).geometry().width,
        ensures
            final(self).wf(),
            final(self).cursor() == (old(self).cursor().0, (old(self).geometry().height - CELL) as usize),
            final(self).fg() == old(self).fg(),
            final(self).bg() == old(self).bg(),
            final(self).geometry() == old(self).geometry(),
            final(self).glyphs() == old(self).glyphs(),
            scroll_effect(old(self).geometry(), old(self).bg(), old(surface)@, final(surface)@),
    {
        proof {
            lemma_geometry_bounds(self.info);
        }
        let ghost g = self.info;
        let ghost len = surface@.len() as int;
        let ghost orig = surface@;
        let bpp = self.info.bytes_per_pixel;
        let line_bytes = self.info.width * bpp;
        let rows = self.info.height - CELL;
        let ghost shift = CELL * line_bytes;
        let mut y: usize = 0;
        while y < rows
            invariant
                geometry_ok(self.geometry()),
                g == self.geometry(),
                orig == old(surface)@,
                len == orig.len(),
                bpp == self.geometry().bytes_per_pixel,
                line_bytes == self.geometry().width * bpp,
                line_bytes == row_bytes(g),
                rows == self.geometry().height - CELL,
                shift == CELL * line_bytes,
                self.geometry().height * line_bytes <= usize::MAX,
                surface@.len() == len,
                y <= rows,
                forall|k: int| 0 <= k < y * line_bytes && k < len ==> #[trigger] surface@[k] == if k + shift < len {
                    orig[k + shift]
                } else {
                    orig[k]
                },
                forall|k: int| y * line_bytes <= k < len ==> #[trigger] surface@[k] == orig[k],
            decreases rows - y,
        {
            proof {
                let h = self.info.height as int;
                assert((y + CELL) * line_bytes + line_bytes <= h * line_bytes) by (nonlinear_arith)
                    requires y + CELL < h, line_bytes >= 0;
                assert(y * line_bytes <= (y + CELL) * line_bytes) by (nonlinear_arith)
                    requires y >= 0, line_bytes >= 0;
                assert((y + CELL) * line_bytes == y * line_bytes + shift) by (nonlinear_arith)
                    requires shift == CELL * line_bytes;
                assert((y + 1) * line_bytes == y * line_bytes + line_bytes) by (nonlinear_arith);
            }
            let src_start = (y + CELL) * line_bytes;
            let dst_start = y * line_bytes;
            let mut x: usize = 0;
            while x < line_bytes
                invariant
                    orig == old(surface)@,
                    len == orig.len(),
                    src_start == (y + CELL) * line_bytes,
                    dst_start == y * line_bytes,
                    src_start == dst_start + shift,
                    shift >= 0,
                    dst_start <= src_start,
                    src_start <= usize::MAX - line_bytes,
                    surface@.len() == len,
                    x <= line_bytes,
                    forall|k: int| 0 <= k < dst_start + x && k < len ==> #[trigger] surface@[k] == if k + shift < len {
                        orig[k + shift]
                    } else {
                        orig[k]
                    },
                    forall|k: int| dst_start + x <= k < len ==> #[trigger] surface@[k] == orig[k],
                decreases line_bytes - x,
            {
                let ghost before = surface@;
                if src_start + x < surface.len() && dst_start + x < surface.len() {
                    assert(before[src_start + x] == orig[src_start + x]);
                    surface[dst_start + x] = surface[src_start + x];
                }
                x = x + 1;
            }
            y = y + 1;
        }
        proof {
            let h = self.info.height as int;
            assert(rows * line_bytes <= h * line_bytes) by (nonlinear_arith)
                requires rows <= h, line_bytes >= 0;
            assert(rows * line_bytes == (rows * self.info.width) * bpp) by (nonlinear_arith)
                requires line_bytes == self.info.width * bpp;
        }
        let clear_start = rows * line_bytes;
        let ghost first = rows * g.width;
        let ghost mut pix: int = first;
        let ghost copied = surface@;
        let mut i: usize = clear_start;
        while i < surface.len() && bpp <= surface.len() - i
            invariant
                geometry_ok(self.geometry()),
                g == self.geometry(),
                bpp == self.geometry().bytes_per_pixel,
                surface@.len() == len,
                first == rows * g.width,
                first >= 0,
                clear_start == rows * line_bytes,
                clear_start == first * bpp,
                pix >= first,
                i == pix * bpp,
                i >= clear_start,
                forall|k: int| 0 <= k < clear_start && k < len ==> #[trigger] surface@[k] == copied[k],
                forall|p: int| first <= p < pix && p * bpp + bpp <= len ==> #[trigger] pixel_is(surface@, bpp as int, p, self.bg()),
            decreases surface@.len() - i,
        {
            let ghost before = surface@;
            self.write_pixel_at_offset(surface, i, self.bg_color);
            proof {
                assert forall|p: int| first <= p < pix + 1 && p * bpp + bpp <= len
                    implies #[trigger] pixel_is(surface@, bpp as int, p, self.bg()) by {
                    if p == pix {
                        lemma_paint_sets(before, bpp as int, pix, self.bg());
                    } else {
                        assert(p >= 0);
                        lemma_paint_keeps(before, bpp as int, pix, p, self.bg(), self.bg());
                    }
                }
                assert((pix + 1) * bpp == pix * bpp + bpp) by (nonlinear_arith);
            }
            i = i + bpp;
            proof {
                pix = pix + 1;
            }
        }
        proof {
            assert forall|p: int| first <= p && p * bpp + bpp <= len
                implies #[trigger] pixel_is(surface@, bpp as int, p, self.bg()) by {
                if p >= pix {
                    assert(p * bpp >= pix * bpp) by (nonlinear_arith)
                        requires p >= pix, bpp >= 1;
                }
            }
            assert(first == (g.height - CELL) * g.width);
            assert(clear_start == kept_bytes(g));
        }
        self.cursor_y = rows;
    }

    /// Writes one character: a newline moves to the next row, a carriage
    /// return to the start of the row; anything else is drawn at the cursor,
    /// wrapping to a new row first when the cell would not fit.
    pub fn write_char(&mut self, surface: &mut [u8], ch: char)
        requires
            old(self).wf(),
        ensures
            final(self).wf(),
            final(self).cursor() == cursor_after(old(self).geometry(), old(self).cursor().0,
                old(self).cursor().1, ch),
            final(self).fg() == old(self).fg(),
            final(self).bg() == old(self).bg(),
            final(self).geometry() == old(self).geometry(),
            final(self).glyphs() == old(self).glyphs(),
            char_effect(old(self).geometry(), old(self).glyphs(), old(self).fg(), old(self).bg(),
                old(self).cursor().0, old(self).cursor().1, ch, old(surface)@, final(surface)@),
    {
        if ch == '\n' {
            self.newline(surface);
        } else if ch == '\r' {
            self.cursor_x = 0;
        } else {
            proof {
                lemma_geometry_bounds(self.info);
            }
            let ghost before = surface@;
            if self.cursor_x + CELL > self.info.width {
                self.newline(surface);
            }
            let ghost mid = surface@;
            self.draw_char(surface, ch, self.cursor_x, self.cursor_y);
            proof {
                let g = self.info;
                if old(self).cursor_x + CELL > g.width {
                    assert(newline_effect(g, old(self).cursor_y, self.bg_color, before, mid)
                        && drawn_over(g, self.font@, self.fg_color, self.bg_color, ch, 0,
                            next_row(g.height, old(self).cursor_y) as int, mid, surface@));
                }
            }
            self.cursor_x = self.cursor_x + CELL;
        }
    }

    /// Writes the characters of `s` one after another.
    pub fn write_string(&mut self, surface: &mut [u8], s: &str)
        requires
            old(self).wf(),
        ensures
            final(self).wf(),
            final(self).cursor() == cursor_after_all(old(self).geometry(), old(self).cursor().0,
                old(self).cursor().1, s@),
            final(self).fg() == old(self).fg(),
            final(self).bg() == old(self).bg(),
            final(self).geometry() == old(self).geometry(),
            final(self).glyphs() == old(self).glyphs(),
            text_effect(old(self).geometry(), old(self).glyphs(), old(self).fg(), old(self).bg(),
                old(self).cursor().0, old(self).cursor().1, s@, old(surface)@, final(surface)@),
    {
        let t = crate::output::chars_of(s);
        self.write_chars(surface, &t);
    }

    /// Writes the characters of `t` one after another.
    pub fn write_chars(&mut self, surface: &mut [u8], t: &Vec<char>)
        requires
            old(self).wf(),
        ensures
            final(self).wf(),
            final(self).cursor() == cursor_after_all(old(self).geometry(), old(self).cursor().0,
                old(self).cursor().1, t@),
            final(self).fg() == old(self).fg(),
            final(self).bg() == old(self).bg(),
            final(self).geometry() == old(self).geometry(),
            final(self).glyphs() == old(self).glyphs(),
            text_effect(old(self).geometry(), old(self).glyphs(), old(self).fg(), old(self).bg(),
                old(self).cursor().0, old(self).cursor().1, t@, old(surface)@, final(surface)@),
    {
        let ghost g = self.info;
        let ghost (x0, y0) = (self.cursor_x, self.cursor_y);
        let mut i: usize = 0;
        assert(t@.take(0) =~= Seq::<char>::empty());
        while i < t.len()
            invariant
                i <= t@.len(),
                self.wf(),
                g == old(self).geometry(),
                x0 == old(self).cursor().0,
                y0 == old(self).cursor().1,
                self.cursor() == cursor_after_all(g, x0, y0, t@.take(i as int)),
                self.fg() == old(self).fg(),
                self.bg() == old(self).bg(),
                self.geometry() == old(self).geometry(),
                self.glyphs() == old(self).glyphs(),
                text_effect(g, self.glyphs(), self.fg(), self.bg(), x0, y0, t@.take(i as int),
                    old(surface)@, surface@),
            decreases t@.len() - i,
        {
            let ghost before = surface@;
            let ghost pre = t@.take(i + 1);
            assert(pre.drop_last() =~= t@.take(i as int));
            assert(pre.last() == t@[i as int]);
            self.write_char(surface, t[i]);
            proof {
                let c = cursor_after_all(g, x0, y0, pre.drop_last());
                assert(text_effect(g, self.glyphs(), self.fg(), self.bg(), x0, y0, pre.drop_last(),
                    old(surface)@, before)
                    && char_effect(g, self.glyphs(), self.fg(), self.bg(), c.0, c.1, pre.last(), before,
                        surface@));
                lemma_text_step(g, self.glyphs(), self.fg(), self.bg(), x0, y0, pre, old(surface)@,
                    before, surface@);
            }
            i = i + 1;
        }
        assert(t@.take(t@.len() as int) =~= t@);
    }

    /// Steps the cursor back one cell and blanks that cell; at the start of a
    /// row nothing happens.
    pub fn backspace(&mut self, surface: &mut [u8])
        requires
            old(self).wf(),
        ensures
            final(self).wf(),
            final(self).cursor() == if old(self).cursor().0 >= CELL {
                ((old(self).cursor().0 - CELL) as usize, old(self).cursor().1)
            } else {
                old(self).cursor()
            },
            final(self).fg() == old(self).fg(),
            final(self).bg() == old(self).bg(),
            final(self).geometry() == old(self).geometry(),
            final(self).glyphs() == old(self).glyphs(),
            backspace_effect(old(self).geometry(), old(self).glyphs(), old(self).fg(), old(self).bg(),
                old(self).cursor().0, old(self).cursor().1, old(surface)@, final(surface)@),
    {
        if self.cursor_x >= CELL {
            self.cursor_x = self.cursor_x - CELL;
            self.draw_char(surface, ' ', self.cursor_x, self.cursor_y);
        }
    }
}

/// Bytes in one pixel row.
pub open spec fn row_bytes(g: FrameGeometry) -> int {
    g.width * g.bytes_per_pixel
}

/// Bytes of the rows that a scroll keeps (all but the last cell row).
pub open spec fn kept_bytes(g: FrameGeometry) -> int {
    (g.height - CELL) * row_bytes(g)
}

/// Whether the pixel at `(x, y)` lies on screen and wholly inside a surface
/// of `len` bytes.
pub open spec fn pixel_fits(g: FrameGeometry, len: nat, x: int, y: int) -> bool {
    0 <= x < g.width && 0 <= y < g.height
        && (y * g.width + x) * g.bytes_per_pixel + g.bytes_per_pixel <= len
}

/// Whether the pixel at `(x, y)` holds color `c` in `s`.
pub open spec fn cell_pixel_drawn(s: Seq<u8>, g: FrameGeometry, x: int, y: int, c: Color) -> bool {
    pixel_is(s, g.bytes_per_pixel as int, y * g.width + x, c)
}

/// Color of pixel `(px, py)` of the cell of `ch`, drawn from `glyphs` in
/// `fg` on `bg`: glyph bits are scaled by two.
pub open spec fn glyph_color(glyphs: Seq<u8>, fg: Color, bg: Color, ch: char, px: int, py: int) -> Color {
    if (glyph_row_of(glyphs, ch, py / 2) >> ((px / 2) as u8)) & 1u8 == 1u8 { fg } else { bg }
}

/// Whether byte `i` is a written byte of pixel `(px, py)` of the cell with
/// top left corner `(ox, oy)`, that pixel being on screen and inside a
/// surface of `len` bytes.
pub open spec fn cell_byte(g: FrameGeometry, len: nat, ox: int, oy: int, px: int, py: int, i: int) -> bool {
    let off = ((oy + py) * g.width + ox + px) * g.bytes_per_pixel;
    pixel_fits(g, len, ox + px, oy + py) && off <= i < off + written_bytes(g.bytes_per_pixel as int)
}

/// Whether byte `i` belongs to one of the first `n` pixels of the cell, in
/// row-major order.
pub open spec fn in_cell_first(g: FrameGeometry, len: nat, ox: int, oy: int, n: int, i: int) -> bool {
    exists|px: int, py: int|
        0 <= px < CELL && 0 <= py < CELL && py * CELL + px < n
            && #[trigger] cell_byte(g, len, ox, oy, px, py, i)
}

/// Whether byte `i` belongs to a drawn pixel of the cell at `(ox, oy)`.
pub open spec fn in_cell(g: FrameGeometry, len: nat, ox: int, oy: int, i: int) -> bool {
    in_cell_first(g, len, ox, oy, CELL * CELL, i)
}

/// `after` is `before` with the cell of `ch` drawn at `(ox, oy)`: each pixel
/// of the cell that fits holds its glyph color, and every other byte is kept.
pub open spec fn drawn_over(
    g: FrameGeometry,
    glyphs: Seq<u8>,
    fg: Color,
    bg: Color,
    ch: char,
    ox: int,
    oy: int,
    before: Seq<u8>,
    after: Seq<u8>,
) -> bool {
    &&& after.len() == before.len()
    &&& forall|px: int, py: int|
        0 <= px < CELL && 0 <= py < CELL && pixel_fits(g, before.len(), ox + px, oy + py)
            ==> #[trigger] cell_pixel_drawn(after, g, ox + px, oy + py, glyph_color(glyphs, fg, bg, ch, px, py))
    &&& forall|i: int| 0 <= i < before.len() && !in_cell(g, before.len(), ox, oy, i)
            ==> #[trigger] after[i] == before[i]
}

/// `after` is `before` cleared to `bg`: when the surface holds the whole
/// screen, every pixel is `bg` and bytes past the screen are kept; a shorter
/// surface is left alone.
pub open spec fn cleared(g: FrameGeometry, bg: Color, before: Seq<u8>, after: Seq<u8>) -> bool {
    let n = g.width * g.height * g.bytes_per_pixel;
    &&& after.len() == before.len()
    &&& if before.len() >= n {
        &&& forall|p: int| 0 <= p < g.width * g.height
            ==> #[trigger] pixel_is(after, g.bytes_per_pixel as int, p, bg)
        &&& forall|k: int| n <= k < before.len() ==> #[trigger] after[k] == before[k]
    } else {
        after == before
    }
}

/// `after` is `before` scrolled up by one cell row: each kept byte comes from
/// one cell row lower (or stays when that is past the end), and every whole
/// pixel from the last cell row on is `bg`.
pub open spec fn scroll_effect(g: FrameGeometry, bg: Color, before: Seq<u8>, after: Seq<u8>) -> bool {
    let shift = CELL * row_bytes(g);
    let b = g.bytes_per_pixel as int;
    &&& after.len() == before.len()
    &&& forall|k: int| 0 <= k < kept_bytes(g) && k < before.len() ==> #[trigger] after[k]
        == if k + shift < before.len() { before[k + shift] } else { before[k] }
    &&& forall|p: int| (g.height - CELL) * g.width <= p && p * b + b <= before.len()
        ==> #[trigger] pixel_is(after, b, p, bg)
}

/// Surface effect of a newline from row `y`: a scroll when the next row
/// would not fit, nothing otherwise.
pub open spec fn newline_effect(g: FrameGeometry, y: usize, bg: Color, before: Seq<u8>, after: Seq<u8>) -> bool {
    if scrolls(g.height, y) { scroll_effect(g, bg, before, after) } else { after == before }
}

/// Surface effect of writing `ch` at cursor `(x, y)`.
pub open spec fn char_effect(
    g: FrameGeometry,
    glyphs: Seq<u8>,
    fg: Color,
    bg: Color,
    x: usize,
    y: usize,
    ch: char,
    before: Seq<u8>,
    after: Seq<u8>,
) -> bool {
    if ch == '\n' {
        newline_effect(g, y, bg, before, after)
    } else if ch == '\r' {
        after == before
    } else if x + CELL > g.width {
        exists|mid: Seq<u8>|
            #[trigger] newline_effect(g, y, bg, before, mid)
                && drawn_over(g, glyphs, fg, bg, ch, 0, next_row(g.height, y) as int, mid, after)
    } else {
        drawn_over(g, glyphs, fg, bg, ch, x as int, y as int, before, after)
    }
}

/// Surface effect of writing the characters of `t` in order from `(x, y)`.
pub open spec fn text_effect(
    g: FrameGeometry,
    glyphs: Seq<u8>,
    fg: Color,
    bg: Color,
    x: usize,
    y: usize,
    t: Seq<char>,
    before: Seq<u8>,
    after: Seq<u8>,
) -> bool
    decreases t.len(),
{
    if t.len() == 0 {
        after == before
    } else {
        let c = cursor_after_all(g, x, y, t.drop_last());
        exists|mid: Seq<u8>|
            text_effect(g, glyphs, fg, bg, x, y, t.drop_last(), before, mid)
                && #[trigger] char_effect(g, glyphs, fg, bg, c.0, c.1, t.last(), mid, after)
    }
}

/// Surface effect of a backspace at `(x, y)`: the previous cell is drawn as a
/// space, or nothing happens at the start of a row.
pub open spec fn backspace_effect(
    g: FrameGeometry,
    glyphs: Seq<u8>,
    fg: Color,
    bg: Color,
    x: usize,
    y: usize,
    before: Seq<u8>,
    after: Seq<u8>,
) -> bool {
    if x >= CELL {
        drawn_over(g, glyphs, fg, bg, ' ', x - CELL, y as int, before, after)
    } else {
        after == before
    }
}

proof fn lemma_text_step(
    g: FrameGeometry,
    glyphs: Seq<u8>,
    fg: Color,
    bg: Color,
    x: usize,
    y: usize,
    t: Seq<char>,
    before: Seq<u8>,
    mid: Seq<u8>,
    after: Seq<u8>,
)
    requires
        t.len() > 0,
        text_effect(g, glyphs, fg, bg, x, y, t.drop_last(), before, mid),
        ({
            let c = cursor_after_all(g, x, y, t.drop_last());
            char_effect(g, glyphs, fg, bg, c.0, c.1, t.last(), mid, after)
        }),
    ensures
        text_effect(g, glyphs, fg, bg, x, y, t, before, after),
{
}

proof fn lemma_first_grow(g: FrameGeometry, len: nat, ox: int, oy: int, n: int, i: int)
    ensures
        in_cell_first(g, len, ox, oy, n, i) ==> in_cell_first(g, len, ox, oy, n + 1, i),
{
    if in_cell_first(g, len, ox, oy, n, i) {
        let (px, py) = choose|px: int, py: int|
            0 <= px < CELL && 0 <= py < CELL && py * CELL + px < n
                && #[trigger] cell_byte(g, len, ox, oy, px, py, i);
        assert(cell_byte(g, len, ox, oy, px, py, i));
    }
}

proof fn lemma_first_includes(g: FrameGeometry, len: nat, ox: int, oy: int, px: int, py: int, i: int)
    requires
        0 <= px < CELL,
        0 <= py < CELL,
        cell_byte(g, len, ox, oy, px, py, i),
    ensures
        in_cell_first(g, len, ox, oy, py * CELL + px + 1, i),
{
}

proof fn lemma_paint_sets(s: Seq<u8>, b: int, p: int, c: Color)
    requires
        b >= 1,
        p >= 0,
        p * b + b <= s.len(),
    ensures
        pixel_is(painted(s, p * b, b, c), b, p, c),
{
}

proof fn lemma_paint_keeps(s: Seq<u8>, b: int, p: int, q: int, c: Color, d: Color)
    requires
        b >= 1,
        p >= 0,
        q >= 0,
        p != q,
        q * b + b <= s.len(),
        pixel_is(s, b, q, d),
    ensures
        pixel_is(painted(s, p * b, b, c), b, q, d),
{
    let t = painted(s, p * b, b, c);
    assert forall|j: int| 0 <= j < written_bytes(b) implies #[trigger] t[q * b + j] == channel(d, j) by {
        if q < p {
            assert(q * b + j < p * b) by (nonlinear_arith)
                requires q < p, 0 <= j < b;
        } else {
            assert(q * b + j >= p * b + b) by (nonlinear_arith)
                requires q > p, 0 <= j, b >= 1;
        }
        assert(q * b + j >= 0) by (nonlinear_arith)
            requires q >= 0, j >= 0, b >= 1;
        assert(s[q * b + j] == channel(d, j));
    }
}

proof fn lemma_index_distinct(w: int, x: int, y: int, x2: int, y2: int)
    requires
        0 <= x < w,
        0 <= x2 < w,
        0 <= y,
        0 <= y2,
        x != x2 || y != y2,
    ensures
        y * w + x != y2 * w + x2,
{
    if y < y2 {
        assert(y * w + x < y2 * w) by (nonlinear_arith)
            requires y < y2, 0 <= x < w;
    } else if y > y2 {
        assert(y2 * w + x2 < y * w) by (nonlinear_arith)
            requires y2 < y, 0 <= x2 < w;
    }
}

/// Row `row` of the glyph of `ch` in `font`; blank past the table's end.
pub open spec fn glyph_row_of(font: Seq<u8>, ch: char, row: int) -> u8 {
    let code = ch as u32 as int;
    if code < font.len() / 8 { font[code * 8 + row] } else { 0 }
}

/// Top left corner of the cell a drawn character lands in, from cursor
/// `(x, y)`: the cursor itself, or the start of the next row when the cell
/// would not fit.
pub open spec fn draw_origin(g: FrameGeometry, x: usize, y: usize) -> (usize, usize) {
    if x + CELL > g.width { (0usize, next_row(g.height, y)) } else { (x, y) }
}

/// Whether `ch` is drawn as a glyph rather than moving the cursor.
pub open spec fn is_drawn(ch: char) -> bool {
    ch != '\n' && ch != '\r'
}

/// Up to a row's capacity of drawn characters, written from the start of a
/// row, stay on that row, one cell each.
pub proof fn lemma_fill_row(g: FrameGeometry, y: usize, s: Seq<char>)
    requires
        geometry_ok(g),
        s.len() <= g.width / CELL,
        forall|i: int| 0 <= i < s.len() ==> is_drawn(#[trigger] s[i]),
    ensures
        cursor_after_all(g, 0, y, s) == ((s.len() * CELL) as usize, y),
    decreases s.len(),
{
    if s.len() > 0 {
        let t = s.drop_last();
        assert forall|i: int| 0 <= i < t.len() implies is_drawn(#[trigger] t[i]) by {
            assert(t[i] == s[i]);
        }
        lemma_fill_row(g, y, t);
        assert(s.len() * CELL <= g.width) by (nonlinear_arith)
            requires s.len() <= g.width / CELL;
        assert(is_drawn(s[s.len() - 1]));
    }
}

/// One drawn character more than a row holds wraps: the last one lands at the
/// start of the next row, which is one cell lower, or the last fully visible
/// row when the screen had to scroll.
pub proof fn lemma_row_wrap(g: FrameGeometry, y: usize, s: Seq<char>)
    requires
        geometry_ok(g),
        y + CELL <= g.height,
        s.len() == g.width / CELL + 1,
        forall|i: int| 0 <= i < s.len() ==> is_drawn(#[trigger] s[i]),
    ensures
        cursor_after_all(g, 0, y, s) == (CELL, next_row(g.height, y)),
        next_row(g.height, y) + CELL <= g.height,
        scrolls(g.height, y) ==> next_row(g.height, y) == g.height - CELL,
        !scrolls(g.height, y) ==> next_row(g.height, y) == y + CELL,
{
    let t = s.drop_last();
    assert forall|i: int| 0 <= i < t.len() implies is_drawn(#[trigger] t[i]) by {
        assert(t[i] == s[i]);
    }
    lemma_fill_row(g, y, t);
    let n = g.width / CELL;
    assert(n * CELL + CELL > g.width) by (nonlinear_arith)
        requires n == g.width / CELL;
    assert(is_drawn(s[s.len() - 1]));
}

impl Color {
    pub open spec fn white_spec() -> Color {
        Color { r: 255, g: 255, b: 255 }
    }

    pub open spec fn black_spec() -> Color {
        Color { r: 0, g: 0, b: 0 }
    }
}

} // verus!
