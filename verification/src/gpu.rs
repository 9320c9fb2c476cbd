//! Drawing into the frame buffer: rectangles, the boot logo and the
//! progress bar.
//!
//! The frame buffer holds the screen row by row, four bytes a pixel: blue,
//! green, red, and a byte that is always 255. Everything here paints
//! opaque pixels; what lies outside the screen is left out. Setting the
//! display up and flushing the buffer to it are the caller's part.

use vstd::prelude::*;
use vstd::arithmetic::div_mod::{lemma_fundamental_div_mod, lemma_fundamental_div_mod_converse};
use crate::bytes::{le32, read_u32};

verus! {

/// Bytes that a pixel takes in the frame buffer.
pub const BYTES_PER_PIXEL: usize = 4;

/// A colour: red, green, blue.
pub type Rgb = (u8, u8, u8);

/// The column of the pixel that byte `k` of the frame buffer belongs to.
pub open spec fn px_of(k: int, width: int) -> int {
    (k / 4) % width
}

/// The row of the pixel that byte `k` of the frame buffer belongs to.
pub open spec fn py_of(k: int, width: int) -> int {
    (k / 4) / width
}

/// The byte that a pixel of colour `color` holds at place `c` of its four.
pub open spec fn channel(color: Rgb, c: int) -> u8 {
    if c == 0 {
        color.2
    } else if c == 1 {
        color.1
    } else if c == 2 {
        color.0
    } else {
        255
    }
}

/// Whether a frame buffer has the size of a screen.
pub open spec fn fits_screen(fb: Seq<u8>, width: u32, height: u32) -> bool {
    fb.len() == width * height * 4
}

/// Whether the pixel in column `px` of row `py` lies in the rectangle of
/// `w` by `h` pixels whose top left corner is at column `x` of row `y`.
pub open spec fn in_rect(px: int, py: int, x: int, y: int, w: int, h: int) -> bool {
    x <= px < x + w && y <= py < y + h
}

/// The frame buffer after the rectangle has been filled with `color`.
pub open spec fn rect_filled(
    fb: Seq<u8>,
    width: int,
    x: int,
    y: int,
    w: int,
    h: int,
    color: Rgb,
) -> Seq<u8> {
    Seq::new(
        fb.len(),
        |k: int|
            if in_rect(px_of(k, width), py_of(k, width), x, y, w, h) {
                channel(color, k % 4)
            } else {
                fb[k]
            },
    )
}

/// The bytes of the pixel in column `x` of row `y` are the four from
/// `(y * width + x) * 4` on.
proof fn lemma_pixel_bytes(k: int, width: int, x: int, y: int)
    requires
        0 < width,
        0 <= x < width,
        0 <= y,
        0 <= k,
    ensures
        (px_of(k, width) == x && py_of(k, width) == y) <==> ((y * width + x) * 4 <= k < (y * width
            + x) * 4 + 4),
{
    let p = k / 4;
    lemma_fundamental_div_mod(p, width);
    if p == y * width + x {
        lemma_fundamental_div_mod_converse(p, width, y, x);
    }
    if px_of(k, width) == x && py_of(k, width) == y {
        assert(width * (p / width) == (p / width) * width) by (nonlinear_arith);
    }
}

/// A pixel on the screen has its bytes in the frame buffer.
proof fn lemma_pixel_in_buffer(width: int, height: int, x: int, y: int)
    requires
        0 <= x < width,
        0 <= y < height,
    ensures
        0 <= y * width + x,
        (y * width + x) * 4 + 4 <= width * height * 4,
        y * width <= width * height,
{
    assert(y * width + x + 1 <= width * height && 0 <= y * width) by (nonlinear_arith)
        requires
            0 <= x < width,
            0 <= y < height,
    ;
}

/// A pixel off the screen has no bytes in the frame buffer.
proof fn lemma_off_screen(fb: Seq<u8>, width: u32, height: u32, x: int, y: int, k: int)
    requires
        fits_screen(fb, width, height),
        !(0 <= x < width && 0 <= y < height),
        0 <= k < fb.len(),
    ensures
        !(px_of(k, width as int) == x && py_of(k, width as int) == y),
{
    let wd = width as int;
    if width > 0 {
        lemma_fundamental_div_mod(k / 4, wd);
        if py_of(k, wd) == y && 0 <= x < width {
            if y >= height {
                assert(wd * ((k / 4) / wd) >= wd * height) by (nonlinear_arith)
                    requires
                        (k / 4) / wd >= height,
                        wd > 0,
                ;
            }
        }
    }
}

/// Paints the pixel in column `x` of row `y`, if the screen has it.
pub fn draw_pixel(fb: &mut [u8], width: u32, height: u32, x: u32, y: u32, color: Rgb)
    requires
        fits_screen(old(fb)@, width, height),
    ensures
        final(fb)@ == rect_filled(old(fb)@, width as int, x as int, y as int, 1, 1, color),
{
    if x >= width || y >= height {
        proof {
            assert forall|k: int| 0 <= k < fb@.len() implies !(px_of(k, width as int) == x && py_of(
                k,
                width as int,
            ) == y) by {
                lemma_off_screen(fb@, width, height, x as int, y as int, k);
            }
            assert(fb@ =~= rect_filled(old(fb)@, width as int, x as int, y as int, 1, 1, color));
        }
        return ;
    }
    proof {
        lemma_pixel_in_buffer(width as int, height as int, x as int, y as int);
    }
    let len = fb.len();
    let idx = ((y as usize) * (width as usize) + (x as usize)) * 4;
    fb[idx] = color.2;
    fb[idx + 1] = color.1;
    fb[idx + 2] = color.0;
    fb[idx + 3] = 255;
    proof {
        assert forall|k: int| 0 <= k < fb@.len() implies fb@[k] == rect_filled(
            old(fb)@,
            width as int,
            x as int,
            y as int,
            1,
            1,
            color,
        )[k] by {
            lemma_pixel_bytes(k, width as int, x as int, y as int);
        }
        assert(fb@ =~= rect_filled(old(fb)@, width as int, x as int, y as int, 1, 1, color));
    }
}

/// The frame buffer while a rectangle is being filled: the rows above row
/// `y + rows` are done, and of that row the columns before `x + cols`.
pub open spec fn rect_partly_filled(
    fb: Seq<u8>,
    width: int,
    x: int,
    y: int,
    w: int,
    rows: int,
    cols: int,
    color: Rgb,
) -> Seq<u8> {
    Seq::new(
        fb.len(),
        |k: int|
            if in_rect(px_of(k, width), py_of(k, width), x, y, w, rows) || in_rect(
                px_of(k, width),
                py_of(k, width),
                x,
                y + rows,
                cols,
                1,
            ) {
                channel(color, k % 4)
            } else {
                fb[k]
            },
    )
}

/// Fills the rectangle of `w` by `h` pixels whose top left corner is at
/// column `x` of row `y` with `color`, as far as it lies on the screen.
pub fn fill_rect(
    fb: &mut [u8],
    width: u32,
    height: u32,
    x: u32,
    y: u32,
    w: u32,
    h: u32,
    color: Rgb,
)
    requires
        fits_screen(old(fb)@, width, height),
    ensures
        final(fb)@ == rect_filled(
            old(fb)@,
            width as int,
            x as int,
            y as int,
            w as int,
            h as int,
            color,
        ),
{
    let ghost start = fb@;
    let ghost wd = width as int;
    let mut dy: u32 = 0;
    assert(fb@ =~= rect_filled(start, wd, x as int, y as int, w as int, 0, color));
    while dy < h
        invariant
            dy <= h,
            wd == width,
            start == old(fb)@,
            fits_screen(fb@, width, height),
            fb@ == rect_filled(start, wd, x as int, y as int, w as int, dy as int, color),
        decreases h - dy,
    {
        let mut dx: u32 = 0;
        assert(fb@ =~= rect_partly_filled(
            start,
            wd,
            x as int,
            y as int,
            w as int,
            dy as int,
            0,
            color,
        ));
        while dx < w
            invariant
                dx <= w,
                dy < h,
                wd == width,
                fits_screen(fb@, width, height),
                fb@.len() == start.len(),
                fb@ == rect_partly_filled(
                    start,
                    wd,
                    x as int,
                    y as int,
                    w as int,
                    dy as int,
                    dx as int,
                    color,
                ),
            decreases w - dx,
        {
            let px = x as u64 + dx as u64;
            let py = y as u64 + dy as u64;
            let ghost before = fb@;
            if px < width as u64 && py < height as u64 {
                draw_pixel(fb, width, height, px as u32, py as u32, color);
            } else {
                proof {
                    assert forall|k: int| 0 <= k < fb@.len() implies !(px_of(k, wd) == px && py_of(
                        k,
                        wd,
                    ) == py) by {
                        lemma_off_screen(fb@, width, height, px as int, py as int, k);
                    }
                    assert(fb@ =~= rect_filled(before, wd, px as int, py as int, 1, 1, color));
                }
            }
            dx += 1;
            assert(fb@ =~= rect_partly_filled(
                start,
                wd,
                x as int,
                y as int,
                w as int,
                dy as int,
                dx as int,
                color,
            ));
        }
        dy += 1;
        assert(fb@ =~= rect_filled(start, wd, x as int, y as int, w as int, dy as int, color));
    }
}

/// Bytes in the headers of a bitmap file.
pub const BMP_HEADER_SIZE: usize = 54;

/// Rows by which the logo stands above the middle of the screen.
pub const LOGO_RAISE: i64 = 50;

/// Rows from the bottom of the logo to the progress bar.
pub const BAR_GAP: i64 = 60;

/// Columns of the progress bar.
pub const BAR_WIDTH: u32 = 300;

/// Rows of the progress bar.
pub const BAR_HEIGHT: u32 = 6;

/// Rows of the logo that the progress bar is placed under.
pub const LOGO_ROWS: i64 = 558;

/// The least brightness of a logo pixel that is drawn.
pub const LUMA_FLOOR: u32 = 10;

/// The colour of the track of the progress bar.
pub const TRACK_COLOR: Rgb = (40, 40, 45);

/// The colour of the progress bar.
pub const BAR_COLOR: Rgb = (255, 255, 255);

/// A 32-bit word read as a signed number.
pub open spec fn signed(v: u32) -> int {
    if v < 0x8000_0000 {
        v as int
    } else {
        v - 0x1_0000_0000
    }
}

/// Half of `n`, rounded towards zero.
pub open spec fn half(n: int) -> int {
    if n >= 0 {
        n / 2
    } else {
        -((-n) / 2)
    }
}

/// Where a bitmap lies on the screen and in its file.
#[derive(Debug, Clone, Copy, PartialEq, Eq, Structural)]
pub struct LogoLayout {
    /// Where in the file the pixels start.
    pub data_offset: u64,
    /// Columns of the bitmap.
    pub columns: i64,
    /// Rows of the bitmap.
    pub rows: i64,
    /// Whether the file holds the bottom row first.
    pub bottom_up: bool,
    /// Bytes from one row to the next in the file.
    pub row_size: i64,
    /// The screen column of the bitmap's first column.
    pub x_off: i64,
    /// The screen row of the bitmap's first row.
    pub y_off: i64,
}

/// Whether a file is a bitmap: it is longer than the headers and starts
/// with the letters `BM`.
pub open spec fn is_bitmap(logo: Seq<u8>) -> bool {
    logo.len() > BMP_HEADER_SIZE && logo[0] == 0x42 && logo[1] == 0x4d
}

/// The layout of a bitmap of 24 bits a pixel on a screen of `width` by
/// `height`: centred from left to right, and `LOGO_RAISE` rows above the
/// centre from top to bottom. Rows in the file are padded to whole words.
pub open spec fn layout_of(logo: Seq<u8>, width: u32, height: u32) -> LogoLayout {
    let columns = signed(le32(logo, 18));
    let stored_rows = signed(le32(logo, 22));
    let rows = if stored_rows >= 0 {
        stored_rows
    } else {
        -stored_rows
    };
    LogoLayout {
        data_offset: le32(logo, 10) as u64,
        columns: columns as i64,
        rows: rows as i64,
        bottom_up: stored_rows > 0,
        row_size: if columns > 0 {
            ((24 * columns + 31) / 32 * 4) as i64
        } else {
            0
        },
        x_off: half(width - columns) as i64,
        y_off: (half(height - rows) - LOGO_RAISE) as i64,
    }
}

/// Where in the file the pixel in column `dx` of row `dy` lies.
pub open spec fn source_index(l: LogoLayout, dx: int, dy: int) -> int {
    let row = if l.bottom_up {
        l.rows - 1 - dy
    } else {
        dy
    };
    l.data_offset + row * l.row_size + dx * 3
}

/// The colour in which the pixel in column `dx` of row `dy` of the bitmap
/// is drawn; none where the bitmap has no such pixel, where the file ends
/// before it, or where it is darker than `LUMA_FLOOR`.
pub open spec fn logo_color(logo: Seq<u8>, l: LogoLayout, dx: int, dy: int) -> Option<Rgb> {
    let at = source_index(l, dx, dy);
    if 0 <= dx < l.columns && 0 <= dy < l.rows && at + 2 < logo.len() && (logo[at] + logo[at + 1]
        + logo[at + 2]) / 3 >= LUMA_FLOOR {
        Some((logo[at + 2], logo[at + 1], logo[at]))
    } else {
        None
    }
}

/// The frame buffer while the bitmap is being drawn: the rows before row
/// `rows` of the bitmap are done, and of that row the columns before
/// `cols`.
pub open spec fn logo_partly_drawn(
    fb: Seq<u8>,
    width: int,
    logo: Seq<u8>,
    l: LogoLayout,
    rows: int,
    cols: int,
) -> Seq<u8> {
    Seq::new(
        fb.len(),
        |k: int|
            {
                let dx = px_of(k, width) - l.x_off;
                let dy = py_of(k, width) - l.y_off;
                match logo_color(logo, l, dx, dy) {
                    Some(c) => if dy < rows || (dy == rows && dx < cols) {
                        channel(c, k % 4)
                    } else {
                        fb[k]
                    },
                    None => fb[k],
                }
            },
    )
}

/// The frame buffer after the bitmap has been drawn.
pub open spec fn logo_drawn(fb: Seq<u8>, width: int, logo: Seq<u8>, l: LogoLayout) -> Seq<u8> {
    logo_partly_drawn(fb, width, logo, l, l.rows as int, 0)
}

/// The screen column at which the progress bar starts; none on a screen
/// too narrow for it.
pub open spec fn bar_column(width: u32) -> Option<u32> {
    if width >= BAR_WIDTH {
        Some(((width - BAR_WIDTH) / 2) as u32)
    } else {
        None
    }
}

/// The frame buffer after a bar of `w` columns has been drawn in row
/// `row`; unchanged where the screen is too narrow for the progress bar
/// or the row is not one of a screen.
pub open spec fn bar_drawn(fb: Seq<u8>, width: u32, row: int, w: int, color: Rgb) -> Seq<u8> {
    match bar_column(width) {
        Some(x) => if 0 <= row <= u32::MAX {
            rect_filled(fb, width as int, x as int, row, w, BAR_HEIGHT as int, color)
        } else {
            fb
        },
        None => fb,
    }
}

/// The frame buffer after the boot screen has been drawn over it: the
/// logo, and under it the track of the progress bar. Unchanged where the
/// logo is no bitmap.
pub open spec fn boot_screen(fb: Seq<u8>, width: u32, height: u32, logo: Seq<u8>) -> Seq<u8> {
    if is_bitmap(logo) {
        let l = layout_of(logo, width, height);
        bar_drawn(
            logo_drawn(fb, width as int, logo, l),
            width,
            l.y_off + l.rows + BAR_GAP,
            BAR_WIDTH as int,
            TRACK_COLOR,
        )
    } else {
        fb
    }
}

/// The row of the progress bar on a screen of `height` rows.
pub open spec fn progress_row(height: u32) -> int {
    half(height - LOGO_ROWS) - LOGO_RAISE + LOGO_ROWS + BAR_GAP
}

/// The columns of the progress bar at `percent` per cent.
pub open spec fn progress_columns(percent: u32) -> int {
    BAR_WIDTH * percent / 100
}

fn to_signed(v: u32) -> (n: i64)
    ensures
        n == signed(v),
{
    if v < 0x8000_0000 {
        v as i64
    } else {
        v as i64 - 0x1_0000_0000
    }
}

fn halve(n: i64) -> (h: i64)
    requires
        n > i64::MIN,
    ensures
        h == half(n as int),
{
    if n >= 0 {
        ((n as u64) / 2) as i64
    } else {
        -((((-n) as u64) / 2) as i64)
    }
}

/// The layout of a bitmap on a screen of `width` by `height`.
pub fn logo_layout(logo: &[u8], width: u32, height: u32) -> (l: LogoLayout)
    requires
        logo@.len() > BMP_HEADER_SIZE,
    ensures
        l == layout_of(logo@, width, height),
        -0x8000_0000 <= l.columns < 0x8000_0000,
        0 <= l.rows <= 0x8000_0000,
        0 <= l.row_size <= 0x1_8000_0000,
        l.data_offset <= u32::MAX,
        -0x1_0000_0000 <= l.x_off <= 0x1_0000_0000,
        -0x1_0000_0000 <= l.y_off <= 0x1_0000_0000,
{
    let data_offset = read_u32(logo, 10) as u64;
    let columns = to_signed(read_u32(logo, 18));
    let stored_rows = to_signed(read_u32(logo, 22));
    let rows = if stored_rows >= 0 { stored_rows } else { -stored_rows };
    let row_size = if columns > 0 {
        (((24 * columns + 31) as u64 / 32) * 4) as i64
    } else {
        0
    };
    LogoLayout {
        data_offset,
        columns,
        rows,
        bottom_up: stored_rows > 0,
        row_size,
        x_off: halve(width as i64 - columns),
        y_off: halve(height as i64 - rows) - LOGO_RAISE,
    }
}

/// The colour in which the pixel in column `dx` of row `dy` of the bitmap
/// is drawn.
fn logo_pixel(logo: &[u8], l: &LogoLayout, dx: i64, dy: i64) -> (c: Option<Rgb>)
    requires
        0 <= dx < l.columns < 0x8000_0000,
        0 <= dy < l.rows <= 0x8000_0000,
        0 <= l.row_size <= 0x1_8000_0000,
        l.data_offset <= u32::MAX,
    ensures
        c == logo_color(logo@, *l, dx as int, dy as int),
{
    let row = if l.bottom_up { l.rows - 1 - dy } else { dy };
    assert(0 <= row * l.row_size <= 0x8000_0000 * 0x1_8000_0000) by (nonlinear_arith)
        requires
            0 <= row < 0x8000_0000,
            0 <= l.row_size <= 0x1_8000_0000,
    ;
    let at = l.data_offset + (row as u64) * (l.row_size as u64) + (dx as u64) * 3;
    let len = logo.len() as u64;
    if len < 3 || at >= len - 2 {
        return None;
    }
    let i = at as usize;
    let b = logo[i];
    let g = logo[i + 1];
    let r = logo[i + 2];
    let luma = (r as u32 + g as u32 + b as u32) / 3;
    if luma >= LUMA_FLOOR {
        Some((r, g, b))
    } else {
        None
    }
}

/// Draws the bitmap `logo`, laid out as `l`, as far as it lies on the
/// screen.
pub fn draw_logo(fb: &mut [u8], width: u32, height: u32, logo: &[u8], l: &LogoLayout)
    requires
        fits_screen(old(fb)@, width, height),
        -0x8000_0000 <= l.columns < 0x8000_0000,
        0 <= l.rows <= 0x8000_0000,
        0 <= l.row_size <= 0x1_8000_0000,
        l.data_offset <= u32::MAX,
        -0x1_0000_0000 <= l.x_off <= 0x1_0000_0000,
        -0x1_0000_0000 <= l.y_off <= 0x1_0000_0000,
    ensures
        final(fb)@ == logo_drawn(old(fb)@, width as int, logo@, *l),
{
    let ghost start = fb@;
    let ghost wd = width as int;
    let mut dy: i64 = 0;
    assert(fb@ =~= logo_partly_drawn(start, wd, logo@, *l, 0, 0));
    while dy < l.rows
        invariant
            0 <= dy <= l.rows <= 0x8000_0000,
            -0x8000_0000 <= l.columns < 0x8000_0000,
            0 <= l.row_size <= 0x1_8000_0000,
            l.data_offset <= u32::MAX,
            -0x1_0000_0000 <= l.x_off <= 0x1_0000_0000,
            -0x1_0000_0000 <= l.y_off <= 0x1_0000_0000,
            wd == width,
            start == old(fb)@,
            fits_screen(fb@, width, height),
            fb@ == logo_partly_drawn(start, wd, logo@, *l, dy as int, 0),
        decreases l.rows - dy,
    {
        let mut dx: i64 = 0;
        while dx < l.columns
            invariant
                0 <= dx,
                l.columns > 0 ==> dx <= l.columns,
                0 <= dy < l.rows <= 0x8000_0000,
                -0x8000_0000 <= l.columns < 0x8000_0000,
                0 <= l.row_size <= 0x1_8000_0000,
                l.data_offset <= u32::MAX,
                -0x1_0000_0000 <= l.x_off <= 0x1_0000_0000,
                -0x1_0000_0000 <= l.y_off <= 0x1_0000_0000,
                wd == width,
                fits_screen(fb@, width, height),
                fb@.len() == start.len(),
                fb@ == logo_partly_drawn(start, wd, logo@, *l, dy as int, dx as int),
            decreases l.columns - dx,
        {
            let ghost before = fb@;
            let tx = l.x_off + dx;
            let ty = l.y_off + dy;
            match logo_pixel(logo, l, dx, dy) {
                Some(c) => {
                    if 0 <= tx && tx < width as i64 && 0 <= ty && ty < height as i64 {
                        draw_pixel(fb, width, height, tx as u32, ty as u32, c);
                    } else {
                        proof {
                            assert forall|k: int| 0 <= k < before.len() implies !(px_of(k, wd)
                                == tx && py_of(k, wd) == ty) by {
                                lemma_off_screen(before, width, height, tx as int, ty as int, k);
                            }
                        }
                    }
                },
                None => {},
            }
            dx += 1;
            assert(fb@ =~= logo_partly_drawn(start, wd, logo@, *l, dy as int, dx as int));
        }
        dy += 1;
        assert(fb@ =~= logo_partly_drawn(start, wd, logo@, *l, dy as int, 0));
    }
}

/// Draws a bar of `w` columns and `BAR_HEIGHT` rows in row `row`, where the
/// progress bar starts.
fn draw_bar(fb: &mut [u8], width: u32, height: u32, row: i64, w: u32, color: Rgb)
    requires
        fits_screen(old(fb)@, width, height),
    ensures
        final(fb)@ == bar_drawn(old(fb)@, width, row as int, w as int, color),
{
    if width >= BAR_WIDTH && 0 <= row && row <= u32::MAX as i64 {
        fill_rect(fb, width, height, (width - BAR_WIDTH) / 2, row as u32, w, BAR_HEIGHT, color);
    }
}

/// Draws the boot screen over what the frame buffer holds: the logo, a
/// bitmap file, and under it the track of the progress bar.
pub fn draw_boot_screen(fb: &mut [u8], width: u32, height: u32, logo: &[u8])
    requires
        fits_screen(old(fb)@, width, height),
    ensures
        final(fb)@ == boot_screen(old(fb)@, width, height, logo@),
{
    if logo.len() > BMP_HEADER_SIZE && logo[0] == 0x42 && logo[1] == 0x4d {
        let l = logo_layout(logo, width, height);
        draw_logo(fb, width, height, logo, &l);
        draw_bar(fb, width, height, l.y_off + l.rows + BAR_GAP, BAR_WIDTH, TRACK_COLOR);
    }
}

/// The progress to show after `percent` per cent has been reported, and
/// whether the bar has to grow for it: progress never goes back, nor
/// beyond 100.
pub open spec fn progress_after(current: u32, percent: u32) -> u32 {
    let end = if percent > 100 {
        100u32
    } else {
        percent
    };
    if end <= current {
        current
    } else {
        end
    }
}

/// Takes in a report of `percent` per cent. Where that is more than the
/// progress shown, returns the first and the last percentage to draw the
/// bar for, one frame each.
pub fn update_progress(current: &mut u32, percent: u32) -> (frames: Option<(u32, u32)>)
    ensures
        *final(current) == progress_after(*old(current), percent),
        frames == if *final(current) > *old(current) {
            Some((*old(current), *final(current)))
        } else {
            None
        },
{
    let start = *current;
    let end = if percent > 100 { 100 } else { percent };
    if end <= start {
        return None;
    }
    *current = end;
    Some((start, end))
}

/// The faint pixel at the tip of a growing progress bar.
#[derive(Debug, Clone, Copy, PartialEq, Eq)]
pub struct Glow {
    /// The pixel's column.
    pub x: u32,
    /// The pixel's row.
    pub y: u32,
    /// The strengths, out of 255, with which white is blended over the
    /// pixel, one after the other.
    pub alphas: [u8; 7],
}

/// The strengths of the glow: 128 over 2, 4, and so on to 14.
pub open spec fn glow_alphas() -> Seq<u8> {
    seq![64u8, 32u8, 21u8, 16u8, 12u8, 10u8, 9u8]
}

/// Whether the progress bar at `percent` per cent has a glow at its tip:
/// it has begun and is not full, and it lies in a row of a screen wide
/// enough for it.
pub open spec fn glows(width: u32, height: u32, percent: u32) -> bool {
    &&& width >= BAR_WIDTH
    &&& 0 < progress_columns(percent) < BAR_WIDTH
    &&& 0 <= progress_row(height) + BAR_HEIGHT / 2 <= u32::MAX
}

/// The glow at the tip of the progress bar at `percent` per cent: the
/// pixel right of the bar, in its middle row.
pub fn progress_glow(width: u32, height: u32, percent: u32) -> (glow: Option<Glow>)
    requires
        percent <= 100,
    ensures
        match glow {
            Some(g) => {
                &&& glows(width, height, percent)
                &&& g.x == (width - BAR_WIDTH) / 2 + progress_columns(percent)
                &&& g.y == progress_row(height) + BAR_HEIGHT / 2
                &&& g.alphas@ == glow_alphas()
            },
            None => !glows(width, height, percent),
        },
{
    let columns = BAR_WIDTH * percent / 100;
    let row = halve(height as i64 - LOGO_ROWS) - LOGO_RAISE + LOGO_ROWS + BAR_GAP + (BAR_HEIGHT
        / 2) as i64;
    if width < BAR_WIDTH || columns == 0 || columns >= BAR_WIDTH || row < 0 || row > u32::MAX as i64 {
        return None;
    }
    let alphas: [u8; 7] = [64, 32, 21, 16, 12, 10, 9];
    assert(alphas@ =~= glow_alphas());
    Some(Glow { x: (width - BAR_WIDTH) / 2 + columns, y: row as u32, alphas })
}

/// Draws the progress bar at `percent` per cent.
pub fn draw_progress(fb: &mut [u8], width: u32, height: u32, percent: u32)
    requires
        fits_screen(old(fb)@, width, height),
        percent <= 100,
    ensures
        final(fb)@ == bar_drawn(
            old(fb)@,
            width,
            progress_row(height),
            progress_columns(percent),
            BAR_COLOR,
        ),
{
    let row = halve(height as i64 - LOGO_ROWS) - LOGO_RAISE + LOGO_ROWS + BAR_GAP;
    draw_bar(fb, width, height, row, BAR_WIDTH * percent / 100, BAR_COLOR);
}

} // verus!
