use vstd::prelude::*;

verus! {

/// The braille dot (as a bit of the pattern) at column `x` (0 or 1) and row
/// `y` (0 to 3) of a character cell; no dot elsewhere.
pub open spec fn spec_braille_dot(x: u32, y: u32) -> u8 {
    if x == 0 && y == 0 {
        0x01
    } else if x == 0 && y == 1 {
        0x02
    } else if x == 0 && y == 2 {
        0x04
    } else if x == 0 && y == 3 {
        0x40
    } else if x == 1 && y == 0 {
        0x08
    } else if x == 1 && y == 1 {
        0x10
    } else if x == 1 && y == 2 {
        0x20
    } else if x == 1 && y == 3 {
        0x80
    } else {
        0
    }
}

/// Maps a pixel position in a character cell to its braille dot.
pub fn braille_dot(x: u32, y: u32) -> (dot: u8)
    ensures
        dot == spec_braille_dot(x, y),
{
    match (x, y) {
        (0, 0) => 0x01,
        (0, 1) => 0x02,
        (0, 2) => 0x04,
        (0, 3) => 0x40,
        (1, 0) => 0x08,
        (1, 1) => 0x10,
        (1, 2) => 0x20,
        (1, 3) => 0x80,
        _ => 0,
    }
}

/// The dots lit for a pixel at (`x`, `y`): its own and those of its
/// neighbours above, below, left and right inside the cell, so that one pixel
/// shows as a thick dot.
pub open spec fn thick_dots(x: u32, y: u32) -> u8 {
    spec_braille_dot(x, y) | (if y > 0 {
        spec_braille_dot(x, (y - 1) as u32)
    } else {
        0
    }) | (if y < 3 {
        spec_braille_dot(x, (y + 1) as u32)
    } else {
        0
    }) | (if x > 0 {
        spec_braille_dot((x - 1) as u32, y)
    } else {
        0
    }) | (if x < 1 {
        spec_braille_dot((x + 1) as u32, y)
    } else {
        0
    })
}

/// Lights the dots of a pixel at (`x`, `y`) in `mask`, with its neighbours.
pub fn add_pixel(mask: &mut u8, x: u32, y: u32)
    ensures
        *final(mask) == *old(mask) | thick_dots(x, y),
{
    let ghost start = *mask;
    let a = braille_dot(x, y);
    let b = if y > 0 { braille_dot(x, y - 1) } else { 0 };
    let c = if y < 3 { braille_dot(x, y + 1) } else { 0 };
    let d = if x > 0 { braille_dot(x - 1, y) } else { 0 };
    let e = if x < 1 { braille_dot(x + 1, y) } else { 0 };
    *mask |= a;
    *mask |= b;
    *mask |= c;
    *mask |= d;
    *mask |= e;
    assert(*mask == start | (a | b | c | d | e)) by (bit_vector)
        requires
            *mask == (((((start | a) | b) | c) | d) | e),
    ;
}

/// Whether a pixel is drawn: not transparent, and bright enough (channel sum
/// over 90) or colourful enough (channel spread over 35).
pub open spec fn spec_is_visible(pixel: [u8; 4]) -> bool {
    let r = pixel[0] as int;
    let g = pixel[1] as int;
    let b = pixel[2] as int;
    let max = if r >= g && r >= b {
        r
    } else if g >= b {
        g
    } else {
        b
    };
    let min = if r <= g && r <= b {
        r
    } else if g <= b {
        g
    } else {
        b
    };
    pixel[3] != 0 && (r + g + b > 90 || max - min > 35)
}

/// Whether a pixel is drawn; dull and transparent pixels are not.
pub fn is_visible(pixel: [u8; 4]) -> (visible: bool)
    ensures
        visible == spec_is_visible(pixel),
{
    if pixel[3] == 0 {
        return false;
    }
    let r = pixel[0] as i16;
    let g = pixel[1] as i16;
    let b = pixel[2] as i16;
    let max = r.max(g).max(b);
    let min = r.min(g).min(b);
    let chroma = max - min;
    let luminance = r + g + b;
    luminance > 90 || chroma > 35
}

/// A character cell of the camera picture: the dots to draw and their
/// average colour.
#[derive(Clone, Copy, Debug, PartialEq, Eq, Structural)]
pub struct BrailleCell {
    pub mask: u8,
    pub red: u8,
    pub green: u8,
    pub blue: u8,
}

/// The column of the `k`-th sample of a cell (samples go row by row).
pub open spec fn sample_x(k: int) -> u32 {
    (k % 2) as u32
}

/// The row of the `k`-th sample of a cell.
pub open spec fn sample_y(k: int) -> u32 {
    (k / 2) as u32
}

/// The dots lit by the first `k` samples.
pub open spec fn cell_mask(pixels: Seq<[u8; 4]>, k: int) -> u8
    decreases k,
{
    if k <= 0 {
        0
    } else if spec_is_visible(pixels[k - 1]) {
        cell_mask(pixels, k - 1) | thick_dots(sample_x(k - 1), sample_y(k - 1))
    } else {
        cell_mask(pixels, k - 1)
    }
}

/// The sum of channel `c` over the visible ones among the first `k` samples.
pub open spec fn channel_sum(pixels: Seq<[u8; 4]>, k: int, c: int) -> int
    decreases k,
{
    if k <= 0 {
        0
    } else if spec_is_visible(pixels[k - 1]) {
        channel_sum(pixels, k - 1, c) + pixels[k - 1][c] as int
    } else {
        channel_sum(pixels, k - 1, c)
    }
}

/// How many of the first `k` samples are visible.
pub open spec fn visible_count(pixels: Seq<[u8; 4]>, k: int) -> int
    decreases k,
{
    if k <= 0 {
        0
    } else if spec_is_visible(pixels[k - 1]) {
        visible_count(pixels, k - 1) + 1
    } else {
        visible_count(pixels, k - 1)
    }
}

proof fn lemma_sums_bounded(pixels: Seq<[u8; 4]>, k: int, c: int)
    requires
        0 <= k <= pixels.len(),
        0 <= c < 4,
    ensures
        0 <= channel_sum(pixels, k, c) <= 255 * visible_count(pixels, k),
        0 <= visible_count(pixels, k) <= k,
    decreases k,
{
    if k > 0 {
        lemma_sums_bounded(pixels, k - 1, c);
    }
}

/// The cell drawn from eight samples, given row by row (two per row): `None`
/// when no sample is visible (the cell is blank), else the dots of the
/// visible samples and their average colour.
pub open spec fn spec_braille_cell(pixels: Seq<[u8; 4]>) -> Option<BrailleCell> {
    if visible_count(pixels, 8) == 0 {
        None
    } else {
        Some(
            BrailleCell {
                mask: cell_mask(pixels, 8),
                red: (channel_sum(pixels, 8, 0) / visible_count(pixels, 8)) as u8,
                green: (channel_sum(pixels, 8, 1) / visible_count(pixels, 8)) as u8,
                blue: (channel_sum(pixels, 8, 2) / visible_count(pixels, 8)) as u8,
            },
        )
    }
}

/// The cell drawn from its eight samples, given row by row (two per row).
pub fn braille_cell(pixels: &[[u8; 4]; 8]) -> (cell: Option<BrailleCell>)
    ensures
        cell == spec_braille_cell(pixels@),
{
    let mut mask: u8 = 0;
    let mut red: u32 = 0;
    let mut green: u32 = 0;
    let mut blue: u32 = 0;
    let mut samples: u32 = 0;
    let mut k: usize = 0;
    while k < 8
        invariant
            0 <= k <= 8,
            pixels@.len() == 8,
            mask == cell_mask(pixels@, k as int),
            red == channel_sum(pixels@, k as int, 0),
            green == channel_sum(pixels@, k as int, 1),
            blue == channel_sum(pixels@, k as int, 2),
            samples == visible_count(pixels@, k as int),
        decreases 8 - k,
    {
        proof {
            lemma_sums_bounded(pixels@, k as int, 0);
            lemma_sums_bounded(pixels@, k as int, 1);
            lemma_sums_bounded(pixels@, k as int, 2);
        }
        let pixel = pixels[k];
        if is_visible(pixel) {
            let sub_x = (k % 2) as u32;
            let sub_y = (k / 2) as u32;
            add_pixel(&mut mask, sub_x, sub_y);
            red = red + pixel[0] as u32;
            green = green + pixel[1] as u32;
            blue = blue + pixel[2] as u32;
            samples = samples + 1;
        }
        k = k + 1;
    }
    if samples == 0 {
        return None;
    }
    proof {
        lemma_sums_bounded(pixels@, 8, 0);
        lemma_sums_bounded(pixels@, 8, 1);
        lemma_sums_bounded(pixels@, 8, 2);
        assert(red / samples <= 255) by (nonlinear_arith)
            requires
                red <= 255 * samples,
                samples > 0,
        ;
        assert(green / samples <= 255) by (nonlinear_arith)
            requires
                green <= 255 * samples,
                samples > 0,
        ;
        assert(blue / samples <= 255) by (nonlinear_arith)
            requires
                blue <= 255 * samples,
                samples > 0,
        ;
    }
    Some(
        BrailleCell {
            mask,
            red: (red / samples) as u8,
            green: (green / samples) as u8,
            blue: (blue / samples) as u8,
        },
    )
}

/// The braille dots of the cell positions are Unicode's: dots 1, 2, 3 and 7
/// down the left column (bits 0x01, 0x02, 0x04, 0x40) and dots 4, 5, 6 and 8
/// down the right one (bits 0x08, 0x10, 0x20, 0x80); a pixel lights its own
/// dot and the dots next to it above, below and across.
pub proof fn lemma_braille_dots()
    ensures
        spec_braille_dot(0, 0) == 0x01,
        spec_braille_dot(0, 1) == 0x02,
        spec_braille_dot(0, 2) == 0x04,
        spec_braille_dot(0, 3) == 0x40,
        spec_braille_dot(1, 0) == 0x08,
        spec_braille_dot(1, 1) == 0x10,
        spec_braille_dot(1, 2) == 0x20,
        spec_braille_dot(1, 3) == 0x80,
        thick_dots(0, 0) == 0x01u8 | 0x02u8 | 0x08u8,
        thick_dots(0, 1) == 0x02u8 | 0x01u8 | 0x04u8 | 0x10u8,
        thick_dots(0, 2) == 0x04u8 | 0x02u8 | 0x40u8 | 0x20u8,
        thick_dots(0, 3) == 0x40u8 | 0x04u8 | 0x80u8,
        thick_dots(1, 0) == 0x08u8 | 0x10u8 | 0x01u8,
        thick_dots(1, 1) == 0x10u8 | 0x08u8 | 0x20u8 | 0x02u8,
        thick_dots(1, 2) == 0x20u8 | 0x10u8 | 0x80u8 | 0x04u8,
        thick_dots(1, 3) == 0x80u8 | 0x20u8 | 0x40u8,
{
    assert(0x01u8 | 0u8 | 0x02u8 | 0u8 | 0x08u8 == 0x01u8 | 0x02u8 | 0x08u8) by (bit_vector);
    assert(0x02u8 | 0x01u8 | 0x04u8 | 0 | 0x10u8 == 0x02u8 | 0x01u8 | 0x04u8 | 0x10u8) by (bit_vector);
    assert(0x04u8 | 0x02u8 | 0x40u8 | 0 | 0x20u8 == 0x04u8 | 0x02u8 | 0x40u8 | 0x20u8) by (bit_vector);
    assert(0x40u8 | 0x04u8 | 0 | 0 | 0x80u8 == 0x40u8 | 0x04u8 | 0x80u8) by (bit_vector);
    assert(0x08u8 | 0 | 0x10u8 | 0x01u8 | 0 == 0x08u8 | 0x10u8 | 0x01u8) by (bit_vector);
    assert(0x10u8 | 0x08u8 | 0x20u8 | 0x02u8 | 0 == 0x10u8 | 0x08u8 | 0x20u8 | 0x02u8) by (bit_vector);
    assert(0x20u8 | 0x10u8 | 0x80u8 | 0x04u8 | 0 == 0x20u8 | 0x10u8 | 0x80u8 | 0x04u8) by (bit_vector);
    assert(0x80u8 | 0x20u8 | 0 | 0x40u8 | 0 == 0x80u8 | 0x20u8 | 0x40u8) by (bit_vector);
}

/// The dots that one pixel lights at sample `k` of a cell (samples go row by
/// row, two per row), as Unicode braille bits: its own dot and its
/// neighbours'.
pub open spec fn single_pixel_dots(k: int) -> u8 {
    if k == 0 {
        0x0b
    } else if k == 1 {
        0x19
    } else if k == 2 {
        0x17
    } else if k == 3 {
        0x3a
    } else if k == 4 {
        0x66
    } else if k == 5 {
        0xb4
    } else if k == 6 {
        0xc4
    } else {
        0xe0
    }
}

proof fn lemma_single_sample_sums(pixels: Seq<[u8; 4]>, k: int, j: int)
    requires
        pixels.len() == 8,
        0 <= k < 8,
        0 <= j <= 8,
        forall|i: int| 0 <= i < 8 ==> (spec_is_visible(#[trigger] pixels[i]) <==> i == k),
    ensures
        cell_mask(pixels, j) == if j > k {
            thick_dots(sample_x(k), sample_y(k))
        } else {
            0u8
        },
        visible_count(pixels, j) == if j > k {
            1int
        } else {
            0int
        },
        forall|c: int|
            0 <= c < 4 ==> #[trigger] channel_sum(pixels, j, c) == if j > k {
                pixels[k][c] as int
            } else {
                0int
            },
    decreases j,
{
    if j > 0 {
        lemma_single_sample_sums(pixels, k, j - 1);
        let t = thick_dots(sample_x(k), sample_y(k));
        assert(0u8 | t == t) by (bit_vector);
        assert forall|c: int| 0 <= c < 4 implies #[trigger] channel_sum(pixels, j, c) == if j > k {
            pixels[k][c] as int
        } else {
            0int
        } by {
            assert(channel_sum(pixels, j - 1, c) == if j - 1 > k {
                pixels[k][c] as int
            } else {
                0int
            });
        }
    }
}

/// A cell with one visible pixel shows that pixel's colour and lights, in
/// Unicode's braille bits, the pixel's dot and its neighbours'; for instance
/// a pixel at column 0, row 2 lights dots 0x04, 0x02, 0x40 and 0x20
/// (U+2866).
pub proof fn lemma_single_pixel_cell(pixels: Seq<[u8; 4]>, k: int)
    requires
        pixels.len() == 8,
        0 <= k < 8,
        forall|i: int| 0 <= i < 8 ==> (spec_is_visible(#[trigger] pixels[i]) <==> i == k),
    ensures
        spec_braille_cell(pixels) == Some(
            BrailleCell {
                mask: single_pixel_dots(k),
                red: pixels[k][0],
                green: pixels[k][1],
                blue: pixels[k][2],
            },
        ),
{
    lemma_single_sample_sums(pixels, k, 8);
    lemma_braille_dots();
    assert(channel_sum(pixels, 8, 0) == pixels[k][0] as int);
    assert(channel_sum(pixels, 8, 1) == pixels[k][1] as int);
    assert(channel_sum(pixels, 8, 2) == pixels[k][2] as int);
    assert(0x01u8 | 0x02u8 | 0x08u8 == 0x0bu8) by (bit_vector);
    assert(0x08u8 | 0x10u8 | 0x01u8 == 0x19u8) by (bit_vector);
    assert(0x02u8 | 0x01u8 | 0x04u8 | 0x10u8 == 0x17u8) by (bit_vector);
    assert(0x10u8 | 0x08u8 | 0x20u8 | 0x02u8 == 0x3au8) by (bit_vector);
    assert(0x04u8 | 0x02u8 | 0x40u8 | 0x20u8 == 0x66u8) by (bit_vector);
    assert(0x20u8 | 0x10u8 | 0x80u8 | 0x04u8 == 0xb4u8) by (bit_vector);
    assert(0x40u8 | 0x04u8 | 0x80u8 == 0xc4u8) by (bit_vector);
    assert(0x80u8 | 0x20u8 | 0x40u8 == 0xe0u8) by (bit_vector);
}

/// `char::from_u32`. Its documentation says that it gives the character
/// with the code point `code` exactly when `code` is a Unicode scalar value
/// (below 0xD800, or from 0xE000 to 0x10FFFF) and `None` otherwise; the
/// contract claims that.
#[verifier::external_body]
fn char_from_u32(code: u32) -> (decoded: Option<char>)
    ensures
        decoded is Some <==> (code < 0xD800 || (0xE000 <= code <= 0x10FFFF)),
        decoded matches Some(ch) ==> ch as u32 == code,
{
    char::from_u32(code)
}

/// The braille character showing the dots of `mask`.
pub fn braille_char(mask: u8) -> (c: char)
    ensures
        c as u32 == 0x2800 + mask,
{
    match char_from_u32(0x2800 + mask as u32) {
        Some(c) => c,
        None => ' ',
    }
}

/// The eight samples of the cell at column `x` and row `y` of a picture
/// `width` pixels wide, given row by row: its two columns of pixels from
/// `2 * x`, in its four rows of pixels from `4 * y`.
pub open spec fn cell_samples(image: Seq<[u8; 4]>, width: int, x: int, y: int) -> Seq<[u8; 4]> {
    Seq::new(8, |k: int| image[(4 * y + k / 2) * width + 2 * x + k % 2])
}

/// The index in a row-major list of `columns` cells of the cell at column
/// `x` and row `y`.
pub open spec fn cell_index(columns: int, x: int, y: int) -> int {
    y * columns + x
}

/// Draws a terminal area of `columns` by `rows` cells from a picture of
/// `width` by `height` pixels given row by row: `None` when the picture is
/// smaller than the 2 by 4 pixels per cell that the area needs (nothing is
/// drawn then), else every cell, row by row, drawn from its eight samples.
pub fn braille_picture(image: &Vec<[u8; 4]>, width: u32, height: u32, columns: u16, rows: u16) -> (cells:
    Option<Vec<Option<BrailleCell>>>)
    requires
        image@.len() == width * height,
    ensures
        cells is None <==> (width < columns * 2 || height < rows * 4),
        cells matches Some(c) ==> {
            &&& c@.len() == rows * columns
            &&& forall|x: int, y: int|
                0 <= x < columns && 0 <= y < rows ==> #[trigger] c@[cell_index(
                    columns as int,
                    x,
                    y,
                )] == spec_braille_cell(cell_samples(image@, width as int, x, y))
        },
{
    if width < columns as u32 * 2 || height < rows as u32 * 4 {
        return None;
    }
    let w = width as usize;
    let mut cells: Vec<Option<BrailleCell>> = Vec::new();
    let mut y: u16 = 0;
    while y < rows
        invariant
            image@.len() == width * height,
            w == width,
            width >= columns * 2,
            height >= rows * 4,
            y <= rows,
            cells@.len() == y * columns,
            forall|xx: int, yy: int|
                0 <= xx < columns && 0 <= yy < y ==> #[trigger] cells@[cell_index(
                    columns as int,
                    xx,
                    yy,
                )] == spec_braille_cell(cell_samples(image@, width as int, xx, yy)),
        decreases rows - y,
    {
        let mut x: u16 = 0;
        while x < columns
            invariant
                image@.len() == width * height,
                w == width,
                width >= columns * 2,
                height >= rows * 4,
                y < rows,
                x <= columns,
                cells@.len() == y * columns + x,
                forall|xx: int, yy: int|
                    (0 <= xx < columns && 0 <= yy < y) || (0 <= xx < x && yy == y)
                        ==> #[trigger] cells@[cell_index(columns as int, xx, yy)]
                        == spec_braille_cell(cell_samples(image@, width as int, xx, yy)),
            decreases columns - x,
        {
            proof {
                assert((4 * y + 3) * width + 2 * x + 1 < width * height) by (nonlinear_arith)
                    requires
                        4 * y + 3 < height,
                        2 * x + 1 < width,
                ;
                assert(0 <= (4 * y) * width) by (nonlinear_arith);
                assert((4 * y + 1) * width == 4 * y * width + width) by (nonlinear_arith);
                assert((4 * y + 2) * width == 4 * y * width + 2 * width) by (nonlinear_arith);
                assert((4 * y + 3) * width == 4 * y * width + 3 * width) by (nonlinear_arith);
                assert(image@.len() == image.len());
            }
            let r0 = 4 * (y as usize) * w;
            let r1 = r0 + w;
            let r2 = r1 + w;
            let r3 = r2 + w;
            let c0 = 2 * (x as usize);
            let pixels = [
                image[r0 + c0],
                image[r0 + c0 + 1],
                image[r1 + c0],
                image[r1 + c0 + 1],
                image[r2 + c0],
                image[r2 + c0 + 1],
                image[r3 + c0],
                image[r3 + c0 + 1],
            ];
            proof {
                let samples = cell_samples(image@, width as int, x as int, y as int);
                assert((4 * y + 1) * width == 4 * y * width + width) by (nonlinear_arith);
                assert((4 * y + 2) * width == 4 * y * width + 2 * width) by (nonlinear_arith);
                assert((4 * y + 3) * width == 4 * y * width + 3 * width) by (nonlinear_arith);
                assert(pixels@ =~= samples);
            }
            let cell = braille_cell(&pixels);
            proof {
                assert(cell_index(columns as int, x as int, y as int) == cells@.len());
            }
            cells.push(cell);
            proof {
                assert forall|xx: int, yy: int|
                    (0 <= xx < columns && 0 <= yy < y) || (0 <= xx < x + 1 && yy == y) implies
                    #[trigger] cells@[cell_index(columns as int, xx, yy)] == spec_braille_cell(
                    cell_samples(image@, width as int, xx, yy),
                ) by {
                    if yy < y {
                        assert(cell_index(columns as int, xx, yy) < y * columns) by (nonlinear_arith)
                            requires
                                0 <= xx < columns,
                                0 <= yy < y,
                        ;
                    } else if xx < x {
                        assert(cell_index(columns as int, xx, yy) < y * columns + x);
                    }
                }
            }
            x = x + 1;
        }
        proof {
            assert((y + 1) * columns == y * columns + columns) by (nonlinear_arith);
        }
        y = y + 1;
    }
    Some(cells)
}

} // verus!
