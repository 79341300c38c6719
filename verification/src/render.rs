//! Layout of pixels onto terminal cells and the full list of writes needed
//! to draw one frame.
//!
//! Each pixel covers a horizontal run of two adjacent cells, so single
//! pixels stay visible in a cell grid that is taller than it is wide. Cells
//! that fall outside the drawing area are silently dropped.

use vstd::arithmetic::div_mod::lemma_fundamental_div_mod_converse;
use vstd::prelude::*;

use crate::grid::ImageGrid;
use crate::pixel::ColorClass;
use crate::pixel::Pixel;
use crate::pixel::classify;
use crate::pixel::classify_spec;
use crate::pixel::glyph_for;
use crate::pixel::opaque_glyph;

verus! {

/// One write to the terminal: a cell position inside the drawing area, the
/// glyph put there, and its color.
#[derive(Clone, Copy, Debug, PartialEq, Eq)]
pub struct DrawCommand {
    /// Cell column, counted from the left edge of the drawing area.
    pub col: u16,
    /// Cell row, counted from the top edge of the drawing area.
    pub row: u16,
    /// The braille glyph put into the cell.
    pub glyph: char,
    /// The color the glyph is drawn in; never `Transparent`.
    pub color: ColorClass,
}

/// The cells pixel `(x, y)` covers: a run of two cells starting at column
/// `2 * x` on row `y`, each kept only when it lies inside a drawing area of
/// `cols` by `rows` cells.
pub open spec fn pixel_cells(x: int, y: int, cols: u16, rows: u16) -> Seq<(u16, u16)> {
    if 0 <= y < rows {
        let first = if 0 <= 2 * x < cols {
            Seq::<(u16, u16)>::empty().push(((2 * x) as u16, y as u16))
        } else {
            Seq::<(u16, u16)>::empty()
        };
        if 0 <= 2 * x + 1 < cols {
            first.push(((2 * x + 1) as u16, y as u16))
        } else {
            first
        }
    } else {
        Seq::empty()
    }
}

/// The write that paints color `c` into one cell.
pub open spec fn command_at(c: ColorClass, cell: (u16, u16)) -> DrawCommand {
    DrawCommand { col: cell.0, row: cell.1, glyph: opaque_glyph(c), color: c }
}

/// The writes one pixel contributes: none when it is transparent, else one
/// write per surviving cell of its run, in its class color and glyph.
pub open spec fn pixel_commands(p: Pixel, x: int, y: int, cols: u16, rows: u16) -> Seq<
    DrawCommand,
> {
    let c = classify_spec(p);
    if c is Transparent {
        Seq::empty()
    } else {
        pixel_cells(x, y, cols, rows).map_values(|cell: (u16, u16)| command_at(c, cell))
    }
}

/// The writes contributed by the first `n` pixels of a row-major frame of
/// the given width.
pub open spec fn frame_commands(
    pixels: Seq<Pixel>,
    width: u32,
    cols: u16,
    rows: u16,
    n: nat,
) -> Seq<DrawCommand>
    decreases n,
{
    if n == 0 || width == 0 {
        Seq::empty()
    } else {
        let i = (n - 1) as int;
        frame_commands(pixels, width, cols, rows, (n - 1) as nat) + pixel_commands(
            pixels[i],
            i % (width as int),
            i / (width as int),
            cols,
            rows,
        )
    }
}

/// Every cell of a pixel's run that survives clipping lies inside the
/// drawing area: a target at or beyond the bounds is dropped, never kept.
pub proof fn lemma_cells_clipped(x: int, y: int, cols: u16, rows: u16)
    ensures
        forall|i: int|
            0 <= i < pixel_cells(x, y, cols, rows).len() ==> (#[trigger] pixel_cells(
                x,
                y,
                cols,
                rows,
            )[i]).0 < cols && pixel_cells(x, y, cols, rows)[i].1 < rows,
{
}

/// No write of a frame ever lands outside the drawing area, and none of
/// them is transparent: out-of-area cells and transparent pixels are
/// dropped silently, never written.
pub proof fn lemma_frame_commands_clipped(
    pixels: Seq<Pixel>,
    width: u32,
    cols: u16,
    rows: u16,
    n: nat,
)
    ensures
        forall|i: int|
            0 <= i < frame_commands(pixels, width, cols, rows, n).len() ==> {
                let cmd = #[trigger] frame_commands(pixels, width, cols, rows, n)[i];
                &&& cmd.col < cols
                &&& cmd.row < rows
                &&& !(cmd.color is Transparent)
            },
    decreases n,
{
    if n > 0 && width > 0 {
        lemma_frame_commands_clipped(pixels, width, cols, rows, (n - 1) as nat);
        let i = (n - 1) as int;
        lemma_cells_clipped(i % (width as int), i / (width as int), cols, rows);
    }
}

/// Clipping loses nothing else: every write a pixel inside the frame
/// contributes is present in the frame's command list.
pub proof fn lemma_frame_commands_complete(
    pixels: Seq<Pixel>,
    width: u32,
    cols: u16,
    rows: u16,
    n: nat,
    i: int,
    j: int,
)
    requires
        width > 0,
        0 <= i < n,
        0 <= j < pixel_commands(
            pixels[i],
            i % (width as int),
            i / (width as int),
            cols,
            rows,
        ).len(),
    ensures
        frame_commands(pixels, width, cols, rows, n).contains(
            pixel_commands(pixels[i], i % (width as int), i / (width as int), cols, rows)[j],
        ),
    decreases n,
{
    let cmd = pixel_commands(pixels[i], i % (width as int), i / (width as int), cols, rows)[j];
    let head = frame_commands(pixels, width, cols, rows, (n - 1) as nat);
    if i == n - 1 {
        assert(frame_commands(pixels, width, cols, rows, n)[head.len() + j] == cmd);
    } else {
        lemma_frame_commands_complete(pixels, width, cols, rows, (n - 1) as nat, i, j);
        let k = choose|k: int| 0 <= k < head.len() && head[k] == cmd;
        assert(frame_commands(pixels, width, cols, rows, n)[k] == cmd);
    }
}

/// When `area_too_small` warns: the area has fewer columns than the two
/// cells every pixel covers, or fewer rows than a quarter of the pixel rows.
pub open spec fn area_too_small_spec(width: u32, height: u32, cols: u16, rows: u16) -> bool {
    cols < 2 * width || rows < height / 4
}

/// Whether a drawing area of `cols` by `rows` cells is too small to show
/// the whole image, so that a warning should be rendered. Drawing still
/// goes on, clipped, in either case.
pub fn area_too_small(width: u32, height: u32, cols: u16, rows: u16) -> (r: bool)
    ensures
        r == area_too_small_spec(width, height, cols, rows),
{
    (cols as u64) < 2 * (width as u64) || (rows as u64) < (height as u64) / 4
}

/// The terminal cells covered by pixel `(x, y)`: its horizontal run,
/// clipped to a drawing area of `cols` by `rows` cells. A target at or
/// beyond the area bounds is dropped without error, never returned.
pub fn cell_targets(x: u32, y: u32, cols: u16, rows: u16) -> (v: Vec<(u16, u16)>)
    ensures
        v@ == pixel_cells(x as int, y as int, cols, rows),
        forall|i: int|
            0 <= i < v@.len() ==> (#[trigger] v@[i]).0 < cols && v@[i].1 < rows,
{
    let mut v: Vec<(u16, u16)> = Vec::new();
    if y < rows as u32 {
        let cx: u64 = 2 * (x as u64);
        if cx < cols as u64 {
            v.push((cx as u16, y as u16));
        }
        if cx + 1 < cols as u64 {
            v.push(((cx + 1) as u16, y as u16));
        }
    }
    proof {
        assert(v@ =~= pixel_cells(x as int, y as int, cols, rows));
        lemma_cells_clipped(x as int, y as int, cols, rows);
    }
    v
}

/// Computes every terminal write needed to draw the image in an area of
/// `cols` by `rows` cells. Pixels are visited row by row from the top;
/// a transparent pixel leaves its cells untouched, every other pixel
/// paints the surviving cells of its run with its class color, a blank
/// braille glyph for black and the full braille glyph otherwise.
pub fn render_commands(img: &ImageGrid, cols: u16, rows: u16) -> (v: Vec<DrawCommand>)
    requires
        img.wf(),
    ensures
        v@ == frame_commands(
            img.pixel_seq(),
            img.spec_width(),
            cols,
            rows,
            (img.spec_width() * img.spec_height()) as nat,
        ),
        forall|i: int|
            0 <= i < v@.len() ==> (#[trigger] v@[i]).col < cols && v@[i].row < rows && !(
            v@[i].color is Transparent),
{
    let width = img.width();
    let height = img.height();
    let mut v: Vec<DrawCommand> = Vec::new();
    let mut y: u32 = 0;
    while y < height
        invariant
            img.wf(),
            width == img.spec_width(),
            height == img.spec_height(),
            y <= height,
            v@ == frame_commands(
                img.pixel_seq(),
                width,
                cols,
                rows,
                (y * width) as nat,
            ),
        decreases height - y,
    {
        let mut x: u32 = 0;
        while x < width
            invariant
                img.wf(),
                width == img.spec_width(),
                height == img.spec_height(),
                y < height,
                x <= width,
                v@ == frame_commands(
                    img.pixel_seq(),
                    width,
                    cols,
                    rows,
                    (y * width + x) as nat,
                ),
            decreases width - x,
        {
            let ghost n: int = y * width + x;
            proof {
                lemma_row_major_bound(x as int, y as int, width as int, height as int);
                lemma_fundamental_div_mod_converse(n, width as int, y as int, x as int);
            }
            let ghost prev: Seq<DrawCommand> = v@;
            let p = img.get_pixel(x, y);
            let c = classify(p);
            match glyph_for(c) {
                None => {
                    assert(pixel_commands(p, x as int, y as int, cols, rows) =~= Seq::empty());
                },
                Some(glyph) => {
                    if y < rows as u32 {
                        let cx: u64 = 2 * (x as u64);
                        if cx < cols as u64 {
                            v.push(
                                DrawCommand {
                                    col: cx as u16,
                                    row: y as u16,
                                    glyph,
                                    color: c,
                                },
                            );
                        }
                        if cx + 1 < cols as u64 {
                            v.push(
                                DrawCommand {
                                    col: (cx + 1) as u16,
                                    row: y as u16,
                                    glyph,
                                    color: c,
                                },
                            );
                        }
                    }
                    proof {
                        assert(v@ =~= prev + pixel_commands(p, x as int, y as int, cols, rows));
                    }
                },
            }
            proof {
                assert(v@ =~= frame_commands(
                    img.pixel_seq(),
                    width,
                    cols,
                    rows,
                    (n + 1) as nat,
                ));
            }
            x = x + 1;
        }
        proof {
            assert((y + 1) * (width as int) == y * (width as int) + width) by (nonlinear_arith);
        }
        y = y + 1;
    }
    proof {
        assert((height as int) * (width as int) == (width as int) * (height as int))
            by (nonlinear_arith);
        lemma_frame_commands_clipped(
            img.pixel_seq(),
            width,
            cols,
            rows,
            (img.spec_width() * img.spec_height()) as nat,
        );
    }
    v
}

/// A row-major pixel position below the last row stays below the pixel
/// count.
proof fn lemma_row_major_bound(x: int, y: int, width: int, height: int) by (nonlinear_arith)
    requires
        0 <= x < width,
        0 <= y < height,
    ensures
        0 <= y * width + x < width * height,
        y * width + x + 1 <= width * height,
{
}

} // verus!
