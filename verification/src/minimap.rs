//! The minimap rasterizer: every non-empty map cell becomes a filled,
//! scaled rectangle on the framebuffer, colored by the cell material's
//! palette entry.

use vstd::prelude::*;
use vstd::arithmetic::div_mod::lemma_fundamental_div_mod;
use vstd::arithmetic::div_mod::lemma_fundamental_div_mod_converse_div;
use vstd::arithmetic::div_mod::lemma_mod_division_less_than_divisor;
use crate::framebuffer::Framebuffer;
use crate::framebuffer::in_rect;
use crate::tilemap::Cell;
use crate::tilemap::TileMap;

verus! {

/// Why a drawing pass could not run: a map cell references a material index
/// with no palette entry.
#[derive(Clone, Copy, Debug, PartialEq, Eq, Structural)]
pub enum RenderError {
    PaletteIndexOutOfRange,
}

/// A pixel is inside the screen rectangle of cell `i` (of edge `rw`) exactly
/// when integer division by the edge recovers `i`.
pub proof fn lemma_pixel_cell(rw: int, i: int, px: int)
    requires
        rw >= 1,
        0 <= px,
        0 <= i,
    ensures
        (i * rw <= px < i * rw + rw) <==> px / rw == i,
{
    if i * rw <= px < i * rw + rw {
        lemma_fundamental_div_mod_converse_div(px, rw, i, px - i * rw);
    }
    if px / rw == i {
        lemma_fundamental_div_mod(px, rw);
        lemma_mod_division_less_than_divisor(px, rw);
        assert(rw * (px / rw) == i * rw) by (nonlinear_arith)
            requires
                px / rw == i,
        ;
    }
}

/// The color a pixel holds once the minimap cells with
/// `row < done_j || (row == done_j && column < done_i)` have been drawn
/// over the base image `fb0`: the palette color of the cell whose screen
/// rectangle covers the pixel, where that cell is drawn and non-empty, and
/// the base color everywhere else.
pub open spec fn minimap_partial(
    fb0: Framebuffer,
    map: TileMap,
    palette: Seq<u32>,
    rw: int,
    rh: int,
    done_i: int,
    done_j: int,
    px: int,
    py: int,
) -> u32 {
    let ci = px / rw;
    let cj = py / rh;
    if 0 <= ci < map.w() && 0 <= cj < map.h() && (cj < done_j || (cj == done_j && ci < done_i)) {
        match map.cell(ci, cj) {
            Cell::Material(m) => palette[m as int],
            Cell::Empty => fb0.at(px, py),
        }
    } else {
        fb0.at(px, py)
    }
}

/// The color a pixel holds once the whole minimap has been drawn over the
/// base image `fb0`.
pub open spec fn minimap_pixel(
    fb0: Framebuffer,
    map: TileMap,
    palette: Seq<u32>,
    rw: int,
    rh: int,
    px: int,
    py: int,
) -> u32 {
    minimap_partial(fb0, map, palette, rw, rh, 0, map.h(), px, py)
}

/// The color a pixel shows once the minimap has been drawn over a uniform
/// `background`: the palette color of the wall cell whose screen rectangle
/// covers it, and the background over empty cells and beyond the grid.
pub open spec fn minimap_color_over(
    map: TileMap,
    palette: Seq<u32>,
    rw: int,
    rh: int,
    background: u32,
    ax: int,
    ay: int,
) -> u32 {
    let ci = ax / rw;
    let cj = ay / rh;
    if 0 <= ci < map.w() && 0 <= cj < map.h() {
        match map.cell(ci, cj) {
            Cell::Material(m) => palette[m as int],
            Cell::Empty => background,
        }
    } else {
        background
    }
}

/// Draws every non-empty map cell as a filled `rect_w × rect_h` rectangle
/// at `(i * rect_w, j * rect_h)`, colored by its material's palette entry
/// and clipped to the framebuffer. Fails, touching nothing, exactly when
/// some cell's material index has no palette entry.
pub fn render_minimap(
    fb: &mut Framebuffer,
    map: &TileMap,
    palette: &Vec<u32>,
    rect_w: usize,
    rect_h: usize,
) -> (r: Result<(), RenderError>)
    requires
        old(fb).wf(),
        map.wf(),
        rect_w >= 1,
        rect_h >= 1,
        map.w() * rect_w <= usize::MAX,
        map.h() * rect_h <= usize::MAX,
    ensures
        final(fb).wf(),
        final(fb).w() == old(fb).w(),
        final(fb).h() == old(fb).h(),
        r is Ok <==> map.materials_below(palette@.len() as int),
        r is Err ==> r == Err::<(), RenderError>(RenderError::PaletteIndexOutOfRange) && *final(fb)
            == *old(fb),
        r is Ok ==> forall|px: int, py: int|
            0 <= px < old(fb).w() && 0 <= py < old(fb).h() ==> #[trigger] final(fb).at(px, py)
                == minimap_pixel(
                *old(fb),
                *map,
                palette@,
                rect_w as int,
                rect_h as int,
                px,
                py,
            ),
        r is Ok && map.all_empty() ==> forall|px: int, py: int|
            0 <= px < old(fb).w() && 0 <= py < old(fb).h() ==> #[trigger] final(fb).at(px, py)
                == old(fb).at(px, py),
{
    if !map.materials_within(palette.len()) {
        return Err(RenderError::PaletteIndexOutOfRange);
    }
    let ghost fb0: Framebuffer = *fb;
    let map_w = map.width();
    let map_h = map.height();
    let mut j: usize = 0;
    while j < map_h
        invariant
            fb.wf(),
            fb.w() == fb0.w(),
            fb.h() == fb0.h(),
            map.wf(),
            map.materials_below(palette@.len() as int),
            map_w == map.w(),
            map_h == map.h(),
            rect_w >= 1,
            rect_h >= 1,
            map.w() * rect_w <= usize::MAX,
            map.h() * rect_h <= usize::MAX,
            j <= map_h,
            forall|px: int, py: int|
                0 <= px < fb0.w() && 0 <= py < fb0.h() ==> #[trigger] fb.at(px, py)
                    == minimap_partial(
                    fb0,
                    *map,
                    palette@,
                    rect_w as int,
                    rect_h as int,
                    0,
                    j as int,
                    px,
                    py,
                ),
        decreases map_h - j,
    {
        let mut i: usize = 0;
        while i < map_w
            invariant
                fb.wf(),
                fb.w() == fb0.w(),
                fb.h() == fb0.h(),
                map.wf(),
                map.materials_below(palette@.len() as int),
                map_w == map.w(),
                map_h == map.h(),
                rect_w >= 1,
                rect_h >= 1,
                map.w() * rect_w <= usize::MAX,
                map.h() * rect_h <= usize::MAX,
                j < map_h,
                i <= map_w,
                forall|px: int, py: int|
                    0 <= px < fb0.w() && 0 <= py < fb0.h() ==> #[trigger] fb.at(px, py)
                        == minimap_partial(
                        fb0,
                        *map,
                        palette@,
                        rect_w as int,
                        rect_h as int,
                        i as int,
                        j as int,
                        px,
                        py,
                    ),
            decreases map_w - i,
        {
            proof {
                assert(0 <= i * rect_w && i * rect_w + rect_w <= map_w * rect_w && 0 <= j * rect_h
                    && j * rect_h + rect_h <= map_h * rect_h) by (nonlinear_arith)
                    requires
                        i < map_w,
                        j < map_h,
                        rect_w >= 1,
                        rect_h >= 1,
                ;
            }
            let rect_x = i * rect_w;
            let rect_y = j * rect_h;
            let ghost prev: Framebuffer = *fb;
            match map.cell_get(i, j) {
                Cell::Empty => {
                    proof {
                        assert forall|px: int, py: int|
                            0 <= px < fb0.w() && 0 <= py < fb0.h() implies #[trigger] fb.at(px, py)
                            == minimap_partial(
                            fb0,
                            *map,
                            palette@,
                            rect_w as int,
                            rect_h as int,
                            (i + 1) as int,
                            j as int,
                            px,
                            py,
                        ) by {
                            assert(fb.at(px, py) == minimap_partial(
                                fb0,
                                *map,
                                palette@,
                                rect_w as int,
                                rect_h as int,
                                i as int,
                                j as int,
                                px,
                                py,
                            ));
                        }
                    }
                },
                Cell::Material(m) => {
                    let color = palette[m as usize];
                    fb.fill_rect(rect_x, rect_y, rect_w, rect_h, color);
                    proof {
                        assert forall|px: int, py: int|
                            0 <= px < fb0.w() && 0 <= py < fb0.h() implies #[trigger] fb.at(px, py)
                            == minimap_partial(
                            fb0,
                            *map,
                            palette@,
                            rect_w as int,
                            rect_h as int,
                            (i + 1) as int,
                            j as int,
                            px,
                            py,
                        ) by {
                            lemma_pixel_cell(rect_w as int, i as int, px);
                            lemma_pixel_cell(rect_h as int, j as int, py);
                            if in_rect(
                                px,
                                py,
                                rect_x as int,
                                rect_y as int,
                                rect_w as int,
                                rect_h as int,
                            ) {
                                assert(px / (rect_w as int) == i && py / (rect_h as int) == j);
                            } else {
                                assert(fb.at(px, py) == prev.at(px, py));
                                assert(!(px / (rect_w as int) == i && py / (rect_h as int) == j));
                            }
                        }
                    }
                },
            }
            i += 1;
        }
        j += 1;
    }
    Ok(())
}

} // verus!
