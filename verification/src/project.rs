//! Perspective projection of a ray hit onto the 3D view: the marched
//! distance is projected onto the player's facing direction (removing the
//! fish-eye distortion of raw Euclidean distance), and the wall becomes a
//! one-pixel-wide vertical strip whose height is inversely proportional to
//! that perpendicular distance.

use vstd::prelude::*;
use vstd::arithmetic::div_mod::lemma_div_is_ordered;
use vstd::arithmetic::div_mod::lemma_div_basics_5;
use crate::framebuffer::Framebuffer;
use crate::framebuffer::in_rect;
use crate::raycast::RayHit;
use crate::raycast::cone_overlay;
use crate::raycast::cone_plotted;
use crate::raycast::sample_marched;
use crate::raycast::sample_plots_at;
use crate::raycast::march_ray;
use crate::raycast::sample_cell;
use crate::raycast::sample_hit;
use crate::raycast::SCALE;
use crate::raycast::SCALE_SQ;
use crate::tilemap::Cell;
use crate::tilemap::TileMap;

verus! {

/// The height in pixels of the wall strip for a hit at marched distance
/// `t_fp`, seen at an angle whose cosine relative to the facing direction is
/// `rel_cos_fp` (both fixed point): the view height divided by the
/// perpendicular distance `t * cos`, with a floor of one fixed-point unit
/// step on the distance so that a degenerate (zero or negative) projection
/// cannot blow the division up.
pub open spec fn wall_height_spec(view_h: int, t_fp: int, rel_cos_fp: int) -> int {
    let perp = (t_fp * rel_cos_fp) / 65536;
    let clamped = if perp < 1 {
        1int
    } else {
        perp
    };
    (view_h * 65536) / clamped
}

/// The topmost row of a wall strip of the given hit, centered on the view
/// midline: `view_h/2 - height/2`, where the height follows the
/// perpendicular-distance formula (negative when the strip overtops the
/// view; drawing clips it).
pub open spec fn strip_top(view_h: int, t_fp: int, rel_cos_fp: int) -> int {
    view_h / 2 - wall_height_spec(view_h, t_fp, rel_cos_fp) / 2
}

/// The strip height depends on the hit only through the perpendicular
/// distance `t * cos`: two columns whose marched distances and ray-to-facing
/// cosines have equal products get equal strip heights. In particular two
/// columns at angles symmetric about the facing direction have equal
/// cosines, so walls hit at the same marched distance project to the same
/// height, scaled by the perpendicular projection and not by the raw
/// distance alone.
pub proof fn lemma_fisheye_perpendicular(view_h: int, t1: int, c1: int, t2: int, c2: int)
    requires
        t1 * c1 == t2 * c2,
    ensures
        wall_height_spec(view_h, t1, c1) == wall_height_spec(view_h, t2, c2),
{
}

/// Computes the fish-eye-corrected strip height for a hit at distance
/// `t_fp` with ray-to-facing cosine `rel_cos_fp`.
pub fn wall_height(view_h: usize, t_fp: i64, rel_cos_fp: i64) -> (r: usize)
    requires
        0 <= t_fp <= SCALE_SQ,
        -SCALE <= rel_cos_fp <= SCALE,
        view_h <= 32767,
    ensures
        r == wall_height_spec(view_h as int, t_fp as int, rel_cos_fp as int),
        r <= view_h * 65536,
{
    proof {
        assert(-(65536int * 65536 * 65536) <= t_fp * rel_cos_fp <= 65536int * 65536 * 65536)
            by (nonlinear_arith)
            requires
                0 <= t_fp <= 65536int * 65536,
                -65536 <= rel_cos_fp <= 65536,
        ;
    }
    let prod: i64 = t_fp * rel_cos_fp;
    let clamped: i64 = if prod < SCALE {
        proof {
            lemma_div_is_ordered(prod as int, 65536int * 65536 * 65536, 65536);
            lemma_div_is_ordered(prod as int, 65535int, 65536);
            assert(65535int / 65536 == 0);
        }
        1
    } else {
        proof {
            lemma_div_is_ordered(65536int, prod as int, 65536);
            assert(65536int / 65536 == 1);
            lemma_div_is_ordered(prod as int, 65536int * 65536 * 65536, 65536);
            assert((65536int * 65536 * 65536) / 65536 == 65536 * 65536) by (nonlinear_arith);
        }
        ((prod as u64) / (SCALE as u64)) as i64
    };
    proof {
        assert(clamped == (if (t_fp as int * rel_cos_fp as int) / 65536 < 1 {
            1int
        } else {
            (t_fp as int * rel_cos_fp as int) / 65536
        }));
        lemma_div_basics_5(view_h as int * 65536, clamped as int);
    }
    let num: u64 = (view_h as u64) * 65536;
    let q: u64 = num / (clamped as u64);
    proof {
        assert(q <= num);
    }
    q as usize
}

/// Draws a one-pixel-wide vertical strip of the given height at column `x`,
/// vertically centered on the buffer's midline and clipped to the buffer:
/// exactly the in-bounds cells of column `x` whose row lies in
/// `[mid - height/2, mid - height/2 + height)` take `color`.
pub fn draw_wall_strip(fb: &mut Framebuffer, x: usize, height_px: usize, color: u32)
    requires
        old(fb).wf(),
        x < usize::MAX,
        old(fb).h() <= 65536,
        height_px <= 2147483647,
    ensures
        final(fb).wf(),
        final(fb).w() == old(fb).w(),
        final(fb).h() == old(fb).h(),
        forall|ax: int, ay: int|
            0 <= ax < old(fb).w() && 0 <= ay < old(fb).h() ==> #[trigger] final(fb).at(ax, ay)
                == if ax == x && old(fb).h() / 2 - height_px / 2 <= ay < old(fb).h() / 2
                - height_px / 2 + height_px {
                color
            } else {
                old(fb).at(ax, ay)
            },
{
    let mid = fb.height() / 2;
    let half = height_px / 2;
    let y0: usize = if half >= mid {
        0
    } else {
        mid - half
    };
    let hh: usize = if half >= mid {
        height_px - (half - mid)
    } else {
        height_px
    };
    fb.fill_rect(x, y0, 1, hh, color);
    proof {
        assert forall|ax: int, ay: int| 0 <= ax < old(fb).w() && 0 <= ay < old(fb).h() implies
            (in_rect(ax, ay, x as int, y0 as int, 1, hh as int) <==> (ax == x && old(fb).h() / 2
            - height_px / 2 <= ay < old(fb).h() / 2 - height_px / 2 + height_px)) by {
            assert(y0 + hh == old(fb).h() / 2 - height_px / 2 + height_px);
        }
    }
}

/// Renders one output column: marches the ray along `(dx_fp, dy_fp)`,
/// painting the cone overlay onto the minimap, and on a wall hit draws the
/// perspective-corrected strip at column `view_offset + i`, colored by the
/// wall material's palette entry. The returned hit is the first sample over
/// a wall cell, if any.
pub fn render_column(
    fb: &mut Framebuffer,
    map: &TileMap,
    palette: &Vec<u32>,
    px_fp: i64,
    py_fp: i64,
    dx_fp: i64,
    dy_fp: i64,
    rel_cos_fp: i64,
    step_fp: i64,
    n_samples: usize,
    rect_w: usize,
    rect_h: usize,
    view_offset: usize,
    i: usize,
    cone_color: u32,
) -> (r: Option<RayHit>)
    requires
        old(fb).wf(),
        map.wf(),
        map.materials_below(palette@.len() as int),
        0 <= px_fp <= SCALE_SQ,
        0 <= py_fp <= SCALE_SQ,
        -SCALE <= dx_fp <= SCALE,
        -SCALE <= dy_fp <= SCALE,
        -SCALE <= rel_cos_fp <= SCALE,
        0 < step_fp <= SCALE,
        n_samples <= 65536,
        1 <= rect_w <= 4096,
        1 <= rect_h <= 4096,
        map.w() <= 4096,
        map.h() <= 4096,
        old(fb).h() <= 32767,
        view_offset + i < usize::MAX,
    ensures
        final(fb).wf(),
        final(fb).w() == old(fb).w(),
        final(fb).h() == old(fb).h(),
        r matches Some(hit) ==> hit.k < n_samples && sample_hit(
            *map,
            px_fp as int,
            py_fp as int,
            dx_fp as int,
            dy_fp as int,
            step_fp as int,
            hit.k as int,
        ) && sample_cell(
            *map,
            px_fp as int,
            py_fp as int,
            dx_fp as int,
            dy_fp as int,
            step_fp as int,
            hit.k as int,
        ) == Cell::Material(hit.material) && hit.t_fp == hit.k * step_fp && (forall|k2: int|
            0 <= k2 < hit.k ==> !sample_hit(
                *map,
                px_fp as int,
                py_fp as int,
                dx_fp as int,
                dy_fp as int,
                step_fp as int,
                k2,
            )),
        r is None ==> forall|k2: int|
            0 <= k2 < n_samples ==> !sample_hit(
                *map,
                px_fp as int,
                py_fp as int,
                dx_fp as int,
                dy_fp as int,
                step_fp as int,
                k2,
            ),
        r is None ==> cone_overlay(
            *old(fb),
            *final(fb),
            map.w() * rect_w,
            map.h() * rect_h,
            cone_color,
        ),
        r is None ==> forall|k2: int|
            0 <= k2 < n_samples ==> #[trigger] cone_plotted(
                *final(fb),
                *map,
                px_fp as int,
                py_fp as int,
                dx_fp as int,
                dy_fp as int,
                step_fp as int,
                rect_w as int,
                rect_h as int,
                cone_color,
                k2,
            ),
        forall|ax: int, ay: int|
            0 <= ax < old(fb).w() && 0 <= ay < old(fb).h() ==> #[trigger] final(fb).at(ax, ay)
                == old(fb).at(ax, ay) || (0 <= ax < map.w() * rect_w && 0 <= ay < map.h() * rect_h
                && final(fb).at(ax, ay) == cone_color) || (r matches Some(hit) && ax == view_offset
                + i && strip_top(old(fb).h(), hit.t_fp as int, rel_cos_fp as int) <= ay < strip_top(
                old(fb).h(),
                hit.t_fp as int,
                rel_cos_fp as int,
            ) + wall_height_spec(old(fb).h(), hit.t_fp as int, rel_cos_fp as int) && final(fb).at(
                ax,
                ay,
            ) == palette@[hit.material as int]),
        r matches Some(hit) ==> view_offset + i < old(fb).w() ==> forall|ay: int|
            0 <= ay < old(fb).h() && strip_top(old(fb).h(), hit.t_fp as int, rel_cos_fp as int)
                <= ay < strip_top(old(fb).h(), hit.t_fp as int, rel_cos_fp as int)
                + wall_height_spec(old(fb).h(), hit.t_fp as int, rel_cos_fp as int)
                ==> #[trigger] final(fb).at(view_offset + i, ay) == palette@[hit.material as int],
        map.w() * rect_w <= view_offset ==> forall|k2: int|
            0 <= k2 < n_samples && sample_marched(
                *map,
                px_fp as int,
                py_fp as int,
                dx_fp as int,
                dy_fp as int,
                step_fp as int,
                k2,
            ) ==> #[trigger] cone_plotted(
                *final(fb),
                *map,
                px_fp as int,
                py_fp as int,
                dx_fp as int,
                dy_fp as int,
                step_fp as int,
                rect_w as int,
                rect_h as int,
                cone_color,
                k2,
            ),
        forall|ax: int, ay: int|
            0 <= ax < old(fb).w() && 0 <= ay < old(fb).h() && ax != view_offset + i
                && #[trigger] final(fb).at(ax, ay) != old(fb).at(ax, ay) ==> exists|k2: int|
                0 <= k2 < n_samples && sample_marched(
                    *map,
                    px_fp as int,
                    py_fp as int,
                    dx_fp as int,
                    dy_fp as int,
                    step_fp as int,
                    k2,
                ) && #[trigger] sample_plots_at(
                    *map,
                    px_fp as int,
                    py_fp as int,
                    dx_fp as int,
                    dy_fp as int,
                    step_fp as int,
                    rect_w as int,
                    rect_h as int,
                    k2,
                    ax,
                    ay,
                ),
{
    let ghost fb0: Framebuffer = *fb;
    let hit_opt = march_ray(
        fb,
        map,
        px_fp,
        py_fp,
        dx_fp,
        dy_fp,
        step_fp,
        n_samples,
        rect_w,
        rect_h,
        cone_color,
    );
    match hit_opt {
        None => None,
        Some(hit) => {
            let ghost fb_mid: Framebuffer = *fb;
            proof {
                assert(0 <= hit.t_fp <= 65536int * 65536) by (nonlinear_arith)
                    requires
                        hit.t_fp == hit.k * step_fp,
                        0 <= hit.k <= 65536,
                        0 < step_fp <= 65536,
                ;
            }
            let height_px = wall_height(fb.height(), hit.t_fp, rel_cos_fp);
            proof {
                let qx = crate::raycast::ray_qx(
                    px_fp as int,
                    dx_fp as int,
                    step_fp as int,
                    hit.k as int,
                );
                let qy = crate::raycast::ray_qx(
                    py_fp as int,
                    dy_fp as int,
                    step_fp as int,
                    hit.k as int,
                );
                vstd::arithmetic::div_mod::lemma_div_pos_is_pos(qx, 65536int * 65536);
                vstd::arithmetic::div_mod::lemma_div_pos_is_pos(qy, 65536int * 65536);
                assert(map.cell(qx / (65536int * 65536), qy / (65536int * 65536))
                    == Cell::Material(hit.material));
                assert(hit.material < palette@.len());
            }
            let color = palette[hit.material as usize];
            draw_wall_strip(fb, view_offset + i, height_px, color);
            proof {
                assert forall|ax: int, ay: int|
                    0 <= ax < fb0.w() && 0 <= ay < fb0.h() implies #[trigger] fb.at(ax, ay)
                    == fb0.at(ax, ay) || (0 <= ax < map.w() * rect_w && 0 <= ay < map.h() * rect_h
                    && fb.at(ax, ay) == cone_color) || (ax == view_offset + i && strip_top(
                    fb0.h(),
                    hit.t_fp as int,
                    rel_cos_fp as int,
                ) <= ay < strip_top(fb0.h(), hit.t_fp as int, rel_cos_fp as int)
                    + wall_height_spec(fb0.h(), hit.t_fp as int, rel_cos_fp as int) && fb.at(
                    ax,
                    ay,
                ) == palette@[hit.material as int]) by {
                    assert(fb_mid.at(ax, ay) == fb0.at(ax, ay) || (0 <= ax < map.w() * rect_w && 0
                        <= ay < map.h() * rect_h && fb_mid.at(ax, ay) == cone_color));
                }
                if map.w() * rect_w <= view_offset {
                    assert forall|k2: int|
                        0 <= k2 < n_samples && sample_marched(
                            *map,
                            px_fp as int,
                            py_fp as int,
                            dx_fp as int,
                            dy_fp as int,
                            step_fp as int,
                            k2,
                        ) implies #[trigger] cone_plotted(
                        *fb,
                        *map,
                        px_fp as int,
                        py_fp as int,
                        dx_fp as int,
                        dy_fp as int,
                        step_fp as int,
                        rect_w as int,
                        rect_h as int,
                        cone_color,
                        k2,
                    ) by {
                        if crate::raycast::sample_in_map(
                            *map,
                            px_fp as int,
                            py_fp as int,
                            dx_fp as int,
                            dy_fp as int,
                            step_fp as int,
                            k2,
                        ) {
                            let q2x = crate::raycast::ray_qx(
                                px_fp as int,
                                dx_fp as int,
                                step_fp as int,
                                k2,
                            );
                            let q2y = crate::raycast::ray_qx(
                                py_fp as int,
                                dy_fp as int,
                                step_fp as int,
                                k2,
                            );
                            map.lemma_dims();
                            crate::raycast::lemma_div_bound_above(
                                q2x,
                                65536int * 65536,
                                map.w(),
                            );
                            assert(q2x * rect_w >= 0 && q2x * rect_w < (map.w() * rect_w) * (
                            65536int * 65536)) by (nonlinear_arith)
                                requires
                                    0 <= q2x < map.w() * (65536int * 65536),
                                    rect_w >= 1,
                            ;
                            crate::raycast::lemma_div_below(
                                q2x * rect_w,
                                65536int * 65536,
                                map.w() * rect_w,
                            );
                            assert(q2y * rect_h >= 0) by (nonlinear_arith)
                                requires
                                    0 <= q2y,
                                    rect_h >= 1,
                            ;
                            vstd::arithmetic::div_mod::lemma_div_pos_is_pos(
                                q2x * rect_w,
                                65536int * 65536,
                            );
                            vstd::arithmetic::div_mod::lemma_div_pos_is_pos(
                                q2y * rect_h,
                                65536int * 65536,
                            );
                            assert(cone_plotted(
                                fb_mid,
                                *map,
                                px_fp as int,
                                py_fp as int,
                                dx_fp as int,
                                dy_fp as int,
                                step_fp as int,
                                rect_w as int,
                                rect_h as int,
                                cone_color,
                                k2,
                            ));
                        }
                    }
                }
            }
            Some(RayHit { k: hit.k, t_fp: hit.t_fp, material: hit.material })
        },
    }
}

} // verus!
