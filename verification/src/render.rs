//! The frame renderer and the sequencer: one frame clears the buffer, draws
//! the minimap, and marches one ray per output column of the 3D view; the
//! sequencer steps through frame indices until the run is done.

use vstd::prelude::*;
use crate::framebuffer::Framebuffer;
use crate::minimap::RenderError;
use crate::minimap::minimap_color_over;
use crate::minimap::render_minimap;
use crate::project::render_column;
use crate::project::strip_top;
use crate::project::wall_height_spec;
use crate::raycast::cone_overlay;
use crate::raycast::cone_plotted;
use crate::raycast::lemma_empty_map_no_hit;
use crate::raycast::sample_cell;
use crate::raycast::sample_hit;
use crate::raycast::sample_marched;
use crate::raycast::sample_plots_at;
use crate::raycast::SCALE;
use crate::raycast::SCALE_SQ;
use crate::tilemap::Cell;
use crate::tilemap::TileMap;

verus! {

/// The precomputed direction of one output column's ray: the unit direction
/// components and the cosine of the angle between the ray and the player's
/// facing direction, all in fixed point.
pub struct ColumnDir {
    pub dx_fp: i64,
    pub dy_fp: i64,
    pub rel_cos_fp: i64,
}

impl ColumnDir {
    /// Each component is a fixed-point value of magnitude at most one unit,
    /// as a cosine or sine must be.
    pub open spec fn wf(self) -> bool {
        &&& -65536 <= self.dx_fp <= 65536
        &&& -65536 <= self.dy_fp <= 65536
        &&& -65536 <= self.rel_cos_fp <= 65536
    }
}

/// Column `c`'s ray reaches sample `k` (no earlier sample hit) and that
/// sample's minimap pixel is `(ax, ay)`.
pub open spec fn column_plots_at(
    map: TileMap,
    px_fp: int,
    py_fp: int,
    dirs: Seq<ColumnDir>,
    step_fp: int,
    rect_w: int,
    rect_h: int,
    c: int,
    k: int,
    ax: int,
    ay: int,
) -> bool {
    &&& sample_marched(map, px_fp, py_fp, dirs[c].dx_fp as int, dirs[c].dy_fp as int, step_fp, k)
    &&& sample_plots_at(
        map,
        px_fp,
        py_fp,
        dirs[c].dx_fp as int,
        dirs[c].dy_fp as int,
        step_fp,
        rect_w,
        rect_h,
        k,
        ax,
        ay,
    )
}

/// Some ray among the first `ncols` columns plots its cone pixel at
/// `(ax, ay)` while marching.
pub open spec fn cone_covers(
    map: TileMap,
    px_fp: int,
    py_fp: int,
    dirs: Seq<ColumnDir>,
    ncols: int,
    step_fp: int,
    n_samples: int,
    rect_w: int,
    rect_h: int,
    ax: int,
    ay: int,
) -> bool {
    exists|c: int, k: int|
        0 <= c < ncols && 0 <= k < n_samples && #[trigger] column_plots_at(
            map,
            px_fp,
            py_fp,
            dirs,
            step_fp,
            rect_w,
            rect_h,
            c,
            k,
            ax,
            ay,
        )
}

/// Whether a column's ray meets any wall cell within range.
pub open spec fn column_hits(
    map: TileMap,
    px_fp: int,
    py_fp: int,
    dir: ColumnDir,
    step_fp: int,
    n_samples: int,
) -> bool {
    exists|k: int|
        0 <= k < n_samples && #[trigger] sample_hit(
            map,
            px_fp,
            py_fp,
            dir.dx_fp as int,
            dir.dy_fp as int,
            step_fp,
            k,
        )
}

/// The sample index of a column ray's first hit (meaningful when the ray
/// hits at all): the unique hit sample with no hit before it.
pub open spec fn column_first_hit(
    map: TileMap,
    px_fp: int,
    py_fp: int,
    dir: ColumnDir,
    step_fp: int,
    n_samples: int,
) -> int {
    choose|k: int|
        0 <= k < n_samples && #[trigger] sample_hit(
            map,
            px_fp,
            py_fp,
            dir.dx_fp as int,
            dir.dy_fp as int,
            step_fp,
            k,
        ) && sample_marched(map, px_fp, py_fp, dir.dx_fp as int, dir.dy_fp as int, step_fp, k)
}

/// The color a view-region column row shows after a frame: the first hit's
/// palette color on the rows of its perspective-corrected strip, and the
/// background on every other row and whenever the ray misses.
pub open spec fn column_pixel(
    map: TileMap,
    px_fp: int,
    py_fp: int,
    dir: ColumnDir,
    step_fp: int,
    n_samples: int,
    view_h: int,
    palette: Seq<u32>,
    background: u32,
    ay: int,
) -> u32 {
    if column_hits(map, px_fp, py_fp, dir, step_fp, n_samples) {
        let kh = column_first_hit(map, px_fp, py_fp, dir, step_fp, n_samples);
        let t_fp = kh * step_fp;
        if strip_top(view_h, t_fp, dir.rel_cos_fp as int) <= ay < strip_top(
            view_h,
            t_fp,
            dir.rel_cos_fp as int,
        ) + wall_height_spec(view_h, t_fp, dir.rel_cos_fp as int) {
            match sample_cell(map, px_fp, py_fp, dir.dx_fp as int, dir.dy_fp as int, step_fp, kh) {
                Cell::Material(m) => palette[m as int],
                Cell::Empty => background,
            }
        } else {
            background
        }
    } else {
        background
    }
}

/// Renders one frame: resets every pixel to `background`, draws the minimap,
/// then marches one ray per entry of `dirs`, drawing the cone overlay and
/// the perspective-corrected wall strips at columns `view_offset + i`.
/// Fails, touching nothing, exactly when some map cell's material index has
/// no palette entry. On an entirely empty map every pixel outside the
/// minimap canvas — the whole 3D view region included — is left at the
/// background color.
pub fn render_frame(
    fb: &mut Framebuffer,
    map: &TileMap,
    palette: &Vec<u32>,
    px_fp: i64,
    py_fp: i64,
    dirs: &Vec<ColumnDir>,
    step_fp: i64,
    n_samples: usize,
    rect_w: usize,
    rect_h: usize,
    view_offset: usize,
    background: u32,
    cone_color: u32,
) -> (r: Result<(), RenderError>)
    requires
        old(fb).wf(),
        map.wf(),
        0 <= px_fp <= SCALE_SQ,
        0 <= py_fp <= SCALE_SQ,
        forall|c: int| 0 <= c < dirs@.len() ==> (#[trigger] dirs@[c]).wf(),
        0 < step_fp <= SCALE,
        n_samples <= 65536,
        1 <= rect_w <= 4096,
        1 <= rect_h <= 4096,
        map.w() <= 4096,
        map.h() <= 4096,
        old(fb).h() <= 32767,
        map.w() * rect_w <= view_offset,
        view_offset + dirs@.len() < usize::MAX,
    ensures
        final(fb).wf(),
        final(fb).w() == old(fb).w(),
        final(fb).h() == old(fb).h(),
        r is Ok <==> map.materials_below(palette@.len() as int),
        r is Err ==> r == Err::<(), RenderError>(RenderError::PaletteIndexOutOfRange) && *final(fb)
            == *old(fb),
        r is Ok && map.all_empty() ==> forall|ax: int, ay: int|
            0 <= ax < old(fb).w() && 0 <= ay < old(fb).h() && !(ax < map.w() * rect_w && ay
                < map.h() * rect_h) ==> #[trigger] final(fb).at(ax, ay) == background,
        r is Ok ==> forall|ax: int, ay: int|
            0 <= ax < old(fb).w() && 0 <= ay < old(fb).h() && !(ax < map.w() * rect_w && ay
                < map.h() * rect_h) && !(view_offset <= ax < view_offset + dirs@.len())
                ==> #[trigger] final(fb).at(ax, ay) == background,
        r is Ok ==> forall|ax: int, ay: int|
            0 <= ax < map.w() * rect_w && 0 <= ay < map.h() * rect_h && ax < old(fb).w() && ay
                < old(fb).h() ==> #[trigger] final(fb).at(ax, ay) == (if cone_covers(
                *map,
                px_fp as int,
                py_fp as int,
                dirs@,
                dirs@.len() as int,
                step_fp as int,
                n_samples as int,
                rect_w as int,
                rect_h as int,
                ax,
                ay,
            ) {
                cone_color
            } else {
                minimap_color_over(
                    *map,
                    palette@,
                    rect_w as int,
                    rect_h as int,
                    background,
                    ax,
                    ay,
                )
            }),
        r is Ok ==> forall|c: int, ay: int|
            0 <= c < dirs@.len() && 0 <= ay < old(fb).h() && view_offset + c < old(fb).w()
                ==> #[trigger] final(fb).at(view_offset + c, ay) == column_pixel(
                *map,
                px_fp as int,
                py_fp as int,
                dirs@[c],
                step_fp as int,
                n_samples as int,
                old(fb).h(),
                palette@,
                background,
                ay,
            ),
{
    if !map.materials_within(palette.len()) {
        return Err(RenderError::PaletteIndexOutOfRange);
    }
    fb.clear(background);
    let ghost fbc: Framebuffer = *fb;
    proof {
        map.lemma_dims();
        assert(map.w() * rect_w <= 4096 * 4096 && map.h() * rect_h <= 4096 * 4096)
            by (nonlinear_arith)
            requires
                0 <= map.w() <= 4096,
                0 <= map.h() <= 4096,
                1 <= rect_w <= 4096,
                1 <= rect_h <= 4096,
        ;
    }
    let minimap_result = render_minimap(fb, map, palette, rect_w, rect_h);
    proof {
        assert(minimap_result is Ok);
    }
    proof {
        assert forall|ax: int, ay: int|
            0 <= ax < old(fb).w() && 0 <= ay < old(fb).h() && !(ax < map.w() * rect_w && ay
                < map.h() * rect_h) implies #[trigger] fb.at(ax, ay) == background by {
            if ax / (rect_w as int) < map.w() && ay / (rect_h as int) < map.h() {
                crate::raycast::lemma_div_bound_above(ax, rect_w as int, map.w());
                crate::raycast::lemma_div_bound_above(ay, rect_h as int, map.h());
            }
        }
        assert forall|ax: int, ay: int|
            0 <= ax < map.w() * rect_w && 0 <= ay < map.h() * rect_h && ax < old(fb).w() && ay
                < old(fb).h() implies #[trigger] fb.at(ax, ay) == minimap_color_over(
            *map,
            palette@,
            rect_w as int,
            rect_h as int,
            background,
            ax,
            ay,
        ) by {
            vstd::arithmetic::div_mod::lemma_div_pos_is_pos(ax, rect_w as int);
            vstd::arithmetic::div_mod::lemma_div_pos_is_pos(ay, rect_h as int);
            crate::raycast::lemma_div_below(ax, rect_w as int, map.w());
            crate::raycast::lemma_div_below(ay, rect_h as int, map.h());
            assert(fbc.at(ax, ay) == background);
        }
    }
    let ghost fb1: Framebuffer = *fb;
    let n_cols = dirs.len();
    let mut i: usize = 0;
    while i < n_cols
        invariant
            fb.wf(),
            fb.w() == old(fb).w(),
            fb.h() == old(fb).h(),
            map.wf(),
            map.materials_below(palette@.len() as int),
            0 <= px_fp <= SCALE_SQ,
            0 <= py_fp <= SCALE_SQ,
            forall|c: int| 0 <= c < dirs@.len() ==> (#[trigger] dirs@[c]).wf(),
            0 < step_fp <= SCALE,
            n_samples <= 65536,
            1 <= rect_w <= 4096,
            1 <= rect_h <= 4096,
            map.w() <= 4096,
            map.h() <= 4096,
            fb.h() <= 32767,
            n_cols == dirs@.len(),
            view_offset + n_cols < usize::MAX,
            i <= n_cols,
            map.w() * rect_w <= view_offset,
            map.all_empty() ==> forall|ax: int, ay: int|
                0 <= ax < old(fb).w() && 0 <= ay < old(fb).h() && !(ax < map.w() * rect_w && ay
                    < map.h() * rect_h) ==> #[trigger] fb.at(ax, ay) == background,
            forall|ax: int, ay: int|
                0 <= ax < old(fb).w() && 0 <= ay < old(fb).h() && !(ax < map.w() * rect_w && ay
                    < map.h() * rect_h) && !(view_offset <= ax < view_offset + i)
                    ==> #[trigger] fb.at(ax, ay) == background,
            forall|ax: int, ay: int|
                0 <= ax < map.w() * rect_w && 0 <= ay < map.h() * rect_h && ax < old(fb).w() && ay
                    < old(fb).h() ==> #[trigger] fb.at(ax, ay) == (if cone_covers(
                    *map,
                    px_fp as int,
                    py_fp as int,
                    dirs@,
                    i as int,
                    step_fp as int,
                    n_samples as int,
                    rect_w as int,
                    rect_h as int,
                    ax,
                    ay,
                ) {
                    cone_color
                } else {
                    minimap_color_over(
                        *map,
                        palette@,
                        rect_w as int,
                        rect_h as int,
                        background,
                        ax,
                        ay,
                    )
                }),
            forall|c: int, ay: int|
                0 <= c < i && 0 <= ay < old(fb).h() && view_offset + c < old(fb).w()
                    ==> #[trigger] fb.at(view_offset + c, ay) == column_pixel(
                    *map,
                    px_fp as int,
                    py_fp as int,
                    dirs@[c],
                    step_fp as int,
                    n_samples as int,
                    old(fb).h(),
                    palette@,
                    background,
                    ay,
                ),
        decreases n_cols - i,
    {
        let dir = ColumnDir {
            dx_fp: dirs[i].dx_fp,
            dy_fp: dirs[i].dy_fp,
            rel_cos_fp: dirs[i].rel_cos_fp,
        };
        let ghost fb_before: Framebuffer = *fb;
        let hit = render_column(
            fb,
            map,
            palette,
            px_fp,
            py_fp,
            dir.dx_fp,
            dir.dy_fp,
            dir.rel_cos_fp,
            step_fp,
            n_samples,
            rect_w,
            rect_h,
            view_offset,
            i,
            cone_color,
        );
        proof {
            assert forall|ax: int, ay: int|
                0 <= ax < old(fb).w() && 0 <= ay < old(fb).h() && !(ax < map.w() * rect_w && ay
                    < map.h() * rect_h) && !(view_offset <= ax < view_offset + i + 1) implies
                #[trigger] fb.at(ax, ay) == background by {
                assert(fb_before.at(ax, ay) == background);
            }
            assert forall|ax: int, ay: int|
                0 <= ax < map.w() * rect_w && 0 <= ay < map.h() * rect_h && ax < old(fb).w() && ay
                    < old(fb).h() implies #[trigger] fb.at(ax, ay) == (if cone_covers(
                *map,
                px_fp as int,
                py_fp as int,
                dirs@,
                i + 1,
                step_fp as int,
                n_samples as int,
                rect_w as int,
                rect_h as int,
                ax,
                ay,
            ) {
                cone_color
            } else {
                minimap_color_over(
                    *map,
                    palette@,
                    rect_w as int,
                    rect_h as int,
                    background,
                    ax,
                    ay,
                )
            }) by {
                assert(ax < view_offset);
                if cone_covers(
                    *map,
                    px_fp as int,
                    py_fp as int,
                    dirs@,
                    i + 1,
                    step_fp as int,
                    n_samples as int,
                    rect_w as int,
                    rect_h as int,
                    ax,
                    ay,
                ) {
                    let (cw, kw) = choose|c: int, k: int|
                        0 <= c < i + 1 && 0 <= k < n_samples && #[trigger] column_plots_at(
                            *map,
                            px_fp as int,
                            py_fp as int,
                            dirs@,
                            step_fp as int,
                            rect_w as int,
                            rect_h as int,
                            c,
                            k,
                            ax,
                            ay,
                        );
                    if cw < i {
                        assert(cone_covers(
                            *map,
                            px_fp as int,
                            py_fp as int,
                            dirs@,
                            i as int,
                            step_fp as int,
                            n_samples as int,
                            rect_w as int,
                            rect_h as int,
                            ax,
                            ay,
                        ));
                        assert(fb_before.at(ax, ay) == cone_color);
                        assert(fb.at(ax, ay) == cone_color);
                    } else {
                        assert(dirs@[i as int].dx_fp == dir.dx_fp && dirs@[i as int].dy_fp
                            == dir.dy_fp);
                        assert(cone_plotted(
                            *fb,
                            *map,
                            px_fp as int,
                            py_fp as int,
                            dir.dx_fp as int,
                            dir.dy_fp as int,
                            step_fp as int,
                            rect_w as int,
                            rect_h as int,
                            cone_color,
                            kw,
                        ));
                        assert(fb.at(ax, ay) == cone_color);
                    }
                } else {
                    if cone_covers(
                        *map,
                        px_fp as int,
                        py_fp as int,
                        dirs@,
                        i as int,
                        step_fp as int,
                        n_samples as int,
                        rect_w as int,
                        rect_h as int,
                        ax,
                        ay,
                    ) {
                        let (cw, kw) = choose|c: int, k: int|
                            0 <= c < i && 0 <= k < n_samples && #[trigger] column_plots_at(
                                *map,
                                px_fp as int,
                                py_fp as int,
                                dirs@,
                                step_fp as int,
                                rect_w as int,
                                rect_h as int,
                                c,
                                k,
                                ax,
                                ay,
                            );
                        assert(cone_covers(
                            *map,
                            px_fp as int,
                            py_fp as int,
                            dirs@,
                            i + 1,
                            step_fp as int,
                            n_samples as int,
                            rect_w as int,
                            rect_h as int,
                            ax,
                            ay,
                        ));
                        assert(false);
                    }
                    assert(fb_before.at(ax, ay) == minimap_color_over(
                        *map,
                        palette@,
                        rect_w as int,
                        rect_h as int,
                        background,
                        ax,
                        ay,
                    ));
                    if fb.at(ax, ay) != fb_before.at(ax, ay) {
                        let kw = choose|k2: int|
                            0 <= k2 < n_samples && sample_marched(
                                *map,
                                px_fp as int,
                                py_fp as int,
                                dir.dx_fp as int,
                                dir.dy_fp as int,
                                step_fp as int,
                                k2,
                            ) && #[trigger] sample_plots_at(
                                *map,
                                px_fp as int,
                                py_fp as int,
                                dir.dx_fp as int,
                                dir.dy_fp as int,
                                step_fp as int,
                                rect_w as int,
                                rect_h as int,
                                k2,
                                ax,
                                ay,
                            );
                        assert(dirs@[i as int].dx_fp == dir.dx_fp && dirs@[i as int].dy_fp
                            == dir.dy_fp);
                        assert(column_plots_at(
                            *map,
                            px_fp as int,
                            py_fp as int,
                            dirs@,
                            step_fp as int,
                            rect_w as int,
                            rect_h as int,
                            i as int,
                            kw,
                            ax,
                            ay,
                        ));
                        assert(cone_covers(
                            *map,
                            px_fp as int,
                            py_fp as int,
                            dirs@,
                            i + 1,
                            step_fp as int,
                            n_samples as int,
                            rect_w as int,
                            rect_h as int,
                            ax,
                            ay,
                        ));
                        assert(false);
                    }
                }
            }
            assert forall|c: int, ay: int|
                0 <= c < i + 1 && 0 <= ay < old(fb).h() && view_offset + c < old(fb).w() implies
                #[trigger] fb.at(view_offset + c, ay) == column_pixel(
                *map,
                px_fp as int,
                py_fp as int,
                dirs@[c],
                step_fp as int,
                n_samples as int,
                old(fb).h(),
                palette@,
                background,
                ay,
            ) by {
                if c < i {
                    assert(fb_before.at(view_offset + c, ay) == column_pixel(
                        *map,
                        px_fp as int,
                        py_fp as int,
                        dirs@[c],
                        step_fp as int,
                        n_samples as int,
                        old(fb).h(),
                        palette@,
                        background,
                        ay,
                    ));
                    assert(view_offset + c != view_offset + i);
                    assert(!(view_offset + c < map.w() * rect_w));
                    assert(fb.at(view_offset + c, ay) == fb_before.at(view_offset + c, ay));
                } else {
                    assert(dirs@[i as int].dx_fp == dir.dx_fp && dirs@[i as int].dy_fp
                        == dir.dy_fp && dirs@[i as int].rel_cos_fp == dir.rel_cos_fp);
                    assert(fb_before.at(view_offset + i, ay) == background);
                    if hit is Some {
                        let h = hit.unwrap();
                        assert(sample_hit(
                            *map,
                            px_fp as int,
                            py_fp as int,
                            dir.dx_fp as int,
                            dir.dy_fp as int,
                            step_fp as int,
                            h.k as int,
                        ));
                        assert(sample_marched(
                            *map,
                            px_fp as int,
                            py_fp as int,
                            dir.dx_fp as int,
                            dir.dy_fp as int,
                            step_fp as int,
                            h.k as int,
                        ));
                        assert(column_hits(
                            *map,
                            px_fp as int,
                            py_fp as int,
                            dirs@[i as int],
                            step_fp as int,
                            n_samples as int,
                        ));
                        let kh = column_first_hit(
                            *map,
                            px_fp as int,
                            py_fp as int,
                            dirs@[i as int],
                            step_fp as int,
                            n_samples as int,
                        );
                        assert(0 <= kh < n_samples && sample_hit(
                            *map,
                            px_fp as int,
                            py_fp as int,
                            dir.dx_fp as int,
                            dir.dy_fp as int,
                            step_fp as int,
                            kh,
                        ) && sample_marched(
                            *map,
                            px_fp as int,
                            py_fp as int,
                            dir.dx_fp as int,
                            dir.dy_fp as int,
                            step_fp as int,
                            kh,
                        ));
                        if kh < h.k {
                            assert(!sample_hit(
                                *map,
                                px_fp as int,
                                py_fp as int,
                                dir.dx_fp as int,
                                dir.dy_fp as int,
                                step_fp as int,
                                kh,
                            ));
                            assert(false);
                        }
                        if kh > h.k {
                            assert(!sample_hit(
                                *map,
                                px_fp as int,
                                py_fp as int,
                                dir.dx_fp as int,
                                dir.dy_fp as int,
                                step_fp as int,
                                h.k as int,
                            ));
                            assert(false);
                        }
                        assert(kh == h.k);
                        assert(kh * step_fp == h.t_fp);
                        if strip_top(old(fb).h(), h.t_fp as int, dir.rel_cos_fp as int) <= ay
                            < strip_top(old(fb).h(), h.t_fp as int, dir.rel_cos_fp as int)
                            + wall_height_spec(old(fb).h(), h.t_fp as int, dir.rel_cos_fp as int) {
                            assert(fb.at(view_offset + i, ay) == palette@[h.material as int]);
                        } else {
                            assert(!(view_offset + i < map.w() * rect_w));
                            assert(fb.at(view_offset + i, ay) == background);
                        }
                    } else {
                        if column_hits(
                            *map,
                            px_fp as int,
                            py_fp as int,
                            dirs@[i as int],
                            step_fp as int,
                            n_samples as int,
                        ) {
                            let kw = choose|k: int|
                                0 <= k < n_samples && #[trigger] sample_hit(
                                    *map,
                                    px_fp as int,
                                    py_fp as int,
                                    dirs@[i as int].dx_fp as int,
                                    dirs@[i as int].dy_fp as int,
                                    step_fp as int,
                                    k,
                                );
                            assert(!sample_hit(
                                *map,
                                px_fp as int,
                                py_fp as int,
                                dir.dx_fp as int,
                                dir.dy_fp as int,
                                step_fp as int,
                                kw,
                            ));
                            assert(false);
                        }
                        assert(!(view_offset + i < map.w() * rect_w));
                        assert(fb.at(view_offset + i, ay) == background);
                    }
                }
            }
            if map.all_empty() {
                if hit is Some {
                    lemma_empty_map_no_hit(
                        *map,
                        px_fp as int,
                        py_fp as int,
                        dir.dx_fp as int,
                        dir.dy_fp as int,
                        step_fp as int,
                        hit.unwrap().k as int,
                    );
                }
                assert(cone_overlay(
                    fb_before,
                    *fb,
                    map.w() * rect_w,
                    map.h() * rect_h,
                    cone_color,
                ));
                assert forall|ax: int, ay: int|
                    0 <= ax < old(fb).w() && 0 <= ay < old(fb).h() && !(ax < map.w() * rect_w && ay
                        < map.h() * rect_h) implies #[trigger] fb.at(ax, ay) == background by {
                    assert(fb_before.at(ax, ay) == background);
                }
            }
        }
        i += 1;
    }
    Ok(())
}

/// The sequencer's place in the run: before any frame, producing the frame
/// with the given index, or finished.
#[derive(Clone, Copy, Debug, PartialEq, Eq, Structural)]
pub enum SequencerState {
    Idle,
    Rendering(usize),
    Done,
}

/// Advances the sequencer by one step for a run of `frame_count` frames:
/// from `Idle` to the first frame (or straight to `Done` for an empty run),
/// from frame `i` to frame `i + 1` while frames remain, and to `Done` after
/// the last frame; `Done` is final.
pub fn sequencer_advance(state: SequencerState, frame_count: usize) -> (next: SequencerState)
    ensures
        state is Idle && frame_count == 0 ==> next == SequencerState::Done,
        state is Idle && frame_count > 0 ==> next == SequencerState::Rendering(0usize),
        state matches SequencerState::Rendering(i) ==> next == (if i + 1 < frame_count {
            SequencerState::Rendering((i + 1) as usize)
        } else {
            SequencerState::Done
        }),
        state is Done ==> next == SequencerState::Done,
{
    match state {
        SequencerState::Idle => {
            if frame_count == 0 {
                SequencerState::Done
            } else {
                SequencerState::Rendering(0)
            }
        },
        SequencerState::Rendering(i) => {
            if frame_count > 0 && i < frame_count - 1 {
                SequencerState::Rendering(i + 1)
            } else {
                SequencerState::Done
            }
        },
        SequencerState::Done => SequencerState::Done,
    }
}

} // verus!
