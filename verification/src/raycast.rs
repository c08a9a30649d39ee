//! The raycasting engine. One ray is marched per output column in fixed
//! increments; the first occupied map cell stops the ray, and the hit
//! becomes a perspective-corrected vertical wall strip. All geometry is
//! carried in 16.16 fixed point: a coordinate, distance or direction
//! component `v` stands for the real number `v / SCALE`.

use vstd::prelude::*;
use vstd::arithmetic::div_mod::lemma_fundamental_div_mod;
use vstd::arithmetic::div_mod::lemma_mod_division_less_than_divisor;
use crate::framebuffer::Framebuffer;
use crate::tilemap::Cell;
use crate::tilemap::TileMap;

verus! {

/// One fixed-point unit: coordinates and distances are scaled by this.
pub const SCALE: i64 = 65536;

/// The square of `SCALE`; a product of two fixed-point values carries this
/// scale before renormalization.
pub const SCALE_SQ: i64 = 65536 * 65536;

/// A ray-wall hit: the sample index `k` at which the ray met a wall, the
/// marched distance `t_fp = k * step_fp` (fixed point), and the material of
/// the wall cell.
pub struct RayHit {
    pub k: usize,
    pub t_fp: i64,
    pub material: u8,
}

/// The x coordinate of ray sample `k`, in `SCALE_SQ` units: the player
/// position plus `k` steps along the direction component `dx_fp`.
pub open spec fn ray_qx(px_fp: int, dx_fp: int, step_fp: int, k: int) -> int {
    px_fp * 65536 + (k * step_fp) * dx_fp
}

/// Whether ray sample `k` lies inside the map grid.
pub open spec fn sample_in_map(
    map: TileMap,
    px_fp: int,
    py_fp: int,
    dx_fp: int,
    dy_fp: int,
    step_fp: int,
    k: int,
) -> bool {
    let qx = ray_qx(px_fp, dx_fp, step_fp, k);
    let qy = ray_qx(py_fp, dy_fp, step_fp, k);
    0 <= qx && 0 <= qy && qx / (65536int * 65536) < map.w() && qy / (65536int * 65536) < map.h()
}

/// The map cell under ray sample `k` (meaningful when the sample lies inside
/// the grid).
pub open spec fn sample_cell(
    map: TileMap,
    px_fp: int,
    py_fp: int,
    dx_fp: int,
    dy_fp: int,
    step_fp: int,
    k: int,
) -> Cell {
    let qx = ray_qx(px_fp, dx_fp, step_fp, k);
    let qy = ray_qx(py_fp, dy_fp, step_fp, k);
    map.cell(qx / (65536int * 65536), qy / (65536int * 65536))
}

/// Whether ray sample `k` is a wall hit: inside the grid and over a
/// non-empty cell.
pub open spec fn sample_hit(
    map: TileMap,
    px_fp: int,
    py_fp: int,
    dx_fp: int,
    dy_fp: int,
    step_fp: int,
    k: int,
) -> bool {
    sample_in_map(map, px_fp, py_fp, dx_fp, dy_fp, step_fp, k) && sample_cell(
        map,
        px_fp,
        py_fp,
        dx_fp,
        dy_fp,
        step_fp,
        k,
    ) is Material
}

/// `fb1` differs from `fb0` only inside the `mm_w × mm_h` minimap canvas,
/// and every changed pixel holds the cone overlay color.
pub open spec fn cone_overlay(
    fb0: Framebuffer,
    fb1: Framebuffer,
    mm_w: int,
    mm_h: int,
    cone_color: u32,
) -> bool {
    &&& fb1.wf()
    &&& fb1.w() == fb0.w()
    &&& fb1.h() == fb0.h()
    &&& forall|px: int, py: int|
        0 <= px < fb0.w() && 0 <= py < fb0.h() ==> #[trigger] fb1.at(px, py) == fb0.at(px, py) || (
        0 <= px < mm_w && 0 <= py < mm_h && fb1.at(px, py) == cone_color)
}

/// The minimap pixel index over which a sample coordinate `q` (in
/// `SCALE_SQ` units) falls, for minimap cells of edge `rect` pixels.
pub open spec fn cone_pix(q: int, rect: int) -> int {
    (q * rect) / (65536int * 65536)
}

/// Ray sample `k` has left its mark on `fb`: if the sample lies inside the
/// map grid and its minimap pixel is inside the buffer, that pixel holds the
/// cone overlay color.
pub open spec fn cone_plotted(
    fb: Framebuffer,
    map: TileMap,
    px_fp: int,
    py_fp: int,
    dx_fp: int,
    dy_fp: int,
    step_fp: int,
    rect_w: int,
    rect_h: int,
    cone_color: u32,
    k: int,
) -> bool {
    let cx = cone_pix(ray_qx(px_fp, dx_fp, step_fp, k), rect_w);
    let cy = cone_pix(ray_qx(py_fp, dy_fp, step_fp, k), rect_h);
    sample_in_map(map, px_fp, py_fp, dx_fp, dy_fp, step_fp, k) && cx < fb.w() && cy < fb.h()
        ==> fb.at(cx, cy) == cone_color
}

/// Sample `k` is reached by the march: no earlier sample hit a wall. The
/// sample of the first hit is itself reached; everything past it is not.
pub open spec fn sample_marched(
    map: TileMap,
    px_fp: int,
    py_fp: int,
    dx_fp: int,
    dy_fp: int,
    step_fp: int,
    k: int,
) -> bool {
    forall|j: int| 0 <= j < k ==> !sample_hit(map, px_fp, py_fp, dx_fp, dy_fp, step_fp, j)
}

/// Pixel `(ax, ay)` is the minimap pixel of ray sample `k`, the sample
/// lying inside the map grid.
pub open spec fn sample_plots_at(
    map: TileMap,
    px_fp: int,
    py_fp: int,
    dx_fp: int,
    dy_fp: int,
    step_fp: int,
    rect_w: int,
    rect_h: int,
    k: int,
    ax: int,
    ay: int,
) -> bool {
    &&& sample_in_map(map, px_fp, py_fp, dx_fp, dy_fp, step_fp, k)
    &&& ax == cone_pix(ray_qx(px_fp, dx_fp, step_fp, k), rect_w)
    &&& ay == cone_pix(ray_qx(py_fp, dy_fp, step_fp, k), rect_h)
}

/// An in-map ray sample stays inside the grid after scaling to minimap
/// pixels: dividing a value below `b * d` by `d` lands below `b`.
pub proof fn lemma_div_below(x: int, d: int, b: int)
    requires
        d >= 1,
        0 <= x,
        x < b * d,
    ensures
        x / d < b,
{
    lemma_fundamental_div_mod(x, d);
    lemma_mod_division_less_than_divisor(x, d);
    if x / d >= b {
        assert(b * d <= d * (x / d)) by (nonlinear_arith)
            requires
                d >= 1,
                x / d >= b,
        ;
        assert(false);
    }
}

/// The converse bound: a value whose quotient by `d` is below `b` is itself
/// below `b * d`.
pub proof fn lemma_div_bound_above(x: int, d: int, b: int)
    requires
        d >= 1,
        0 <= x,
        x / d < b,
    ensures
        x < b * d,
{
    lemma_fundamental_div_mod(x, d);
    lemma_mod_division_less_than_divisor(x, d);
    assert(d * (x / d) <= b * d - d) by (nonlinear_arith)
        requires
            d >= 1,
            x / d <= b - 1,
    ;
}

/// On a map with no wall cell, no ray sample is a hit.
pub proof fn lemma_empty_map_no_hit(
    map: TileMap,
    px_fp: int,
    py_fp: int,
    dx_fp: int,
    dy_fp: int,
    step_fp: int,
    k: int,
)
    requires
        map.all_empty(),
    ensures
        !sample_hit(map, px_fp, py_fp, dx_fp, dy_fp, step_fp, k),
{
    if sample_in_map(map, px_fp, py_fp, dx_fp, dy_fp, step_fp, k) {
        let qx = ray_qx(px_fp, dx_fp, step_fp, k);
        let qy = ray_qx(py_fp, dy_fp, step_fp, k);
        assert(map.cell(qx / (65536int * 65536), qy / (65536int * 65536)) == Cell::Empty);
    }
}

/// A ray that starts over a wall cell hits at the very first sample: the
/// march reports a hit at distance zero, within one step of the origin.
pub proof fn lemma_immediate_hit(
    map: TileMap,
    px_fp: int,
    py_fp: int,
    dx_fp: int,
    dy_fp: int,
    step_fp: int,
)
    requires
        0 <= px_fp,
        0 <= py_fp,
        px_fp / 65536 < map.w(),
        py_fp / 65536 < map.h(),
        map.cell(px_fp / 65536, py_fp / 65536) is Material,
    ensures
        sample_hit(map, px_fp, py_fp, dx_fp, dy_fp, step_fp, 0),
{
    assert((0 * step_fp) * dx_fp == 0 && (0 * step_fp) * dy_fp == 0) by (nonlinear_arith);
    assert(ray_qx(px_fp, dx_fp, step_fp, 0) == px_fp * 65536);
    assert(ray_qx(py_fp, dy_fp, step_fp, 0) == py_fp * 65536);
    lemma_scaled_div(px_fp);
    lemma_scaled_div(py_fp);
}

/// Multiplying by `SCALE` and dividing by `SCALE_SQ` recovers division by
/// `SCALE`: the sample at distance zero sits over the player's own cell.
proof fn lemma_scaled_div(v: int)
    requires
        0 <= v,
    ensures
        (v * 65536) / (65536int * 65536) == v / 65536,
{
    lemma_fundamental_div_mod(v, 65536);
    lemma_mod_division_less_than_divisor(v, 65536);
    let q = v / 65536;
    let r = v % 65536;
    assert(v * 65536 == q * (65536int * 65536) + r * 65536) by (nonlinear_arith)
        requires
            v == 65536 * q + r,
    ;
    vstd::arithmetic::div_mod::lemma_fundamental_div_mod_converse_div(
        v * 65536,
        65536int * 65536,
        q,
        r * 65536,
    );
}

/// Marches one ray from the player position along `(dx_fp, dy_fp)` in
/// `n_samples` fixed increments of `step_fp`, plotting the visibility-cone
/// overlay onto the minimap as it goes. Returns the first sample that lies
/// over a wall cell, or `None` when the whole range is clear. Samples
/// outside the map grid plot nothing and hit nothing.
pub fn march_ray(
    fb: &mut Framebuffer,
    map: &TileMap,
    px_fp: i64,
    py_fp: i64,
    dx_fp: i64,
    dy_fp: i64,
    step_fp: i64,
    n_samples: usize,
    rect_w: usize,
    rect_h: usize,
    cone_color: u32,
) -> (r: Option<RayHit>)
    requires
        old(fb).wf(),
        map.wf(),
        0 <= px_fp <= SCALE_SQ,
        0 <= py_fp <= SCALE_SQ,
        -SCALE <= dx_fp <= SCALE,
        -SCALE <= dy_fp <= SCALE,
        0 < step_fp <= SCALE,
        n_samples <= 65536,
        1 <= rect_w <= 4096,
        1 <= rect_h <= 4096,
        map.w() <= 4096,
        map.h() <= 4096,
    ensures
        cone_overlay(
            *old(fb),
            *final(fb),
            map.w() * rect_w,
            map.h() * rect_h,
            cone_color,
        ),
        r matches Some(hit) ==> hit.k < n_samples && sample_hit(
            *map,
            px_fp as int,
            py_fp as int,
            dx_fp as int,
            dy_fp as int,
            step_fp as int,
            hit.k as int,
        ) && sample_cell(
            *map,
            px_fp as int,
            py_fp as int,
            dx_fp as int,
            dy_fp as int,
            step_fp as int,
            hit.k as int,
        ) == Cell::Material(hit.material) && hit.t_fp == hit.k * step_fp && (forall|k2: int|
            0 <= k2 < hit.k ==> !sample_hit(
                *map,
                px_fp as int,
                py_fp as int,
                dx_fp as int,
                dy_fp as int,
                step_fp as int,
                k2,
            )),
        r is None ==> forall|k2: int|
            0 <= k2 < n_samples ==> !sample_hit(
                *map,
                px_fp as int,
                py_fp as int,
                dx_fp as int,
                dy_fp as int,
                step_fp as int,
                k2,
            ),
        forall|k2: int|
            0 <= k2 < n_samples && sample_marched(
                *map,
                px_fp as int,
                py_fp as int,
                dx_fp as int,
                dy_fp as int,
                step_fp as int,
                k2,
            ) ==> #[trigger] cone_plotted(
                *final(fb),
                *map,
                px_fp as int,
                py_fp as int,
                dx_fp as int,
                dy_fp as int,
                step_fp as int,
                rect_w as int,
                rect_h as int,
                cone_color,
                k2,
            ),
        forall|ax: int, ay: int|
            0 <= ax < old(fb).w() && 0 <= ay < old(fb).h() && #[trigger] final(fb).at(ax, ay)
                != old(fb).at(ax, ay) ==> exists|k2: int|
                0 <= k2 < n_samples && sample_marched(
                    *map,
                    px_fp as int,
                    py_fp as int,
                    dx_fp as int,
                    dy_fp as int,
                    step_fp as int,
                    k2,
                ) && #[trigger] sample_plots_at(
                    *map,
                    px_fp as int,
                    py_fp as int,
                    dx_fp as int,
                    dy_fp as int,
                    step_fp as int,
                    rect_w as int,
                    rect_h as int,
                    k2,
                    ax,
                    ay,
                ),
{
    let ghost fb0: Framebuffer = *fb;
    let map_w = map.width();
    let map_h = map.height();
    let mut k: usize = 0;
    let mut t_fp: i64 = 0;
    while k < n_samples
        invariant
            fb0 == *old(fb),
            fb.wf(),
            map.wf(),
            0 <= px_fp <= SCALE_SQ,
            0 <= py_fp <= SCALE_SQ,
            -SCALE <= dx_fp <= SCALE,
            -SCALE <= dy_fp <= SCALE,
            0 < step_fp <= SCALE,
            n_samples <= 65536,
            1 <= rect_w <= 4096,
            1 <= rect_h <= 4096,
            map_w == map.w(),
            map_h == map.h(),
            map_w <= 4096,
            map_h <= 4096,
            k <= n_samples,
            t_fp == k * step_fp,
            cone_overlay(fb0, *fb, map.w() * rect_w, map.h() * rect_h, cone_color),
            forall|k2: int|
                0 <= k2 < k ==> !sample_hit(
                    *map,
                    px_fp as int,
                    py_fp as int,
                    dx_fp as int,
                    dy_fp as int,
                    step_fp as int,
                    k2,
                ),
            forall|k2: int|
                0 <= k2 < k ==> #[trigger] cone_plotted(
                    *fb,
                    *map,
                    px_fp as int,
                    py_fp as int,
                    dx_fp as int,
                    dy_fp as int,
                    step_fp as int,
                    rect_w as int,
                    rect_h as int,
                    cone_color,
                    k2,
                ),
            forall|ax: int, ay: int|
                0 <= ax < fb0.w() && 0 <= ay < fb0.h() && #[trigger] fb.at(ax, ay) != fb0.at(
                    ax,
                    ay,
                ) ==> exists|k2: int|
                    0 <= k2 < k && #[trigger] sample_plots_at(
                        *map,
                        px_fp as int,
                        py_fp as int,
                        dx_fp as int,
                        dy_fp as int,
                        step_fp as int,
                        rect_w as int,
                        rect_h as int,
                        k2,
                        ax,
                        ay,
                    ),
        decreases n_samples - k,
    {
        proof {
            assert(0 <= t_fp <= 65536 * 65536) by (nonlinear_arith)
                requires
                    t_fp == k * step_fp,
                    0 <= k <= 65536,
                    0 < step_fp <= 65536,
            ;
            assert(-(65536 * 65536 * 65536) <= t_fp * dx_fp <= 65536 * 65536 * 65536 && -(65536
                * 65536 * 65536) <= t_fp * dy_fp <= 65536 * 65536 * 65536) by (nonlinear_arith)
                requires
                    0 <= t_fp <= 65536 * 65536,
                    -65536 <= dx_fp <= 65536,
                    -65536 <= dy_fp <= 65536,
            ;
        }
        let qx: i64 = px_fp * SCALE + t_fp * dx_fp;
        let qy: i64 = py_fp * SCALE + t_fp * dy_fp;
        if qx >= 0 && qy >= 0 {
            let cell_x: u64 = (qx as u64) / (SCALE_SQ as u64);
            let cell_y: u64 = (qy as u64) / (SCALE_SQ as u64);
            if cell_x < map_w as u64 && cell_y < map_h as u64 {
                proof {
                    lemma_div_bound_above(qx as int, 65536int * 65536, map_w as int);
                    lemma_div_bound_above(qy as int, 65536int * 65536, map_h as int);
                    assert(qx * rect_w < (map_w * rect_w) * (65536int * 65536) && qx * rect_w <= 4096
                        * 4096 * (65536int * 65536)) by (nonlinear_arith)
                        requires
                            0 <= qx < map_w * (65536int * 65536),
                            1 <= rect_w <= 4096,
                            0 < map_w <= 4096,
                    ;
                    assert(qy * rect_h < (map_h * rect_h) * (65536int * 65536) && qy * rect_h <= 4096
                        * 4096 * (65536int * 65536)) by (nonlinear_arith)
                        requires
                            0 <= qy < map_h * (65536int * 65536),
                            1 <= rect_h <= 4096,
                            0 < map_h <= 4096,
                    ;
                }
                let pix_x: u64 = ((qx as u64) * (rect_w as u64)) / (SCALE_SQ as u64);
                let pix_y: u64 = ((qy as u64) * (rect_h as u64)) / (SCALE_SQ as u64);
                proof {
                    lemma_div_below(
                        qx as int * rect_w as int,
                        65536int * 65536,
                        map_w as int * rect_w as int,
                    );
                    lemma_div_below(
                        qy as int * rect_h as int,
                        65536int * 65536,
                        map_h as int * rect_h as int,
                    );
                    assert(map_w * rect_w <= 4096 * 4096 && map_h * rect_h <= 4096 * 4096)
                        by (nonlinear_arith)
                        requires
                            0 < map_w <= 4096,
                            0 < map_h <= 4096,
                            1 <= rect_w <= 4096,
                            1 <= rect_h <= 4096,
                    ;
                }
                let ghost fb_prev: Framebuffer = *fb;
                fb.set_pixel(pix_x as usize, pix_y as usize, cone_color);
                proof {
                    assert forall|ax: int, ay: int|
                        0 <= ax < fb0.w() && 0 <= ay < fb0.h() implies #[trigger] fb.at(ax, ay)
                        == fb0.at(ax, ay) || (0 <= ax < map.w() * rect_w && 0 <= ay < map.h()
                        * rect_h && fb.at(ax, ay) == cone_color) by {
                        assert(fb_prev.at(ax, ay) == fb0.at(ax, ay) || (0 <= ax < map.w() * rect_w
                            && 0 <= ay < map.h() * rect_h && fb_prev.at(ax, ay) == cone_color));
                    }
                    assert forall|k2: int| 0 <= k2 <= k implies #[trigger] cone_plotted(
                        *fb,
                        *map,
                        px_fp as int,
                        py_fp as int,
                        dx_fp as int,
                        dy_fp as int,
                        step_fp as int,
                        rect_w as int,
                        rect_h as int,
                        cone_color,
                        k2,
                    ) by {
                        let q2x = ray_qx(px_fp as int, dx_fp as int, step_fp as int, k2);
                        let q2y = ray_qx(py_fp as int, dy_fp as int, step_fp as int, k2);
                        if sample_in_map(
                            *map,
                            px_fp as int,
                            py_fp as int,
                            dx_fp as int,
                            dy_fp as int,
                            step_fp as int,
                            k2,
                        ) {
                            assert(q2x * rect_w >= 0 && q2y * rect_h >= 0) by (nonlinear_arith)
                                requires
                                    q2x >= 0,
                                    q2y >= 0,
                                    rect_w >= 1,
                                    rect_h >= 1,
                            ;
                            vstd::arithmetic::div_mod::lemma_div_pos_is_pos(
                                q2x * rect_w,
                                65536int * 65536,
                            );
                            vstd::arithmetic::div_mod::lemma_div_pos_is_pos(
                                q2y * rect_h,
                                65536int * 65536,
                            );
                            if k2 < k {
                                assert(cone_plotted(
                                    fb_prev,
                                    *map,
                                    px_fp as int,
                                    py_fp as int,
                                    dx_fp as int,
                                    dy_fp as int,
                                    step_fp as int,
                                    rect_w as int,
                                    rect_h as int,
                                    cone_color,
                                    k2,
                                ));
                            } else {
                                assert(cone_pix(q2x, rect_w as int) == pix_x);
                                assert(cone_pix(q2y, rect_h as int) == pix_y);
                            }
                        }
                    }
                }
                proof {
                    assert(cone_overlay(fb0, *fb, map.w() * rect_w, map.h() * rect_h, cone_color));
                    assert forall|ax: int, ay: int|
                        0 <= ax < fb0.w() && 0 <= ay < fb0.h() && #[trigger] fb.at(ax, ay)
                        != fb0.at(ax, ay) implies exists|k2: int|
                        0 <= k2 < k + 1 && #[trigger] sample_plots_at(
                            *map,
                            px_fp as int,
                            py_fp as int,
                            dx_fp as int,
                            dy_fp as int,
                            step_fp as int,
                            rect_w as int,
                            rect_h as int,
                            k2,
                            ax,
                            ay,
                        ) by {
                        if fb.at(ax, ay) != fb_prev.at(ax, ay) {
                            assert(ax == pix_x && ay == pix_y);
                            assert(sample_plots_at(
                                *map,
                                px_fp as int,
                                py_fp as int,
                                dx_fp as int,
                                dy_fp as int,
                                step_fp as int,
                                rect_w as int,
                                rect_h as int,
                                k as int,
                                ax,
                                ay,
                            ));
                        }
                    }
                }
                match map.cell_get(cell_x as usize, cell_y as usize) {
                    Cell::Material(m) => {
                        proof {
                            assert(sample_hit(
                                *map,
                                px_fp as int,
                                py_fp as int,
                                dx_fp as int,
                                dy_fp as int,
                                step_fp as int,
                                k as int,
                            ));
                            assert forall|k2: int|
                                0 <= k2 < n_samples && sample_marched(
                                    *map,
                                    px_fp as int,
                                    py_fp as int,
                                    dx_fp as int,
                                    dy_fp as int,
                                    step_fp as int,
                                    k2,
                                ) implies #[trigger] cone_plotted(
                                *fb,
                                *map,
                                px_fp as int,
                                py_fp as int,
                                dx_fp as int,
                                dy_fp as int,
                                step_fp as int,
                                rect_w as int,
                                rect_h as int,
                                cone_color,
                                k2,
                            ) by {
                                if k2 > k {
                                    assert(!sample_hit(
                                        *map,
                                        px_fp as int,
                                        py_fp as int,
                                        dx_fp as int,
                                        dy_fp as int,
                                        step_fp as int,
                                        k as int,
                                    ));
                                }
                            }
                            assert forall|ax: int, ay: int|
                                0 <= ax < fb0.w() && 0 <= ay < fb0.h() && #[trigger] fb.at(ax, ay)
                                != fb0.at(ax, ay) implies exists|k2: int|
                                0 <= k2 < n_samples && sample_marched(
                                    *map,
                                    px_fp as int,
                                    py_fp as int,
                                    dx_fp as int,
                                    dy_fp as int,
                                    step_fp as int,
                                    k2,
                                ) && #[trigger] sample_plots_at(
                                    *map,
                                    px_fp as int,
                                    py_fp as int,
                                    dx_fp as int,
                                    dy_fp as int,
                                    step_fp as int,
                                    rect_w as int,
                                    rect_h as int,
                                    k2,
                                    ax,
                                    ay,
                                ) by {
                                let kw = choose|k2: int|
                                    0 <= k2 < k + 1 && #[trigger] sample_plots_at(
                                        *map,
                                        px_fp as int,
                                        py_fp as int,
                                        dx_fp as int,
                                        dy_fp as int,
                                        step_fp as int,
                                        rect_w as int,
                                        rect_h as int,
                                        k2,
                                        ax,
                                        ay,
                                    );
                                assert(sample_marched(
                                    *map,
                                    px_fp as int,
                                    py_fp as int,
                                    dx_fp as int,
                                    dy_fp as int,
                                    step_fp as int,
                                    kw,
                                ));
                            }
                        }
                        return Some(RayHit { k, t_fp, material: m });
                    },
                    Cell::Empty => {
                        proof {
                            assert(!sample_hit(
                                *map,
                                px_fp as int,
                                py_fp as int,
                                dx_fp as int,
                                dy_fp as int,
                                step_fp as int,
                                k as int,
                            ));
                        }
                    },
                }
            } else {
                proof {
                    assert(!sample_hit(
                        *map,
                        px_fp as int,
                        py_fp as int,
                        dx_fp as int,
                        dy_fp as int,
                        step_fp as int,
                        k as int,
                    ));
                }
            }
        } else {
            proof {
                assert(!sample_hit(
                    *map,
                    px_fp as int,
                    py_fp as int,
                    dx_fp as int,
                    dy_fp as int,
                    step_fp as int,
                    k as int,
                ));
            }
        }
        proof {
            assert(t_fp + step_fp == (k + 1) * step_fp) by (nonlinear_arith)
                requires
                    t_fp == k * step_fp,
            ;
            assert((k + 1) * step_fp <= 65536 * 65536) by (nonlinear_arith)
                requires
                    k + 1 <= 65536,
                    0 < step_fp <= 65536,
            ;
        }
        k += 1;
        t_fp += step_fp;
    }
    proof {
        assert forall|ax: int, ay: int|
            0 <= ax < fb0.w() && 0 <= ay < fb0.h() && #[trigger] fb.at(ax, ay) != fb0.at(
                ax,
                ay,
            ) implies exists|k2: int|
            0 <= k2 < n_samples && sample_marched(
                *map,
                px_fp as int,
                py_fp as int,
                dx_fp as int,
                dy_fp as int,
                step_fp as int,
                k2,
            ) && #[trigger] sample_plots_at(
                *map,
                px_fp as int,
                py_fp as int,
                dx_fp as int,
                dy_fp as int,
                step_fp as int,
                rect_w as int,
                rect_h as int,
                k2,
                ax,
                ay,
            ) by {
            let kw = choose|k2: int|
                0 <= k2 < k && #[trigger] sample_plots_at(
                    *map,
                    px_fp as int,
                    py_fp as int,
                    dx_fp as int,
                    dy_fp as int,
                    step_fp as int,
                    rect_w as int,
                    rect_h as int,
                    k2,
                    ax,
                    ay,
                );
            assert(sample_marched(
                *map,
                px_fp as int,
                py_fp as int,
                dx_fp as int,
                dy_fp as int,
                step_fp as int,
                kw,
            ));
        }
    }
    None
}

} // verus!
