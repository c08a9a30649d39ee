use raycaster::ColumnDir;
use raycaster::Framebuffer;
use raycaster::SequencerState;
use raycaster::TileMap;
use raycaster::draw_wall_strip;
use raycaster::march_ray;
use raycaster::pack_color;
use raycaster::render_column;
use raycaster::render_frame;
use raycaster::sequencer_advance;
use raycaster::wall_height;

const SCALE: i64 = 65536;
const STEP_FP: i64 = 655; // about 0.01 map-units
const N_SAMPLES: usize = 2000; // about 20 map-units of range

fn parse(s: &str, w: usize, h: usize) -> TileMap {
    let raw: Vec<char> = s.chars().collect();
    TileMap::parse(&raw, w, h).unwrap()
}

#[test]
fn immediate_hit_on_occupied_start_cell() {
    // Player standing exactly on the wall cell (2, 2), material 5.
    let map = parse("          5     ", 4, 4);
    let px = 2 * SCALE + SCALE / 2;
    let py = 2 * SCALE + SCALE / 2;
    let directions: [(i64, i64); 6] = [
        (SCALE, 0),
        (0, SCALE),
        (-SCALE, 0),
        (0, -SCALE),
        (46341, 46341),
        (-46341, 46341),
    ];
    for (dx, dy) in directions {
        let mut fb = Framebuffer::new(64, 64, pack_color(255, 255, 255));
        let hit = march_ray(
            &mut fb,
            &map,
            px,
            py,
            dx,
            dy,
            STEP_FP,
            N_SAMPLES,
            8,
            8,
            pack_color(160, 160, 160),
        )
        .unwrap();
        assert_eq!(hit.k, 0);
        assert_eq!(hit.t_fp, 0);
        assert_eq!(hit.material, 5);
    }
}

#[test]
fn empty_map_never_hits_and_plots_cone() {
    let map = parse("                ", 4, 4);
    let background = pack_color(255, 255, 255);
    let cone = pack_color(160, 160, 160);
    let mut fb = Framebuffer::new(64, 64, background);
    let hit = march_ray(
        &mut fb,
        &map,
        SCALE / 2,
        SCALE / 2,
        SCALE,
        0,
        STEP_FP,
        N_SAMPLES,
        8,
        8,
        cone,
    );
    assert!(hit.is_none());
    // The first sample sits over (0.5, 0.5): minimap pixel (4, 4).
    assert_eq!(fb.pixel_at(4, 4), cone);
    // Nothing outside the 32x32 minimap canvas is touched.
    for y in 0..64 {
        for x in 32..64 {
            assert_eq!(fb.pixel_at(x, y), background);
        }
    }
}

#[test]
fn empty_map_frame_keeps_view_region_background() {
    let map = parse("                ", 4, 4);
    let background = pack_color(255, 255, 255);
    let mut fb = Framebuffer::new(64, 64, background);
    let palette: Vec<u32> = vec![pack_color(1, 1, 1)];
    let mut dirs: Vec<ColumnDir> = Vec::new();
    for _ in 0..32 {
        dirs.push(ColumnDir { dx_fp: SCALE, dy_fp: 0, rel_cos_fp: SCALE });
    }
    let r = render_frame(
        &mut fb,
        &map,
        &palette,
        SCALE / 2,
        SCALE / 2,
        &dirs,
        STEP_FP,
        N_SAMPLES,
        8,
        8,
        32,
        background,
        pack_color(160, 160, 160),
    );
    assert!(r.is_ok());
    for y in 0..64 {
        for x in 32..64 {
            assert_eq!(fb.pixel_at(x, y), background);
        }
    }
}

#[test]
fn wall_height_formula_exact() {
    // A wall one map-unit ahead, seen straight on, fills the view height.
    assert_eq!(wall_height(512, SCALE, SCALE), 512);
    // Twice the distance, half the height.
    assert_eq!(wall_height(512, 2 * SCALE, SCALE), 256);
    // 512 * 65536 / 46341 truncated.
    assert_eq!(wall_height(512, 46341, SCALE), 724);
    // The perpendicular projection scales the height by 1/cos.
    assert_eq!(wall_height(512, SCALE, 56755), 591);
    // Degenerate distances are clamped to the minimum representable.
    assert_eq!(wall_height(512, 0, SCALE), 512 * 65536);
}

#[test]
fn fisheye_equal_perpendicular_distance_equal_height() {
    // Same product t * cos, different raw distances: same strip height.
    assert_eq!(wall_height(512, 2 * SCALE, SCALE / 2), wall_height(512, SCALE, SCALE));
    // Symmetric columns share the cosine, so equal raw distance gives equal
    // height; without the correction the naive raw-distance height differs.
    let c30 = 56755;
    assert_eq!(wall_height(512, 46341, c30), wall_height(512, 46341, c30));
    assert_ne!(wall_height(512, 46341, c30), wall_height(512, 46341, SCALE));
}

#[test]
fn wall_strip_is_centered_and_clipped() {
    let background = pack_color(255, 255, 255);
    let red = pack_color(255, 0, 0);
    let mut fb = Framebuffer::new(64, 64, background);
    draw_wall_strip(&mut fb, 10, 20, red);
    for y in 0..64 {
        let expected = if (22..42).contains(&y) { red } else { background };
        assert_eq!(fb.pixel_at(10, y), expected);
        assert_eq!(fb.pixel_at(11, y), background);
    }
    // A strip taller than the buffer covers the whole column.
    let mut fb2 = Framebuffer::new(64, 64, background);
    draw_wall_strip(&mut fb2, 3, 1000, red);
    for y in 0..64 {
        assert_eq!(fb2.pixel_at(3, y), red);
    }
}

#[test]
fn end_to_end_single_wall_scenario() {
    // A 4x4 map with one wall cell at (1, 1), material 3, red palette entry.
    let map = parse("     3          ", 4, 4);
    let background = pack_color(255, 255, 255);
    let red = pack_color(255, 0, 0);
    let cone = pack_color(160, 160, 160);
    let white = pack_color(255, 255, 255);
    let palette: Vec<u32> = vec![white, white, white, red];
    let px = 2 * SCALE + SCALE / 2;
    let py = 2 * SCALE + SCALE / 2;

    // Facing directly away from the wall: no hit, the 3D view region stays
    // at the background color.
    let mut fb = Framebuffer::new(64, 64, background);
    let mut dirs: Vec<ColumnDir> = Vec::new();
    for _ in 0..32 {
        dirs.push(ColumnDir { dx_fp: 46341, dy_fp: 46341, rel_cos_fp: SCALE });
    }
    let r = render_frame(
        &mut fb, &map, &palette, px, py, &dirs, STEP_FP, N_SAMPLES, 8, 8, 32, background, cone,
    );
    assert!(r.is_ok());
    for y in 0..64 {
        for x in 32..64 {
            assert_eq!(fb.pixel_at(x, y), background);
        }
    }

    // Rotated 180 degrees, straight at the wall corner: the ray enters cell
    // (1, 1) after 71 steps, about sqrt(2)/2 map-units away.
    let mut fb2 = Framebuffer::new(64, 64, background);
    let hit = render_column(
        &mut fb2, &map, &palette, px, py, -46341, -46341, SCALE, STEP_FP, N_SAMPLES, 8, 8, 32,
        16, cone,
    )
    .unwrap();
    assert_eq!(hit.k, 71);
    assert_eq!(hit.t_fp, 71 * STEP_FP);
    assert_eq!(hit.material, 3);
    // Height 64 * 65536 / 46505 = 90 exceeds the 64-pixel view, so the
    // whole column at x = 32 + 16 is red.
    assert_eq!(wall_height(64, hit.t_fp, SCALE), 90);
    for y in 0..64 {
        assert_eq!(fb2.pixel_at(48, y), red);
        assert_eq!(fb2.pixel_at(49, y), background);
    }
}

#[test]
fn sequencer_walks_the_run() {
    assert_eq!(sequencer_advance(SequencerState::Idle, 0), SequencerState::Done);
    assert_eq!(sequencer_advance(SequencerState::Idle, 3), SequencerState::Rendering(0));
    assert_eq!(
        sequencer_advance(SequencerState::Rendering(0), 3),
        SequencerState::Rendering(1)
    );
    assert_eq!(
        sequencer_advance(SequencerState::Rendering(1), 3),
        SequencerState::Rendering(2)
    );
    assert_eq!(sequencer_advance(SequencerState::Rendering(2), 3), SequencerState::Done);
    assert_eq!(sequencer_advance(SequencerState::Done, 3), SequencerState::Done);
}

#[test]
fn ray_leaving_the_map_hits_nothing() {
    // The only wall sits behind the player; the ray walks off the far edge.
    let map = parse("3               ", 4, 4);
    let mut fb = Framebuffer::new(64, 64, pack_color(255, 255, 255));
    let hit = march_ray(
        &mut fb,
        &map,
        2 * SCALE + SCALE / 2,
        2 * SCALE + SCALE / 2,
        SCALE,
        0,
        STEP_FP,
        N_SAMPLES,
        8,
        8,
        pack_color(160, 160, 160),
    );
    assert!(hit.is_none());
}

#[test]
fn frame_with_missing_palette_entry_touches_nothing() {
    let map = parse("3   ", 2, 2);
    let background = pack_color(255, 255, 255);
    let marker = pack_color(7, 7, 7);
    let mut fb = Framebuffer::new(64, 64, background);
    fb.set_pixel(5, 5, marker);
    let palette: Vec<u32> = vec![background];
    let dirs: Vec<ColumnDir> = vec![ColumnDir { dx_fp: SCALE, dy_fp: 0, rel_cos_fp: SCALE }];
    let r = render_frame(
        &mut fb, &map, &palette, SCALE, SCALE, &dirs, STEP_FP, N_SAMPLES, 8, 8, 32, background,
        pack_color(160, 160, 160),
    );
    assert!(r.is_err());
    assert_eq!(fb.pixel_at(5, 5), marker);
    assert_eq!(fb.pixel_at(6, 6), background);
}

#[test]
fn cone_overlay_overwrites_minimap_cell_color() {
    // The player stands on the wall cell (0, 0): its minimap rectangle is
    // painted with the palette color, then the ray's first sample plots the
    // cone pixel over it.
    let map = parse("1   ", 2, 2);
    let background = pack_color(255, 255, 255);
    let wall = pack_color(10, 20, 30);
    let cone = pack_color(160, 160, 160);
    let palette: Vec<u32> = vec![background, wall];
    let mut fb = Framebuffer::new(64, 64, background);
    let dirs: Vec<ColumnDir> = vec![ColumnDir { dx_fp: SCALE, dy_fp: 0, rel_cos_fp: SCALE }];
    let r = render_frame(
        &mut fb, &map, &palette, SCALE / 2, SCALE / 2, &dirs, STEP_FP, N_SAMPLES, 8, 8, 16,
        background, cone,
    );
    assert!(r.is_ok());
    // The sample over (0.5, 0.5) lands on minimap pixel (4, 4).
    assert_eq!(fb.pixel_at(4, 4), cone);
    // The rest of the cell's rectangle keeps the wall's palette color.
    assert_eq!(fb.pixel_at(0, 0), wall);
    assert_eq!(fb.pixel_at(7, 7), wall);
}
