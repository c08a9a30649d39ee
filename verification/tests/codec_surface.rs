use raycaster::Cell;
use raycaster::Framebuffer;
use raycaster::MapError;
use raycaster::TileMap;
use raycaster::draw_rectangle;
use raycaster::generate_palette;
use raycaster::pack_color;
use raycaster::render_minimap;
use raycaster::rgb_payload;
use raycaster::unpack_color;

#[test]
fn pack_layout_exact() {
    assert_eq!(pack_color(1, 2, 3), 0xFF030201u32);
    assert_eq!(pack_color(0, 0, 0), 0xFF000000u32);
    assert_eq!(pack_color(255, 255, 255), 0xFFFFFFFFu32);
}

#[test]
fn unpack_layout_exact() {
    assert_eq!(unpack_color(0xFF030201), (1, 2, 3, 255));
    assert_eq!(unpack_color(0x00000000), (0, 0, 0, 0));
    assert_eq!(unpack_color(0x80FF7001), (1, 0x70, 0xFF, 0x80));
}

#[test]
fn pack_unpack_roundtrip_sweep() {
    for v in 0..=255u16 {
        let v = v as u8;
        assert_eq!(unpack_color(pack_color(v, 0, 0)), (v, 0, 0, 255));
        assert_eq!(unpack_color(pack_color(0, v, 0)), (0, v, 0, 255));
        assert_eq!(unpack_color(pack_color(0, 0, v)), (0, 0, v, 255));
        assert_eq!(unpack_color(pack_color(v, v, v)), (v, v, v, 255));
        assert_eq!(
            unpack_color(pack_color(v, v.wrapping_add(17), v.wrapping_add(91))),
            (v, v.wrapping_add(17), v.wrapping_add(91), 255)
        );
    }
}

#[test]
fn rectangle_clipping_preserves_outside() {
    let w = 4usize;
    let h = 4usize;
    // A recognizable pattern in every cell.
    let mut img: Vec<u32> = (0..(w * h) as u32).collect();
    let before = img.clone();
    // A 3x3 rectangle anchored at (2, 2) pokes past both edges.
    draw_rectangle(&mut img, w, h, 2, 2, 3, 3, 999);
    for y in 0..h {
        for x in 0..w {
            let inside = x >= 2 && y >= 2;
            if inside {
                assert_eq!(img[x + y * w], 999);
            } else {
                assert_eq!(img[x + y * w], before[x + y * w]);
            }
        }
    }
}

#[test]
fn rectangle_fully_outside_touches_nothing() {
    let w = 4usize;
    let h = 4usize;
    let mut img: Vec<u32> = (0..(w * h) as u32).collect();
    let before = img.clone();
    draw_rectangle(&mut img, w, h, 10, 10, 5, 5, 999);
    assert_eq!(img, before);
}

#[test]
fn framebuffer_fill_and_read() {
    let mut fb = Framebuffer::new(8, 8, pack_color(255, 255, 255));
    assert_eq!(fb.width(), 8);
    assert_eq!(fb.height(), 8);
    fb.fill_rect(1, 2, 3, 2, pack_color(9, 9, 9));
    assert_eq!(fb.pixel_at(1, 2), pack_color(9, 9, 9));
    assert_eq!(fb.pixel_at(3, 3), pack_color(9, 9, 9));
    assert_eq!(fb.pixel_at(0, 0), pack_color(255, 255, 255));
    assert_eq!(fb.pixel_at(4, 2), pack_color(255, 255, 255));
    fb.set_pixel(7, 7, 5);
    assert_eq!(fb.pixel_at(7, 7), 5);
    // Out-of-bounds single pixel writes are silently skipped.
    fb.set_pixel(100, 100, 5);
    let pixels = fb.pixels();
    assert_eq!(pixels.len(), 64);
    assert_eq!(pixels[7 + 7 * 8], 5);
}

#[test]
fn map_wrong_length_rejected() {
    let raw: Vec<char> = "abc".chars().collect();
    assert_eq!(TileMap::parse(&raw, 2, 2).err(), Some(MapError::SizeMismatch));
    let raw2: Vec<char> = "     ".chars().collect();
    assert_eq!(TileMap::parse(&raw2, 2, 2).err(), Some(MapError::SizeMismatch));
}

#[test]
fn map_bad_character_rejected() {
    let raw: Vec<char> = "0x1 ".chars().collect();
    assert_eq!(TileMap::parse(&raw, 2, 2).err(), Some(MapError::BadCharacter));
}

#[test]
fn map_cells_parsed_exactly() {
    let raw: Vec<char> = "0 1 ".chars().collect();
    let map = TileMap::parse(&raw, 2, 2).unwrap();
    assert_eq!(map.cell_at(0, 0), Ok(Cell::Material(0)));
    assert_eq!(map.cell_at(1, 0), Ok(Cell::Empty));
    assert_eq!(map.cell_at(0, 1), Ok(Cell::Material(1)));
    assert_eq!(map.cell_at(1, 1), Ok(Cell::Empty));
    assert_eq!(map.cell_at(2, 0), Err(MapError::IndexOutOfBounds));
    assert_eq!(map.cell_at(0, 2), Err(MapError::IndexOutOfBounds));
    assert!(map.materials_within(2));
    assert!(!map.materials_within(1));
}

#[test]
fn all_space_map_draws_nothing() {
    let raw: Vec<char> = "    ".chars().collect();
    let map = TileMap::parse(&raw, 2, 2).unwrap();
    let background = pack_color(255, 255, 255);
    let mut fb = Framebuffer::new(16, 16, background);
    let palette: Vec<u32> = vec![pack_color(1, 1, 1)];
    assert!(render_minimap(&mut fb, &map, &palette, 4, 4).is_ok());
    for y in 0..16 {
        for x in 0..16 {
            assert_eq!(fb.pixel_at(x, y), background);
        }
    }
}

#[test]
fn minimap_draws_material_cells() {
    let raw: Vec<char> = "1   ".chars().collect();
    let map = TileMap::parse(&raw, 2, 2).unwrap();
    let background = pack_color(255, 255, 255);
    let wall = pack_color(10, 20, 30);
    let mut fb = Framebuffer::new(16, 16, background);
    let palette: Vec<u32> = vec![pack_color(1, 1, 1), wall];
    assert!(render_minimap(&mut fb, &map, &palette, 4, 4).is_ok());
    for y in 0..16 {
        for x in 0..16 {
            if x < 4 && y < 4 {
                assert_eq!(fb.pixel_at(x, y), wall);
            } else {
                assert_eq!(fb.pixel_at(x, y), background);
            }
        }
    }
}

#[test]
fn minimap_missing_palette_entry_fails() {
    let raw: Vec<char> = "5   ".chars().collect();
    let map = TileMap::parse(&raw, 2, 2).unwrap();
    let background = pack_color(255, 255, 255);
    let mut fb = Framebuffer::new(16, 16, background);
    let palette: Vec<u32> = vec![pack_color(1, 1, 1)];
    assert!(render_minimap(&mut fb, &map, &palette, 4, 4).is_err());
    for y in 0..16 {
        for x in 0..16 {
            assert_eq!(fb.pixel_at(x, y), background);
        }
    }
}

#[test]
fn rgb_payload_drops_alpha() {
    let image: Vec<u32> = vec![pack_color(1, 2, 3), pack_color(255, 0, 128)];
    let bytes = rgb_payload(&image);
    assert_eq!(bytes, vec![1, 2, 3, 255, 0, 128]);
}

#[test]
fn generated_palette_is_opaque() {
    let mut rng = rand::thread_rng();
    let palette = generate_palette(&mut rng, 10);
    assert_eq!(palette.len(), 10);
    for c in palette {
        let (_r, _g, _b, a) = unpack_color(c);
        assert_eq!(a, 255);
    }
}
