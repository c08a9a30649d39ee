//! A software raycaster: a framebuffer of packed colors, a tile map, a
//! minimap rasterizer, and a fixed-step ray-marching projection that renders
//! perspective-corrected wall strips.

mod color;
mod framebuffer;
mod minimap;
mod palette;
mod project;
mod raycast;
mod render;
mod tilemap;

pub use color::pack_color;
pub use color::rgb_payload;
pub use color::unpack_color;
pub use framebuffer::Framebuffer;
pub use framebuffer::draw_rectangle;
pub use minimap::RenderError;
pub use minimap::render_minimap;
pub use palette::generate_palette;
pub use project::draw_wall_strip;
pub use project::render_column;
pub use project::wall_height;
pub use raycast::RayHit;
pub use raycast::SCALE;
pub use raycast::SCALE_SQ;
pub use raycast::march_ray;
pub use render::ColumnDir;
pub use render::SequencerState;
pub use render::render_frame;
pub use render::sequencer_advance;
pub use tilemap::Cell;
pub use tilemap::MapError;
pub use tilemap::TileMap;
