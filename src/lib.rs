//! Backend-agnostic core of a batched 2D sprite renderer.
//!
//! The library holds the decisions that a sprite renderer makes around its
//! graphics API: which texture goes to which texture unit in a draw call, how
//! large the shared vertex buffer must grow, the exact bytes of each vertex,
//! which textures are loaded and with what size, and which window's context is
//! current. The graphics calls themselves are made by the host around it.
mod buffer;
mod error;
mod render;
mod resources;
mod texture;
mod units;
mod version;
mod vertex;
mod windows;

pub use buffer::{
    grown, grown_capacity, is_next_pow2, is_pow2, lemma_growth_idempotent,
    lemma_next_pow2_unique, next_power_of_two, quad_corner, quad_index, quad_indices,
};
pub use error::{check_dimensions, check_gl_version, Error};
pub use render::{NoopSpriteRender, RenderState};
pub use resources::{
    check_new_texture, textures_of, unit_in, units_of, update_rect, DrawBatch, GpuObjects,
    Reallocation, SharedResources,
};
pub use texture::{
    data_len_of, rgba_len, Texture, TextureError, TextureFilter, TextureFormat, TextureId,
};
pub use units::{
    first_seen, lemma_first_seen, lemma_first_seen_len, TextureUnits, UnitBudgetExceeded,
};
pub use version::{
    digits_u8, digits_value, first_digit, first_non_digit, is_digit, parse_version_number,
    spec_parse_version,
};
pub use vertex::{
    batch_bytes, lemma_batch_bytes_len, lemma_vertex_layout, quad_bytes, u16_bytes, unit_bytes,
    vertex_bytes, write_quad, SpriteQuad, COLOR_OFFSET, POSITION_OFFSET, SPRITE_STRIDE,
    UNIT_OFFSET, UV_OFFSET, VERTEX_STRIDE,
};
pub use windows::{
    has_window, lemma_switch_isolation, lemma_window_index, switched, unique_windows,
    window_index, Removed, SwitchError, WindowContexts, WindowState,
};
