//! Side-by-side lap comparison rendering: trajectory normalization, driver
//! colour resolution, incremental trail drawing, the per-driver stats panel
//! and the layered frame compositor.

pub mod model;
pub mod color;
pub mod normalize;
pub mod raster;
pub mod layout;
pub mod track_map;
pub mod text;
pub mod telemetry_plot;
pub mod hud_text;
pub mod hud_overlay;
pub mod animation;
