pub mod atomic_write;
pub mod auth;
pub mod auth_laws;
pub mod canvas;
pub mod chrome_laws;
pub mod clip_laws;
pub mod companion;
pub mod credential_laws;
pub mod credentials;
pub mod diagnostic_tools;
pub mod dividers;
pub mod dividers_laws;
pub mod edge_laws;
pub mod glyph_laws;
pub mod grid;
pub mod issuing;
pub mod layout;
pub mod loader;
pub mod loader_laws;
pub mod mcp;
pub mod multi_pane;
pub mod pacing_laws;
pub mod plugin;
pub mod pump;
pub mod rasterize;
pub mod rasterize_laws;
pub mod ratio;
pub mod reach_laws;
pub mod render_pool;
pub mod render_prof;
pub mod repaint;
pub mod report_state;
pub mod secrets;
pub mod spacer;
pub mod stdout_writer;
pub mod stream_laws;
pub mod text;
pub mod text_laws;
pub mod theme;
pub mod tiling;
pub mod tiling_laws;
pub mod timestamp;
pub mod tool_laws;
pub mod upgrade;
pub mod upgrade_laws;
