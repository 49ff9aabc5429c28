//! The viewer: what is shown, what is kept decoded and what is fetched next.
pub mod auto_spread_plan;
pub mod boundary_preview;
pub mod debug_overlay;
pub mod decode_layout;
pub mod display;
pub mod display_chain;
pub mod display_laws;
pub mod display_model;
pub mod frame;
pub mod frame_end;
pub mod frame_run;
pub mod gpu_texture_history;
pub mod gpu_warmup_cache;
pub mod gpu_warmup_planner;
pub mod interactive_plan;
pub mod layout;
pub mod loader_poll;
pub mod navigation;
pub mod overlay;
pub mod page_content;
pub mod page_sequences;
pub mod playback;
pub mod progress;
pub mod results;
pub mod rgba_page_cache;
pub mod selection;
pub mod spad;
pub mod spad_run;
pub mod state;
pub mod streaming_cache;
pub mod streaming_laws;
pub mod texture_entries;
pub mod title_lines;
pub mod toolbar;
pub mod warmup_run;
pub mod worker_manager;
pub mod working_set;
