//! The grid of the library: what its cells show, how it is walked through, and what its menu
//! offers.
pub mod badges;
pub mod cells;
pub mod context_menu;
pub mod entries;
pub mod filename_tokens;
pub mod palettes;
pub mod selection;
