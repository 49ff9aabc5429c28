//! Decision core of a comic archive viewer: page layout, texture and decode caches, prefetch
//! planning, navigation and the library grid, with every rule stated as a contract.
pub mod domain;
pub mod grid;
pub mod num;
pub mod sorting;
pub mod text;
pub mod util;
pub mod viewer;
