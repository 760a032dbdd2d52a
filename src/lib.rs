//! Session shell core: the tab session state machine, the idle surface pool,
//! and the searchable document index with its fuzzy ranking.

pub mod file_search;
pub mod ids;
pub mod pool;
pub mod ranking;
pub mod tab_laws;
pub mod tabs;
