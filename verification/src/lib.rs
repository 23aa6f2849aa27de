//! Oxban: the verified core of a local-first Kanban board.
//!
//! Ordering of columns and cards, the configuration model, the decoding of
//! stored rows, the repositioning protocol that moves items between
//! neighbours, and the board page's view logic.

pub mod config;
pub mod desktop;
pub mod external;
pub mod model;
pub mod ordering;
pub mod positions;
pub mod reposition;
pub mod store;
pub mod text;
pub mod ui;
