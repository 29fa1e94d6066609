//! Policy core of a tiling window manager: layout arithmetic, event
//! normalization, and command dispatch decisions, kept apart from the
//! display backend and the workspace store that carry them out.

pub mod commands;
pub mod events;
pub mod layout;
