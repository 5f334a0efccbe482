//! What the operations promise together: each law speaks of what calls were given
//! and what they gave.

pub mod access;
pub mod admin;
pub mod exchange;
pub mod sessions;
pub mod settings;
pub mod terminal;
