//! The decisions behind a terminal that is shared over WebRTC: what a
//! connection string holds, which sessions a web server keeps, who may open
//! one, and what each message between the two sides means.

pub mod admin;
pub mod base58;
pub mod cli;
pub mod client;
pub mod codec;
pub mod config;
pub mod dates;
pub mod host;
pub mod json;
pub mod laws;
pub mod page;
pub mod pty;
pub mod random;
pub mod sdp;
pub mod serve;
pub mod session;
pub mod sessions;
pub mod table;
pub mod ten_kb_site;
pub mod text;
pub mod wire;

