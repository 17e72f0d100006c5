//! Verified core of the MoosicBox tooling: layout models, grid bookkeeping,
//! feature chunking for CI matrices, download page data and message routing.

pub mod models;
pub mod layout;
pub mod split;
pub mod clippier;
pub mod download;
pub mod image;
pub mod tunnel;
pub mod upnp;
pub mod text;
pub mod menu;
