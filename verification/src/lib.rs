//! Classification of upstream feature flags by the clusters on which they
//! are active, and rendering of the classified list as source text.

pub mod classify;
pub mod document;
pub mod emit;
pub mod extract;
pub mod identifier;
pub mod json;
pub mod network;
pub mod render;
pub mod serialize;
pub mod status_report;
