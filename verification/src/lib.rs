//! A generator of drop-in proxies for native dynamic libraries: the export
//! set of a library, its stable numbering, the forwarding and hook code
//! emitted for each export, and the reconciliation of an existing project
//! with newly found exports.

pub mod error;
pub mod export_set;
pub mod exports;
pub mod hooks;
pub mod image;
pub mod indices;
pub mod laws;
pub mod order;
pub mod proxy;
pub mod recover;
pub mod render;
pub mod tables;
pub mod templates;
pub mod text;
