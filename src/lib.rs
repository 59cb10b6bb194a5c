//! Subresource Integrity injection for HTML documents.
//!
//! The library works on a pre-order model of a parsed document: it decides
//! which elements take an `integrity` attribute, which resource each one
//! names, whether a fetched resource may be hashed, and how the resulting
//! digest is merged into the element's attributes.

pub mod text;
pub mod mime_ext;
pub mod node_iter;
pub mod digest;
pub mod generate_sri;
pub mod element;
pub mod response_ext;
pub mod laws;
