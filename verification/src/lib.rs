//! Reference resolution for a document collection.
//!
//! Markup documents refer to other documents, images and remote resources.
//! This crate joins such a reference against the collection's base authority,
//! classifies the target, decides whether the referring document may reach it,
//! and hands back an `Artifact` describing the admitted target.

pub mod artifact;
pub mod latex;
pub mod laws;
pub mod paths;
pub mod remote;
pub mod resolve;
pub mod strutil;
pub mod urljoin;
