//! A verified rendering core for markup-document trees.
//!
//! The crate models a document as a tree of elements ([`base::BaseElement`])
//! whose children are literals, nested elements, or opaque components
//! ([`base::Child`]).  A recursive serializer turns a tree into text, and a
//! fixed-point driver ([`render::to_html`]) expands capability-bearing
//! components ([`render::Component`]) into concrete elements, accumulating
//! context and class names along the expansion chain.

pub mod attrs;
pub mod base;
pub mod context;
pub mod elements;
pub mod laws;
pub mod render;
pub mod text;
