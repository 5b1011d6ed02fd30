//! Structural metadata extraction for lightweight markup documents.
//!
//! The document parser yields a linear stream of structural events.  A single
//! forward pass over that stream builds a hierarchical table-of-contents
//! forest (an append-only arena of nodes linked by index), tracks the text of
//! the heading currently open, collects anchor identifiers, and derives the
//! document title.  A separate path renders the same document to HTML.

pub mod events;
pub mod extract;
pub mod laws;
pub mod render;
pub mod toc;
pub mod tracker;
