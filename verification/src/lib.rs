//! Changes the letter case of the text inside chosen elements of an HTML
//! document or fragment, and leaves the markup around it alone.
//!
//! The input is trimmed and classified as a document or a fragment, parsed,
//! rewritten under a CSS selector, and written out with the framing that it
//! came with.

pub mod args;
pub mod boundary;
pub mod case;
pub mod document;
pub mod errors;
pub mod handlers;
pub mod parsing;
pub mod recase;
pub mod text;
pub mod transform;
pub mod tree;

pub use case::TargetCase;
pub use errors::ApplicationError;
pub use transform::change_tag_content_case;
