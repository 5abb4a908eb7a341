//! Converts Markdown into plain text for platforms that do not render Markdown.
//!
//! Headings, strong and emphasised spans become Unicode mathematical letters,
//! lists become literal bullets and numbers, links become `(url)` annotations and
//! fenced code blocks are omitted, kept, or replaced by a viewer link.

pub mod carbon;
pub mod cli;
pub mod code_image;
pub mod converter;
pub mod events;
pub mod json_output;
pub mod laws;
pub mod text;
pub mod unicode;
