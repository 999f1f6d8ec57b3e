//! Inlines external stylesheet references of an HTML document: each
//! `link` element that points at a CSS file on disk is replaced by a
//! `style` element holding that file's text.

pub mod inline;
pub mod json;
pub mod model;
pub mod resolve;
pub mod scan;
pub mod settings;
pub mod strutil;
