//! Builder for legacy compiled-help (CHM) projects.
//!
//! The crate turns a tree of markdown documents into the three text artifacts
//! that the classic help compiler consumes (a project manifest, a contents
//! sitemap and a keyword sitemap) together with the rendered HTML pages and
//! their asset files.  Everything that decides or computes is specified and
//! verified; reading and writing the files themselves is left to the caller.

pub mod book;
pub mod builder;
pub mod contents;
pub mod error;
pub mod hhc;
pub mod hhk;
pub mod hhp;
pub mod keyworder;
pub mod language;
pub mod markdown;
pub mod utilities;
