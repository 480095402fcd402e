//! A recursive text-inlining preprocessor for XML-like documents.
//!
//! A document may carry directives, written as XML comments, that name
//! another file whose content is to be spliced in place of the directive.
//! This crate holds the verified core of that pipeline: locating
//! directives, resolving the referenced paths, splicing replacement text,
//! stripping comment spans, unwrapping placeholder tags, flattening
//! nested content, and selecting candidate input files by name.
//! Reading files, walking directories and writing results is left to the
//! surrounding program, which hands contents in and takes results out.

pub mod pattern;
pub mod transform;
pub mod directive;
pub mod expand;
pub mod resolve;
pub mod discover;
pub mod laws;
