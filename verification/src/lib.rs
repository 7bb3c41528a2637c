//! Concatenates file contents into one text, with templated per-file headers,
//! a configurable separator between files, and size/binary skip policies.
//!
//! The crate holds the pure logic of the tool: validating the parsed job,
//! resolving a sequence of path-expansion events into a file list, rendering
//! header templates, classifying binary content, assembling the final text,
//! and choosing the output mode and temporary directory. Reading files and
//! walking directories is left to the caller, which hands the results in as
//! plain values.

pub mod assemble;
pub mod binary;
pub mod content;
pub mod expand;
pub mod job;
pub mod output;
pub mod paths;
pub mod text;
