//! Path completion and signature help for a code-intelligence server of a
//! build-description language.
//!
//! The core is the scanner: a cache of directory listings that expire and
//! are bounded in number, the filters that answer a scan from a listing, and
//! the rules by which changes in the file system invalidate the cache.
//! Around it stand the extraction of the partial path under the cursor, the
//! completions made of scanned entries, and the signatures of commands read
//! from the build tool's help text.
//!
//! The library reads no file and waits for no event. What a pass over the
//! file system found, what the system's notifications report and what the
//! parser made of a source text come in as plain values.

pub mod complete;
pub mod paths;
pub mod pattern;
pub mod scanner;
pub mod signature_help;
pub mod text;
pub mod text_map;
