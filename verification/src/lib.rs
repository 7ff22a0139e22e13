//! An editor-integration service core: live document buffers under
//! incremental edits, position resolution across three text-position
//! encodings (bytes, UTF-16 code units, codepoints), and completion
//! context scanning — each operation specified over a character-
//! sequence model of the document and verified against it.
use vstd::prelude::*;

pub mod change;
pub mod completion;
pub mod encoding;
pub mod error;
pub mod laws;
pub mod rope_text;
pub mod store;
pub mod text;
pub mod virtual_file;

verus! {

} // verus!
