//! Export and import of analytics configuration records — dashboards and
//! the saved queries they embed — as a database-independent, name-based
//! snapshot form.
//!
//! Internal records reference tables, columns, collections and other saved
//! queries by database-assigned numeric identifiers that mean nothing in
//! another database.  The core of this crate is the bidirectional codec
//! that rewrites those identifiers into stable marker strings on export
//! and resolves the markers back into identifiers valid in the destination
//! database on import, without parsing the opaque payloads that carry
//! them.  Around it stand the read-once reference cache, the name-based
//! dependency resolver with its disambiguation policy, and the record
//! assembler that plans whole exports and imports; the storage boundary
//! and the command line live outside this crate and only move values.

pub mod assemble;
pub mod codec;
pub mod error;
pub mod laws;
pub mod model;
pub mod num;
pub mod resolve;
pub mod snapshot;
pub mod text;
