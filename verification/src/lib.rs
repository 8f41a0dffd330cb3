//! A directory-backed catalog of Markdown notes with a weekly digest
//! generator.
//!
//! The catalog is modelled as a snapshot of the notes directory
//! ([`store::NoteStore`]): a list of file entries, each carrying its path,
//! its text and its filesystem timestamps.  The store operations (listing
//! with title extraction, open, save, delete, collision-safe creation) and
//! the weekly digest schedule are verified against that model; a thin host
//! layer keeps the snapshot and the real directory in step and performs the
//! network call to the summarization backend.

pub mod clock;
pub mod digest;
pub mod digits;
pub mod errors;
pub mod settings;
pub mod store;
pub mod text;
