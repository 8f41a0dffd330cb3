//! The storage locations, resolved once at startup and shared read-only:
//! the root directory, its `journal` subdirectory (reserved), and its
//! `notes` subdirectory that the store works in.

use vstd::prelude::*;
use vstd::string::StringExecFns;

verus! {

/// The provisioned storage paths.  Constructed once per process run from
/// the platform home directory and immutable thereafter.
pub struct PathSettings {
    /// The application's root storage directory.
    pub root: String,
    /// The journal subdirectory, reserved for future use.
    pub journal: String,
    /// The notes subdirectory the store works in.
    pub notes: String,
}

impl PathSettings {
    /// Resolves the storage paths under the given home directory: the
    /// root is `<home>/.stratonotes`, with `journal` and `notes` under
    /// it.  The path separator is `'/'`.
    pub fn new(home: &str) -> (s: PathSettings)
        ensures
            s.root@ == home@ + "/.stratonotes"@,
            s.journal@ == s.root@ + "/journal"@,
            s.notes@ == s.root@ + "/notes"@,
    {
        let mut root = String::from_str(home);
        root.append("/.stratonotes");
        let mut journal = root.clone();
        journal.append("/journal");
        let mut notes = root.clone();
        notes.append("/notes");
        PathSettings { root, journal, notes }
    }

    /// Whether all three configured directories are present, given the
    /// caller's existence check of each.
    pub fn exists_all(&self, root_exists: bool, journal_exists: bool, notes_exists: bool) -> (b:
        bool)
        ensures
            b == (root_exists && journal_exists && notes_exists),
    {
        root_exists && journal_exists && notes_exists
    }
}

} // verus!
