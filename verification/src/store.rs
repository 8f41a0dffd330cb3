//! The note store: a snapshot of the notes directory, with the catalog,
//! open, save, delete and collision-safe create operations verified against
//! it.  A host layer fills the snapshot from the real directory and mirrors
//! each successful mutation back to disk.

use vstd::prelude::*;
use vstd::string::StrSliceExecFns;
use vstd::string::StringExecFns;

use crate::clock::now_local;
use crate::digits::dec_digits;
use crate::digits::lemma_dec_digits_injective;
use crate::digits::lemma_dec_digits_len;
use crate::digits::u64_to_string;
use crate::errors::StoreError;
use crate::text::extract_title;
use crate::text::spec_title;
use crate::text::str_eq;

verus! {

/// One file of the notes directory as the snapshot holds it: its path, its
/// text if it could be read, and its filesystem timestamps if they could be
/// read (seconds since the Unix epoch, creation and last modification).
pub struct FileEntry {
    /// Full path of the file.
    pub path: String,
    /// The file's text, or nothing if reading it failed.
    pub content: Option<String>,
    /// Creation time, or nothing if the metadata could not be read.
    pub created: Option<i64>,
    /// Last-modification time, or nothing if the metadata could not be read.
    pub updated: Option<i64>,
}

/// The mathematical value of a [`FileEntry`].
#[verifier::ext_equal]
pub struct EntryView {
    pub path: Seq<char>,
    pub content: Option<Seq<char>>,
    pub created: Option<i64>,
    pub updated: Option<i64>,
}

impl View for FileEntry {
    type V = EntryView;

    open spec fn view(&self) -> EntryView {
        EntryView {
            path: self.path@,
            content: match self.content {
                Some(c) => Some(c@),
                None => None,
            },
            created: self.created,
            updated: self.updated,
        }
    }
}

/// One note as the catalog reports it: its path, the display title derived
/// from its text, and its timestamps.
#[derive(Debug)]
pub struct Note {
    /// Full path of the note file; the note's identity.
    pub path: String,
    /// Text of the first Markdown H1 heading, if the note has one.
    pub title: Option<String>,
    /// Creation time, seconds since the Unix epoch.
    pub created: i64,
    /// Last-modification time, seconds since the Unix epoch.
    pub updated: i64,
}

/// The mathematical value of a [`Note`].
#[verifier::ext_equal]
pub struct NoteView {
    pub path: Seq<char>,
    pub title: Option<Seq<char>>,
    pub created: i64,
    pub updated: i64,
}

impl View for Note {
    type V = NoteView;

    open spec fn view(&self) -> NoteView {
        NoteView {
            path: self.path@,
            title: match self.title {
                Some(t) => Some(t@),
                None => None,
            },
            created: self.created,
            updated: self.updated,
        }
    }
}

/// The sequence of entry values of a sequence of entries.
pub open spec fn entries_view(s: Seq<FileEntry>) -> Seq<EntryView> {
    s.map_values(|e: FileEntry| e@)
}

/// The sequence of note values of a sequence of notes.
pub open spec fn notes_view(s: Seq<Note>) -> Seq<NoteView> {
    s.map_values(|n: Note| n@)
}

/// A snapshot of the notes directory.
pub struct NoteStore {
    /// Full path of the configured notes directory.
    pub dir: String,
    /// Whether that path exists and is a directory.
    pub is_dir: bool,
    /// The files under the directory.
    pub entries: Vec<FileEntry>,
}

/// The mathematical value of a [`NoteStore`]: the directory path, whether
/// that path is a directory, and the files under it.
#[verifier::ext_equal]
pub struct StoreView {
    pub dir: Seq<char>,
    pub is_dir: bool,
    pub entries: Seq<EntryView>,
}

impl View for NoteStore {
    type V = StoreView;

    open spec fn view(&self) -> StoreView {
        StoreView { dir: self.dir@, is_dir: self.is_dir, entries: entries_view(self.entries@) }
    }
}

/// Entries name pairwise distinct paths: a note's identity is its path.
pub open spec fn wf_entries(s: Seq<EntryView>) -> bool {
    forall|i: int, j: int| 0 <= i < j < s.len() ==> s[i].path != s[j].path
}

impl StoreView {
    /// Paths are pairwise distinct, and a path that is not a directory
    /// holds no files.
    pub open spec fn wf(self) -> bool {
        wf_entries(self.entries) && (!self.is_dir ==> self.entries.len() == 0)
    }
}

impl NoteStore {
    /// The snapshot invariant; established by [`NoteStore::from_entries`]
    /// and preserved by every operation.
    pub open spec fn wf(&self) -> bool {
        self@.wf()
    }
}

/// Whether some entry has the path `p`.
pub open spec fn has_path(s: Seq<EntryView>, p: Seq<char>) -> bool {
    exists|i: int| 0 <= i < s.len() && s[i].path == p
}

/// Under pairwise-distinct paths, at most one entry has a given path.
pub proof fn lemma_unique_path_index(s: Seq<EntryView>, i: int, j: int)
    requires
        wf_entries(s),
        0 <= i < s.len(),
        0 <= j < s.len(),
        s[i].path == s[j].path,
    ensures
        i == j,
{
}

/// What opening a path returns: the text of the entry with that path, or
/// `NotFound` when no entry has it, or `IoError` when its text could not be
/// read.
pub open spec fn spec_open(v: StoreView, p: Seq<char>) -> Result<Seq<char>, StoreError> {
    if !has_path(v.entries, p) {
        Err(StoreError::NotFound)
    } else {
        let i = choose|i: int| 0 <= i < v.entries.len() && v.entries[i].path == p;
        match v.entries[i].content {
            Some(c) => Ok(c),
            None => Err(StoreError::IoError),
        }
    }
}

/// What saving does: it fully replaces the text of the entry at `p`, or
/// fails with `NotFound` when no entry has that path (saving never
/// creates).
pub open spec fn spec_save(v: StoreView, p: Seq<char>, c: Seq<char>) -> Result<
    StoreView,
    StoreError,
> {
    if !has_path(v.entries, p) {
        Err(StoreError::NotFound)
    } else {
        let i = choose|i: int| 0 <= i < v.entries.len() && v.entries[i].path == p;
        Ok(
            StoreView {
                dir: v.dir,
                is_dir: v.is_dir,
                entries: v.entries.update(
                    i,
                    EntryView {
                        path: v.entries[i].path,
                        content: Some(c),
                        created: v.entries[i].created,
                        updated: v.entries[i].updated,
                    },
                ),
            },
        )
    }
}

/// What deleting does: it removes the entry at `p`, or fails with
/// `NotFound` when no entry has that path.
pub open spec fn spec_delete(v: StoreView, p: Seq<char>) -> Result<StoreView, StoreError> {
    if !has_path(v.entries, p) {
        Err(StoreError::NotFound)
    } else {
        let i = choose|i: int| 0 <= i < v.entries.len() && v.entries[i].path == p;
        Ok(StoreView { dir: v.dir, is_dir: v.is_dir, entries: v.entries.remove(i) })
    }
}

impl NoteStore {
    /// Builds a snapshot from the directory path, whether it is a
    /// directory, and its files.  Refuses input that breaks the snapshot
    /// invariant: duplicate paths, or files under a non-directory.
    pub fn from_entries(dir: String, is_dir: bool, entries: Vec<FileEntry>) -> (r: Option<
        NoteStore,
    >)
        ensures
            match r {
                Some(s) => {
                    &&& s.wf()
                    &&& s@.dir == dir@
                    &&& s@.is_dir == is_dir
                    &&& s@.entries == entries_view(entries@)
                },
                None => !(wf_entries(entries_view(entries@)) && (is_dir || entries@.len() == 0)),
            },
    {
        if !is_dir && entries.len() > 0 {
            return None;
        }
        let n = entries.len();
        let mut i: usize = 0;
        while i < n
            invariant
                n == entries@.len(),
                0 <= i <= n,
                forall|a: int, b: int|
                    0 <= a < b < i ==> entries_view(entries@)[a].path != entries_view(
                        entries@,
                    )[b].path,
            decreases n - i,
        {
            let mut j: usize = 0;
            while j < i
                invariant
                    n == entries@.len(),
                    0 <= j <= i < n,
                    forall|b: int|
                        0 <= b < j ==> entries_view(entries@)[b].path != entries_view(
                            entries@,
                        )[i as int].path,
                decreases i - j,
            {
                if str_eq(entries[j].path.as_str(), entries[i].path.as_str()) {
                    proof {
                        let ev = entries_view(entries@);
                        assert(ev[j as int].path == ev[i as int].path);
                        assert(!wf_entries(ev));
                    }
                    return None;
                }
                j += 1;
            }
            proof {
                assert forall|a: int, b: int| 0 <= a < b < i + 1 implies entries_view(
                    entries@,
                )[a].path != entries_view(entries@)[b].path by {}
            }
            i += 1;
        }
        Some(NoteStore { dir, is_dir, entries })
    }

    /// The index of the entry with the given path, if any.
    fn find_entry(&self, path: &str) -> (r: Option<usize>)
        ensures
            match r {
                Some(i) => i < self@.entries.len() && self@.entries[i as int].path == path@,
                None => !has_path(self@.entries, path@),
            },
    {
        let n = self.entries.len();
        let mut i: usize = 0;
        while i < n
            invariant
                n == self@.entries.len(),
                0 <= i <= n,
                forall|m: int| 0 <= m < i ==> self@.entries[m].path != path@,
            decreases n - i,
        {
            if str_eq(self.entries[i].path.as_str(), path) {
                return Some(i);
            }
            i += 1;
        }
        None
    }

    /// Whether some entry of the snapshot has the given path.
    pub fn contains_path(&self, path: &str) -> (b: bool)
        ensures
            b == has_path(self@.entries, path@),
    {
        self.find_entry(path).is_some()
    }

    /// Returns the full text of the note at `file_path`, or `NotFound` when
    /// no such file exists, or `IoError` when it exists but could not be
    /// read.
    pub fn open_note(&self, file_path: &str) -> (r: Result<String, StoreError>)
        requires
            self.wf(),
        ensures
            match spec_open(self@, file_path@) {
                Ok(c) => r is Ok && r->Ok_0@ == c,
                Err(e) => r is Err && r->Err_0 == e,
            },
    {
        match self.find_entry(file_path) {
            None => Err(StoreError::NotFound),
            Some(i) => {
                proof {
                    let j = choose|j: int|
                        0 <= j < self@.entries.len() && self@.entries[j].path == file_path@;
                    lemma_unique_path_index(self@.entries, i as int, j);
                }
                match &self.entries[i].content {
                    Some(c) => Ok(c.clone()),
                    None => Err(StoreError::IoError),
                }
            },
        }
    }

    /// Overwrites the text of the note at `file_path` with `note_content`.
    /// Fails with `NotFound`, touching nothing, when no such file exists:
    /// saving never creates a file.
    pub fn save_note(&mut self, file_path: &str, note_content: &str) -> (r: Result<
        (),
        StoreError,
    >)
        requires
            old(self).wf(),
        ensures
            final(self).wf(),
            match spec_save(old(self)@, file_path@, note_content@) {
                Ok(v) => r is Ok && final(self)@ == v,
                Err(e) => r is Err && r->Err_0 == e && final(self)@ == old(self)@,
            },
    {
        match self.find_entry(file_path) {
            None => Err(StoreError::NotFound),
            Some(i) => {
                proof {
                    let j = choose|j: int|
                        0 <= j < self@.entries.len() && self@.entries[j].path == file_path@;
                    lemma_unique_path_index(self@.entries, i as int, j);
                }
                self.entries[i].content = Some(String::from_str(note_content));
                proof {
                    let v = spec_save(old(self)@, file_path@, note_content@)->Ok_0;
                    assert(final(self)@.entries =~= v.entries);
                    assert(final(self)@ =~= v);
                }
                Ok(())
            },
        }
    }

    /// Removes the note at `file_path` from the snapshot.  Fails with
    /// `NotFound`, touching nothing, when no such file exists.
    pub fn delete_note(&mut self, file_path: &str) -> (r: Result<(), StoreError>)
        requires
            old(self).wf(),
        ensures
            final(self).wf(),
            match spec_delete(old(self)@, file_path@) {
                Ok(v) => r is Ok && final(self)@ == v,
                Err(e) => r is Err && r->Err_0 == e && final(self)@ == old(self)@,
            },
    {
        match self.find_entry(file_path) {
            None => Err(StoreError::NotFound),
            Some(i) => {
                proof {
                    let j = choose|j: int|
                        0 <= j < self@.entries.len() && self@.entries[j].path == file_path@;
                    lemma_unique_path_index(self@.entries, i as int, j);
                }
                self.entries.remove(i);
                proof {
                    let v = spec_delete(old(self)@, file_path@)->Ok_0;
                    assert(final(self)@.entries =~= v.entries);
                    assert(final(self)@ =~= v);
                }
                Ok(())
            },
        }
    }
}

/// Whether a path names a Markdown file: it ends in a dot, then `md` in
/// either letter case, and the dot does not open the file name (a bare
/// `.md` has no extension).  The path separator is `'/'`.
pub open spec fn is_md_path(p: Seq<char>) -> bool {
    let n = p.len() as int;
    n >= 4 && p[n - 3] == '.' && (p[n - 2] == 'm' || p[n - 2] == 'M') && (p[n - 1] == 'd' || p[n
        - 1] == 'D') && p[n - 4] != '/'
}

/// Runtime test for [`is_md_path`].
pub fn is_md_name(path: &str) -> (b: bool)
    ensures
        b == is_md_path(path@),
{
    let n = path.unicode_len();
    if n < 4 {
        return false;
    }
    let dot = path.get_char(n - 3);
    let m = path.get_char(n - 2);
    let d = path.get_char(n - 1);
    let before = path.get_char(n - 4);
    dot == '.' && (m == 'm' || m == 'M') && (d == 'd' || d == 'D') && before != '/'
}

/// An entry either is not a Markdown file or has everything the catalog
/// needs: its text and both timestamps.
pub open spec fn complete_md(e: EntryView) -> bool {
    is_md_path(e.path) ==> e.content is Some && e.created is Some && e.updated is Some
}

/// The note derived from a complete Markdown entry: the path itself, the
/// title extracted from the text, and the timestamps.
pub open spec fn spec_note_of(e: EntryView) -> NoteView {
    NoteView {
        path: e.path,
        title: spec_title(e.content.unwrap()),
        created: e.created.unwrap(),
        updated: e.updated.unwrap(),
    }
}

/// The notes derived from the Markdown entries of `s`, in entry order.
pub open spec fn spec_note_seq(s: Seq<EntryView>) -> Seq<NoteView>
    decreases s.len(),
{
    if s.len() == 0 {
        Seq::empty()
    } else if is_md_path(s.last().path) {
        spec_note_seq(s.drop_last()).push(spec_note_of(s.last()))
    } else {
        spec_note_seq(s.drop_last())
    }
}

/// How many entries of `s` are Markdown files.
pub open spec fn spec_md_count(s: Seq<EntryView>) -> int
    decreases s.len(),
{
    if s.len() == 0 {
        0int
    } else if is_md_path(s.last().path) {
        spec_md_count(s.drop_last()) + 1
    } else {
        spec_md_count(s.drop_last())
    }
}

/// What listing returns: `NotADirectory` when the configured path is not a
/// directory; `IoError` when any Markdown file's text or metadata could
/// not be read (metadata failure is fatal to the whole call, unlike
/// entries that never made it into the snapshot); otherwise one note per
/// Markdown file, in entry order.
pub open spec fn spec_list(v: StoreView) -> Result<Seq<NoteView>, StoreError> {
    if !v.is_dir {
        Err(StoreError::NotADirectory)
    } else if exists|i: int| 0 <= i < v.entries.len() && !complete_md(v.entries[i]) {
        Err(StoreError::IoError)
    } else {
        Ok(spec_note_seq(v.entries))
    }
}

impl NoteStore {
    /// Lists the notes of the directory: one entry per Markdown file, with
    /// its display title and timestamps, as [`spec_list`] states.
    pub fn fetch_notes(&self) -> (r: Result<Vec<Note>, StoreError>)
        requires
            self.wf(),
        ensures
            match spec_list(self@) {
                Ok(ns) => r is Ok && notes_view(r->Ok_0@) == ns,
                Err(e) => r is Err && r->Err_0 == e,
            },
    {
        if !self.is_dir {
            return Err(StoreError::NotADirectory);
        }
        let n = self.entries.len();
        let mut out: Vec<Note> = Vec::new();
        let mut i: usize = 0;
        while i < n
            invariant
                self.wf(),
                n == self@.entries.len(),
                0 <= i <= n,
                forall|m: int| 0 <= m < i ==> complete_md(#[trigger] self@.entries[m]),
                notes_view(out@) == spec_note_seq(self@.entries.subrange(0, i as int)),
            decreases n - i,
        {
            let ghost pre = self@.entries.subrange(0, i as int);
            let ghost cur = self@.entries.subrange(0, i as int + 1);
            proof {
                assert(cur.drop_last() =~= pre);
                assert(cur.last() == self@.entries[i as int]);
            }
            if is_md_name(self.entries[i].path.as_str()) {
                if self.entries[i].content.is_none() || self.entries[i].created.is_none()
                    || self.entries[i].updated.is_none() {
                    proof {
                        assert(!complete_md(self@.entries[i as int]));
                    }
                    return Err(StoreError::IoError);
                }
                let title = extract_title(self.entries[i].content.as_ref().unwrap().as_str());
                let note = Note {
                    path: self.entries[i].path.clone(),
                    title,
                    created: self.entries[i].created.unwrap(),
                    updated: self.entries[i].updated.unwrap(),
                };
                proof {
                    assert(note@ =~= spec_note_of(self@.entries[i as int]));
                }
                out.push(note);
                proof {
                    assert(notes_view(out@) =~= spec_note_seq(cur));
                }
            } else {
                proof {
                    assert(notes_view(out@) =~= spec_note_seq(cur));
                }
            }
            i += 1;
        }
        proof {
            assert(self@.entries.subrange(0, n as int) =~= self@.entries);
        }
        Ok(out)
    }
}

/// A successful listing returns exactly one note per Markdown entry: files
/// without the `md` extension contribute nothing to the catalog.
pub proof fn lemma_list_counts_md(v: StoreView)
    requires
        spec_list(v) is Ok,
    ensures
        spec_list(v)->Ok_0.len() == spec_md_count(v.entries),
{
    lemma_note_seq_len(v.entries);
}

/// The derived note sequence is as long as the Markdown entry count.
proof fn lemma_note_seq_len(s: Seq<EntryView>)
    ensures
        spec_note_seq(s).len() == spec_md_count(s),
    decreases s.len(),
{
    if s.len() > 0 {
        lemma_note_seq_len(s.drop_last());
    }
}

/// The candidate file path for a note titled `slug` under `dir`: the slug
/// itself for the first try, then `slug-1`, `slug-2`, … for the collision
/// probes.
pub open spec fn md_name(dir: Seq<char>, slug: Seq<char>, k: int) -> Seq<char> {
    if k == 0 {
        dir + seq!['/'] + slug + seq!['.', 'm', 'd']
    } else {
        dir + seq!['/'] + slug + seq!['-'] + dec_digits(k) + seq!['.', 'm', 'd']
    }
}

/// Distinct probe indices give distinct candidate paths.
pub proof fn lemma_md_name_injective(dir: Seq<char>, slug: Seq<char>, k1: int, k2: int)
    requires
        0 <= k1 < k2,
    ensures
        md_name(dir, slug, k1) != md_name(dir, slug, k2),
{
    lemma_dec_digits_len(k2);
    if k1 == 0 {
        assert(md_name(dir, slug, k1).len() < md_name(dir, slug, k2).len());
    } else {
        lemma_dec_digits_len(k1);
        if dec_digits(k1).len() == dec_digits(k2).len() {
            if md_name(dir, slug, k1) == md_name(dir, slug, k2) {
                let p = dir.len() + 1 + slug.len() + 1;
                let l = dec_digits(k1).len() as int;
                assert forall|t: int| 0 <= t < l implies dec_digits(k1)[t] == dec_digits(
                    k2,
                )[t] by {
                    assert(md_name(dir, slug, k1)[p + t] == dec_digits(k1)[t]);
                    assert(md_name(dir, slug, k2)[p + t] == dec_digits(k2)[t]);
                }
                assert(dec_digits(k1) =~= dec_digits(k2));
                lemma_dec_digits_injective(k1, k2);
            }
        } else {
            assert(md_name(dir, slug, k1).len() != md_name(dir, slug, k2).len());
        }
    }
}

/// `k` is the first probe index whose candidate path is unused: every
/// earlier candidate is taken, this one is free.
pub open spec fn is_least_fresh(v: StoreView, slug: Seq<char>, k: int) -> bool {
    &&& 0 <= k
    &&& !has_path(v.entries, md_name(v.dir, slug, k))
    &&& forall|j: int| 0 <= j < k ==> has_path(v.entries, #[trigger] md_name(v.dir, slug, j))
}

/// If the first `m` candidate paths are all taken, the directory holds at
/// least `m` files: candidates are pairwise distinct, so they pin down
/// `m` distinct entries.
proof fn lemma_taken_candidates_bound(v: StoreView, slug: Seq<char>, m: int)
    requires
        0 <= m,
        forall|j: int| 0 <= j < m ==> has_path(v.entries, #[trigger] md_name(v.dir, slug, j)),
    ensures
        m <= v.entries.len(),
{
    broadcast use vstd::seq_lib::seq_to_set_is_finite;

    let paths = Seq::new(v.entries.len(), |i: int| v.entries[i].path);
    let cands = Seq::new(m as nat, |j: int| md_name(v.dir, slug, j));
    assert(cands.no_duplicates()) by {
        assert forall|a: int, b: int|
            0 <= a < cands.len() && 0 <= b < cands.len() && a != b implies cands[a] != cands[b] by {
            if a < b {
                lemma_md_name_injective(v.dir, slug, a, b);
            } else {
                lemma_md_name_injective(v.dir, slug, b, a);
            }
        }
    }
    assert(cands.to_set().subset_of(paths.to_set())) by {
        assert forall|x: Seq<char>| cands.to_set().contains(x) implies paths.to_set().contains(
            x,
        ) by {
            let j = choose|j: int| 0 <= j < cands.len() && cands[j] == x;
            let i = choose|i: int| 0 <= i < v.entries.len() && v.entries[i].path == md_name(
                v.dir,
                slug,
                j,
            );
            assert(paths[i] == x);
        }
    }
    cands.unique_seq_to_set();
    paths.lemma_cardinality_of_set();
    vstd::set_lib::lemma_len_subset(cands.to_set(), paths.to_set());
}

/// The stored text of a created note: the title as an H1 heading, then a
/// blank line and the body when one is given.
pub open spec fn spec_compose(title: Seq<char>, body: Option<Seq<char>>) -> Seq<char> {
    match body {
        Some(b) => seq!['#', ' '] + title + seq!['\n', '\n'] + b,
        None => seq!['#', ' '] + title,
    }
}

/// The character sequence of an optional string slice.
pub open spec fn opt_str_view(o: Option<&str>) -> Option<Seq<char>> {
    match o {
        Some(s) => Some(s@),
        None => None,
    }
}

impl NoteStore {
    /// Builds the candidate path for probe index `k`.
    fn candidate_name(&self, slug: &str, k: usize) -> (r: String)
        ensures
            r@ == md_name(self@.dir, slug@, k as int),
    {
        let mut s = self.dir.clone();
        s.append("/");
        s.append(slug);
        if k > 0 {
            s.append("-");
            let ks = u64_to_string(k as u64);
            s.append(ks.as_str());
        }
        s.append(".md");
        proof {
            reveal_strlit("/");
            reveal_strlit("-");
            reveal_strlit(".md");
            assert(s@ =~= md_name(self@.dir, slug@, k as int));
        }
        s
    }

    /// Picks the first unused candidate path for a note titled `slug`:
    /// `slug.md` if free, else `slug-1.md`, `slug-2.md`, … — the first gap
    /// wins.
    pub fn pick_fresh_name(&self, slug: &str) -> (r: String)
        requires
            self.wf(),
        ensures
            !has_path(self@.entries, r@),
            exists|k: int| #[trigger] is_least_fresh(self@, slug@, k) && r@ == md_name(
                self@.dir,
                slug@,
                k,
            ),
    {
        let n = self.entries.len();
        let mut k: usize = 0;
        loop
            invariant
                self.wf(),
                n == self@.entries.len(),
                0 <= k <= n,
                forall|j: int|
                    0 <= j < k ==> has_path(self@.entries, #[trigger] md_name(self@.dir, slug@, j)),
            decreases n - k,
        {
            let cand = self.candidate_name(slug, k);
            if !self.contains_path(cand.as_str()) {
                proof {
                    assert(is_least_fresh(self@, slug@, k as int));
                }
                return cand;
            }
            proof {
                lemma_taken_candidates_bound(self@, slug@, k as int + 1);
            }
            k += 1;
        }
    }

    /// Creates a new note titled `title`, optionally with a body, at the
    /// first unused candidate path, and returns that path.  The stored
    /// text is `"# <title>"`, followed by a blank line and the body when
    /// one is given (the store always writes the heading itself, matching
    /// how the catalog derives titles).  Fails with `NotADirectory`,
    /// touching nothing, when the configured path is not a directory.
    pub fn create_note(&mut self, title: &str, content: Option<&str>) -> (r: Result<
        String,
        StoreError,
    >)
        requires
            old(self).wf(),
        ensures
            final(self).wf(),
            final(self)@.dir == old(self)@.dir,
            final(self)@.is_dir == old(self)@.is_dir,
            !old(self)@.is_dir ==> r is Err && r->Err_0 == StoreError::NotADirectory
                && final(self)@ == old(self)@,
            old(self)@.is_dir ==> {
                &&& r is Ok
                &&& exists|k: int| #[trigger] is_least_fresh(old(self)@, title@, k)
                    && r->Ok_0@ == md_name(old(self)@.dir, title@, k)
                &&& final(self)@.entries.len() == old(self)@.entries.len() + 1
                &&& final(self)@.entries.subrange(0, old(self)@.entries.len() as int)
                    == old(self)@.entries
                &&& final(self)@.entries.last().path == r->Ok_0@
                &&& final(self)@.entries.last().content == Some(
                    spec_compose(title@, opt_str_view(content)),
                )
                &&& final(self)@.entries.last().created is Some
                &&& final(self)@.entries.last().updated == final(self)@.entries.last().created
            },
    {
        if !self.is_dir {
            return Err(StoreError::NotADirectory);
        }
        let path = self.pick_fresh_name(title);
        let mut text = String::from_str("# ");
        text.append(title);
        if let Some(body) = content {
            text.append("\n\n");
            text.append(body);
        }
        proof {
            reveal_strlit("# ");
            reveal_strlit("\n\n");
            assert(text@ =~= spec_compose(title@, opt_str_view(content)));
        }
        let stamp = now_local();
        let entry = FileEntry {
            path: path.clone(),
            content: Some(text),
            created: Some(stamp.secs),
            updated: Some(stamp.secs),
        };
        self.entries.push(entry);
        proof {
            assert(final(self)@.entries =~= old(self)@.entries.push(entry@));
            assert(final(self)@.entries.subrange(0, old(self)@.entries.len() as int)
                =~= old(self)@.entries);
            assert forall|i: int, j: int|
                0 <= i < j < final(self)@.entries.len() implies final(self)@.entries[i].path
                != final(self)@.entries[j].path by {
                if j == final(self)@.entries.len() - 1 {
                    assert(!has_path(old(self)@.entries, path@));
                    assert(final(self)@.entries[i] == old(self)@.entries[i]);
                }
            }
        }
        Ok(path)
    }
}

/// Saving to an absent path reports `NotFound` and changes nothing, so a
/// later open of that path still reports `NotFound` rather than any new
/// content.
pub proof fn lemma_save_missing_then_open(v: StoreView, p: Seq<char>, c: Seq<char>)
    requires
        !has_path(v.entries, p),
    ensures
        spec_save(v, p, c) == Err::<StoreView, StoreError>(StoreError::NotFound),
        spec_open(v, p) == Err::<Seq<char>, StoreError>(StoreError::NotFound),
{
}

/// A successful save fully replaces the note's text: opening the same path
/// afterwards returns exactly the content that was saved, with no merge
/// and no append.
pub proof fn lemma_save_then_open(v: StoreView, p: Seq<char>, c: Seq<char>)
    requires
        v.wf(),
        spec_save(v, p, c) is Ok,
    ensures
        spec_open(spec_save(v, p, c)->Ok_0, p) == Ok::<Seq<char>, StoreError>(c),
{
    let i = choose|i: int| 0 <= i < v.entries.len() && v.entries[i].path == p;
    let v2 = spec_save(v, p, c)->Ok_0;
    assert(v2.entries[i].path == p);
    let j = choose|j: int| 0 <= j < v2.entries.len() && v2.entries[j].path == p;
    assert(v.entries[j].path == p);
    lemma_unique_path_index(v.entries, i, j);
}

/// After a delete of a path — whether it removed the entry or reported the
/// path missing — opening that path reports `NotFound`.
pub proof fn lemma_delete_then_open(v: StoreView, p: Seq<char>)
    requires
        v.wf(),
    ensures
        match spec_delete(v, p) {
            Ok(v2) => spec_open(v2, p) == Err::<Seq<char>, StoreError>(StoreError::NotFound),
            Err(e) => spec_open(v, p) == Err::<Seq<char>, StoreError>(StoreError::NotFound),
        },
{
    if has_path(v.entries, p) {
        let i = choose|i: int| 0 <= i < v.entries.len() && v.entries[i].path == p;
        let v2 = spec_delete(v, p)->Ok_0;
        assert forall|j: int| 0 <= j < v2.entries.len() implies v2.entries[j].path != p by {
            if j < i {
                assert(v2.entries[j] == v.entries[j]);
                if v.entries[j].path == p {
                    lemma_unique_path_index(v.entries, i, j);
                }
            } else {
                assert(v2.entries[j] == v.entries[j + 1]);
                if v.entries[j + 1].path == p {
                    lemma_unique_path_index(v.entries, i, j + 1);
                }
            }
        }
    }
}

} // verus!
