//! The weekly digest generator: the schedule rule, the trailing-window
//! aggregation of note text, and persisting the generated summary as a new
//! note.  The network call to the summarization backend sits between
//! planning and persisting and is the host layer's: on its failure nothing
//! is written, so digest creation is all-or-nothing.

use vstd::prelude::*;
use vstd::string::StringExecFns;

use crate::clock::now_local;
use crate::clock::LocalStamp;
use crate::digits::dec_digits;
use crate::digits::u64_to_string;
use crate::errors::StoreError;
use crate::store::has_path;
use crate::store::EntryView;
use crate::store::NoteStore;
use crate::store::StoreView;

verus! {

/// The day of week (days since Monday) on which a digest becomes due.
pub const BOUNDARY_WEEKDAY: u8 = 5;

/// The seconds in the trailing window a digest aggregates over.
pub const WINDOW_SECONDS: i64 = 7 * 86400;

/// A number rendered in decimal with at least two digits.
pub open spec fn pad2(n: int) -> Seq<char> {
    if n <= 9 {
        seq!['0'] + dec_digits(n)
    } else {
        dec_digits(n)
    }
}

/// A number rendered in decimal with at least four digits.
pub open spec fn pad4(n: int) -> Seq<char> {
    if n <= 9 {
        seq!['0', '0', '0'] + dec_digits(n)
    } else if n <= 99 {
        seq!['0', '0'] + dec_digits(n)
    } else if n <= 999 {
        seq!['0'] + dec_digits(n)
    } else {
        dec_digits(n)
    }
}

/// A calendar year, four digits or more, with a leading minus sign for
/// years before the common era.
pub open spec fn spec_year(y: int) -> Seq<char> {
    if y < 0 {
        seq!['-'] + pad4(-y)
    } else {
        pad4(y)
    }
}

/// A civil date in `YYYY-MM-DD` form.
pub open spec fn spec_format_date(y: int, m: int, d: int) -> Seq<char> {
    spec_year(y) + seq!['-'] + pad2(m) + seq!['-'] + pad2(d)
}

/// Renders a civil date as `YYYY-MM-DD`.
pub fn format_date(y: i64, m: u8, d: u8) -> (s: String)
    requires
        -263000 <= y <= 263000,
    ensures
        s@ == spec_format_date(y as int, m as int, d as int),
{
    proof {
        reveal_strlit("-");
        reveal_strlit("0");
        reveal_strlit("00");
        reveal_strlit("000");
    }
    let mut s = String::new();
    if y < 0 {
        s.append("-");
    }
    let ay: u64 = if y < 0 {
        (-y) as u64
    } else {
        y as u64
    };
    if ay <= 9 {
        s.append("000");
    } else if ay <= 99 {
        s.append("00");
    } else if ay <= 999 {
        s.append("0");
    }
    let ys = u64_to_string(ay);
    s.append(ys.as_str());
    proof {
        assert(s@ =~= spec_year(y as int));
    }
    s.append("-");
    if m <= 9 {
        s.append("0");
    }
    let ms = u64_to_string(m as u64);
    s.append(ms.as_str());
    s.append("-");
    if d <= 9 {
        s.append("0");
    }
    let ds = u64_to_string(d as u64);
    s.append(ds.as_str());
    proof {
        assert(s@ =~= spec_format_date(y as int, m as int, d as int));
    }
    s
}

/// The candidate path of the digest note for a given date.
pub open spec fn digest_path(dir: Seq<char>, date: Seq<char>) -> Seq<char> {
    dir + seq!['/'] + date + seq!['.', 'm', 'd']
}

/// Whether a creation instant falls in the trailing window ending at
/// `now`: at most seven days old, and not after `now` (clock skew ahead of
/// the present is excluded).
pub open spec fn in_window(created: i64, now: i64) -> bool {
    now - WINDOW_SECONDS <= created && created <= now
}

/// Whether an entry aborts a due digest run: its metadata could not be
/// read, or it falls in the window but its text could not be read.
pub open spec fn blocks_digest(e: EntryView, now: i64) -> bool {
    e.created is None || (in_window(e.created.unwrap(), now) && e.content is None)
}

/// The texts of the entries whose creation time falls in the window, in
/// entry order.
pub open spec fn spec_bodies(s: Seq<EntryView>, now: i64) -> Seq<Seq<char>>
    decreases s.len(),
{
    if s.len() == 0 {
        Seq::empty()
    } else if s.last().created is Some && in_window(s.last().created.unwrap(), now)
        && s.last().content is Some {
        spec_bodies(s.drop_last(), now).push(s.last().content.unwrap())
    } else {
        spec_bodies(s.drop_last(), now)
    }
}

/// The aggregated texts, separated by blank lines so that one note's
/// trailing line cannot run into the next note's heading.
pub open spec fn spec_join(bs: Seq<Seq<char>>) -> Seq<char>
    decreases bs.len(),
{
    if bs.len() == 0 {
        Seq::empty()
    } else if bs.len() == 1 {
        bs[0]
    } else {
        spec_join(bs.drop_last()) + seq!['\n', '\n'] + bs.last()
    }
}

/// The stored text of a digest note: an H1 `Summary` heading with the
/// date, a blank line, and the generated narrative.
pub open spec fn spec_digest_content(date: Seq<char>, response: Seq<char>) -> Seq<char> {
    "# Summary "@ + date + seq!['\n', '\n'] + response
}

/// A due digest run, ready for the summarization backend: the date, the
/// path the digest note will be created at, and the aggregated note text
/// to summarize.
#[derive(Debug)]
pub struct DigestPlan {
    /// The civil date, `YYYY-MM-DD`.
    pub date: String,
    /// Where the digest note will be written.
    pub path: String,
    /// The concatenated bodies of the notes in the window.
    pub body: String,
}

/// The mathematical value of a [`DigestPlan`].
#[verifier::ext_equal]
pub struct PlanView {
    pub date: Seq<char>,
    pub path: Seq<char>,
    pub body: Seq<char>,
}

impl View for DigestPlan {
    type V = PlanView;

    open spec fn view(&self) -> PlanView {
        PlanView { date: self.date@, path: self.path@, body: self.body@ }
    }
}

/// What evaluating the schedule at time `t` yields.  Due means: `t` falls
/// on the boundary weekday and no file sits at the digest path yet;
/// otherwise the run reports `NotDueToday`.  A due run fails with
/// `IoError` when the notes path is not a directory or when any entry's
/// metadata — or the text of an entry in the window — could not be read;
/// otherwise it yields the plan.
pub open spec fn spec_plan(v: StoreView, t: LocalStamp) -> Result<PlanView, StoreError> {
    let date = spec_format_date(t.year as int, t.month as int, t.day as int);
    let dpath = digest_path(v.dir, date);
    if t.weekday != BOUNDARY_WEEKDAY || has_path(v.entries, dpath) {
        Err(StoreError::NotDueToday)
    } else if !v.is_dir {
        Err(StoreError::IoError)
    } else if exists|i: int| 0 <= i < v.entries.len() && blocks_digest(v.entries[i], t.secs) {
        Err(StoreError::IoError)
    } else {
        Ok(PlanView { date, path: dpath, body: spec_join(spec_bodies(v.entries, t.secs)) })
    }
}

/// How a concrete planning result relates to [`spec_plan`].
pub open spec fn plan_result_matches(
    v: StoreView,
    t: LocalStamp,
    r: Result<PlanView, StoreError>,
) -> bool {
    match spec_plan(v, t) {
        Ok(p) => r is Ok && r->Ok_0 == p,
        Err(e) => r is Err && r->Err_0 == e,
    }
}

/// The mathematical value of a planning result.
pub open spec fn plan_view(r: Result<DigestPlan, StoreError>) -> Result<PlanView, StoreError> {
    match r {
        Ok(p) => Ok(p@),
        Err(e) => Err(e),
    }
}

impl NoteStore {
    /// Evaluates the digest schedule at the given clock reading, per
    /// [`spec_plan`].
    pub fn plan_digest_at(&self, t: &LocalStamp) -> (r: Result<DigestPlan, StoreError>)
        requires
            self.wf(),
            t.wf(),
        ensures
            plan_result_matches(self@, *t, plan_view(r)),
    {
        let date = format_date(t.year, t.month, t.day);
        let mut dpath = self.dir.clone();
        dpath.append("/");
        dpath.append(date.as_str());
        dpath.append(".md");
        proof {
            reveal_strlit("/");
            reveal_strlit(".md");
            assert(dpath@ =~= digest_path(self@.dir, date@));
        }
        if t.weekday != BOUNDARY_WEEKDAY || self.contains_path(dpath.as_str()) {
            return Err(StoreError::NotDueToday);
        }
        if !self.is_dir {
            return Err(StoreError::IoError);
        }
        let n = self.entries.len();
        let mut body = String::new();
        let mut any = false;
        let mut i: usize = 0;
        while i < n
            invariant
                self.wf(),
                t.wf(),
                self@.is_dir,
                t.weekday == BOUNDARY_WEEKDAY,
                !has_path(
                    self@.entries,
                    digest_path(
                        self@.dir,
                        spec_format_date(t.year as int, t.month as int, t.day as int),
                    ),
                ),
                n == self@.entries.len(),
                0 <= i <= n,
                forall|m: int|
                    0 <= m < i ==> !blocks_digest(#[trigger] self@.entries[m], t.secs),
                body@ == spec_join(spec_bodies(self@.entries.subrange(0, i as int), t.secs)),
                any == (spec_bodies(self@.entries.subrange(0, i as int), t.secs).len() > 0),
            decreases n - i,
        {
            let ghost pre = self@.entries.subrange(0, i as int);
            let ghost cur = self@.entries.subrange(0, i as int + 1);
            proof {
                assert(cur.drop_last() =~= pre);
                assert(cur.last() == self@.entries[i as int]);
            }
            match self.entries[i].created {
                None => {
                    proof {
                        assert(blocks_digest(self@.entries[i as int], t.secs));
                    }
                    return Err(StoreError::IoError);
                },
                Some(created) => {
                    if t.secs - WINDOW_SECONDS <= created && created <= t.secs {
                        match &self.entries[i].content {
                            None => {
                                proof {
                                    assert(blocks_digest(self@.entries[i as int], t.secs));
                                }
                                return Err(StoreError::IoError);
                            },
                            Some(text) => {
                                if any {
                                    body.append("\n\n");
                                }
                                body.append(text.as_str());
                                any = true;
                                proof {
                                    reveal_strlit("\n\n");
                                    let bs = spec_bodies(pre, t.secs);
                                    assert(spec_bodies(cur, t.secs) =~= bs.push(text@));
                                    if bs.len() > 0 {
                                        assert(bs.push(text@).drop_last() =~= bs);
                                        assert(body@ =~= spec_join(bs.push(text@)));
                                    } else {
                                        assert(body@ =~= spec_join(bs.push(text@)));
                                    }
                                }
                            },
                        }
                    } else {
                        proof {
                            assert(spec_bodies(cur, t.secs) =~= spec_bodies(pre, t.secs));
                        }
                    }
                },
            }
            i += 1;
        }
        proof {
            assert(self@.entries.subrange(0, n as int) =~= self@.entries);
        }
        Ok(DigestPlan { date, path: dpath, body })
    }

    /// Reads the local clock and evaluates the digest schedule on it: for
    /// whatever valid reading the clock gave, the result is what
    /// [`spec_plan`] states for it.
    pub fn plan_weekly_digest(&self) -> (r: Result<DigestPlan, StoreError>)
        requires
            self.wf(),
        ensures
            exists|t: LocalStamp|
                t.wf() && #[trigger] plan_result_matches(self@, t, plan_view(r)),
    {
        let t = now_local();
        let r = self.plan_digest_at(&t);
        proof {
            assert(plan_result_matches(self@, t, plan_view(r)));
        }
        r
    }

    /// Persists a summarized digest: creates the digest note at the
    /// planned path with the `"# Summary <date>"` heading and the
    /// backend's narrative, and returns the stored text.  Fails with
    /// `NotDueToday`, touching nothing, when the digest note already
    /// exists, and with `IoError` when the notes path is not a directory.
    pub fn apply_digest(&mut self, plan: &DigestPlan, response: &str) -> (r: Result<
        String,
        StoreError,
    >)
        requires
            old(self).wf(),
        ensures
            final(self).wf(),
            final(self)@.dir == old(self)@.dir,
            final(self)@.is_dir == old(self)@.is_dir,
            !old(self)@.is_dir ==> r is Err && r->Err_0 == StoreError::IoError
                && final(self)@ == old(self)@,
            old(self)@.is_dir && has_path(old(self)@.entries, plan@.path) ==> r is Err
                && r->Err_0 == StoreError::NotDueToday && final(self)@ == old(self)@,
            old(self)@.is_dir && !has_path(old(self)@.entries, plan@.path) ==> {
                &&& r is Ok
                &&& r->Ok_0@ == spec_digest_content(plan@.date, response@)
                &&& final(self)@.entries.len() == old(self)@.entries.len() + 1
                &&& final(self)@.entries.subrange(0, old(self)@.entries.len() as int)
                    == old(self)@.entries
                &&& final(self)@.entries.last().path == plan@.path
                &&& final(self)@.entries.last().content == Some(
                    spec_digest_content(plan@.date, response@),
                )
                &&& final(self)@.entries.last().created is Some
                &&& final(self)@.entries.last().updated == final(self)@.entries.last().created
            },
    {
        if !self.is_dir {
            return Err(StoreError::IoError);
        }
        if self.contains_path(plan.path.as_str()) {
            return Err(StoreError::NotDueToday);
        }
        let mut text = String::from_str("# Summary ");
        text.append(plan.date.as_str());
        text.append("\n\n");
        text.append(response);
        proof {
            reveal_strlit("\n\n");
            assert(text@ =~= spec_digest_content(plan@.date, response@));
        }
        let out = text.clone();
        let stamp = now_local();
        let entry = crate::store::FileEntry {
            path: plan.path.clone(),
            content: Some(text),
            created: Some(stamp.secs),
            updated: Some(stamp.secs),
        };
        self.entries.push(entry);
        proof {
            assert(final(self)@.entries =~= old(self)@.entries.push(entry@));
            assert(final(self)@.entries.subrange(0, old(self)@.entries.len() as int)
                =~= old(self)@.entries);
            assert forall|a: int, b: int|
                0 <= a < b < final(self)@.entries.len() implies final(self)@.entries[a].path
                != final(self)@.entries[b].path by {
                if b == final(self)@.entries.len() - 1 {
                    assert(!has_path(old(self)@.entries, plan@.path));
                    assert(final(self)@.entries[a] == old(self)@.entries[a]);
                }
            }
        }
        Ok(out)
    }
}

/// The fixed instruction text a digest run hands the summarization
/// backend ahead of the aggregated note bodies: an objective, narrative
/// summary style.
pub open spec fn spec_digest_preamble() -> Seq<char> {
    "Summarize and create a report using the text in the prompt. Try to avoid referring to the author or refer to it as The text, be objective as much as possible and just simply state what is in the texts in a more narrative and seamless flow, as well as make it more digestible."@
}

/// The fixed instruction text handed to the summarization backend before
/// the aggregated note bodies.
pub fn digest_preamble() -> (r: &'static str)
    ensures
        r@ == spec_digest_preamble(),
{
    "Summarize and create a report using the text in the prompt. Try to avoid referring to the author or refer to it as The text, be objective as much as possible and just simply state what is in the texts in a more narrative and seamless flow, as well as make it more digestible."
}

/// Once the digest note for the day exists, re-evaluating the schedule on
/// the same day yields `NotDueToday`: digest generation is idempotent per
/// calendar day, however often the check is re-run.
pub proof fn lemma_digest_once_per_day(v: StoreView, t: LocalStamp, e: EntryView, v2: StoreView)
    requires
        spec_plan(v, t) is Ok,
        e.path == spec_plan(v, t)->Ok_0.path,
        v2.dir == v.dir,
        v2.entries == v.entries.push(e),
    ensures
        spec_plan(v2, t) == Err::<PlanView, StoreError>(StoreError::NotDueToday),
{
    let date = spec_format_date(t.year as int, t.month as int, t.day as int);
    let dpath = digest_path(v2.dir, date);
    assert(v2.entries[v2.entries.len() - 1].path == dpath);
    assert(has_path(v2.entries, dpath));
}

} // verus!
