//! Line scanning over note text: white space, trimming, and extraction of
//! the display title from the first Markdown H1 heading.

use vstd::prelude::*;
use vstd::string::StrSliceExecFns;
use vstd::string::StringExecFns;

verus! {

/// The characters with the Unicode `White_Space` property, which is what a
/// note line is trimmed of before the heading test.
pub open spec fn is_space(c: char) -> bool {
    let u = c as u32;
    u == 0x20 || (0x9 <= u && u <= 0xd) || u == 0x85 || u == 0xa0 || u == 0x1680 || (0x2000 <= u
        && u <= 0x200a) || u == 0x2028 || u == 0x2029 || u == 0x202f || u == 0x205f || u == 0x3000
}

/// Runtime test for [`is_space`].
pub fn is_space_char(c: char) -> (b: bool)
    ensures
        b == is_space(c),
{
    let u = c as u32;
    u == 0x20 || (0x9 <= u && u <= 0xd) || u == 0x85 || u == 0xa0 || u == 0x1680 || (0x2000 <= u
        && u <= 0x200a) || u == 0x2028 || u == 0x2029 || u == 0x202f || u == 0x205f || u == 0x3000
}

/// The sequence with its leading white space removed.
pub open spec fn trim_start(s: Seq<char>) -> Seq<char>
    decreases s.len(),
{
    if s.len() > 0 && is_space(s[0]) {
        trim_start(s.drop_first())
    } else {
        s
    }
}

/// The sequence with its trailing white space removed.
pub open spec fn trim_end(s: Seq<char>) -> Seq<char>
    decreases s.len(),
{
    if s.len() > 0 && is_space(s.last()) {
        trim_end(s.drop_last())
    } else {
        s
    }
}

/// The sequence with white space removed from both ends.
pub open spec fn trim(s: Seq<char>) -> Seq<char> {
    trim_end(trim_start(s))
}

/// The position of the first line break in `s`, or `s.len()` if there is
/// none.
pub open spec fn line_break(s: Seq<char>) -> int
    decreases s.len(),
{
    if s.len() == 0 {
        0
    } else if s[0] == '\n' {
        0
    } else {
        1 + line_break(s.drop_first())
    }
}

/// A position before which no `'\n'` occurs, and which holds `'\n'` or is
/// the end, is the first line break.
pub proof fn lemma_line_break_is(s: Seq<char>, k: int)
    requires
        0 <= k <= s.len(),
        forall|m: int| 0 <= m < k ==> s[m] != '\n',
        k < s.len() ==> s[k] == '\n',
    ensures
        line_break(s) == k,
    decreases s.len(),
{
    if s.len() > 0 && s[0] != '\n' {
        lemma_line_break_is(s.drop_first(), k - 1);
    }
}

/// Whether a line, once trimmed, is a Markdown H1 heading: it starts with
/// `'#'` followed by a space.
pub open spec fn spec_h1(line: Seq<char>) -> bool {
    trim(line).len() >= 2 && trim(line)[0] == '#' && trim(line)[1] == ' '
}

/// The display title of note text: the text after `"# "` on the first line
/// whose trimmed form is an H1 heading, or nothing if no such line exists.
/// Lines are separated by `'\n'`; blank and non-heading lines are passed
/// over without ending the scan.
pub open spec fn spec_title(s: Seq<char>) -> Option<Seq<char>>
    decreases s.len(),
{
    if s.len() == 0 {
        None
    } else {
        let k = line_break_capped(s);
        let line = s.subrange(0, k);
        if spec_h1(line) {
            Some(trim(line).skip(2))
        } else if k == s.len() {
            None
        } else {
            spec_title(s.subrange(k + 1, s.len() as int))
        }
    }
}

/// `line_break`, bounded into `[0, s.len()]` so that recursion over the
/// remainder of the text visibly terminates.
pub open spec fn line_break_capped(s: Seq<char>) -> int {
    if 0 <= line_break(s) <= s.len() {
        line_break(s)
    } else {
        s.len() as int
    }
}

/// The lines of note text: the segments between `'\n'` breaks, in order.
pub open spec fn spec_lines(s: Seq<char>) -> Seq<Seq<char>>
    decreases s.len(),
{
    if s.len() == 0 {
        Seq::empty()
    } else {
        let k = line_break_capped(s);
        if k == s.len() {
            seq![s]
        } else {
            seq![s.subrange(0, k)] + spec_lines(s.subrange(k + 1, s.len() as int))
        }
    }
}

/// A blank line — white space only — is never a heading, so the title
/// scan passes over it.
pub proof fn lemma_blank_line_no_heading(line: Seq<char>)
    requires
        forall|i: int| 0 <= i < line.len() ==> is_space(#[trigger] line[i]),
    ensures
        trim(line).len() == 0,
        !spec_h1(line),
    decreases line.len(),
{
    if line.len() > 0 {
        assert forall|i: int|
            0 <= i < line.drop_first().len() implies is_space(#[trigger] line.drop_first()[i]) by {
            assert(line.drop_first()[i] == line[i + 1]);
        }
        lemma_blank_line_no_heading(line.drop_first());
        assert(trim_start(line) == trim_start(line.drop_first()));
    }
}

/// When no line of the text is a heading, there is no title: the scan
/// passes over every blank and non-heading line without terminating, to
/// the end of the text.
pub proof fn lemma_title_absent(s: Seq<char>)
    requires
        forall|i: int| 0 <= i < spec_lines(s).len() ==> !spec_h1(#[trigger] spec_lines(s)[i]),
    ensures
        spec_title(s) is None,
    decreases s.len(),
{
    if s.len() > 0 {
        let k = line_break_capped(s);
        let line = s.subrange(0, k);
        if k == s.len() {
            assert(spec_lines(s)[0] == s);
            assert(line =~= s);
        } else {
            assert(spec_lines(s)[0] == line);
            let rest = s.subrange(k + 1, s.len() as int);
            assert forall|i: int|
                0 <= i < spec_lines(rest).len() implies !spec_h1(
                #[trigger] spec_lines(rest)[i],
            ) by {
                assert(spec_lines(s)[i + 1] == spec_lines(rest)[i]);
            }
            lemma_title_absent(rest);
        }
    }
}

/// The first heading decides the title: when line `i` is the first whose
/// trimmed form is an H1 heading, the title is that line's text after
/// `"# "`.  Earlier blank and plain lines are skipped without ending the
/// scan, and every later heading is ignored.
pub proof fn lemma_title_first_heading(s: Seq<char>, i: int)
    requires
        0 <= i < spec_lines(s).len(),
        spec_h1(spec_lines(s)[i]),
        forall|j: int| 0 <= j < i ==> !spec_h1(#[trigger] spec_lines(s)[j]),
    ensures
        spec_title(s) == Some(trim(spec_lines(s)[i]).skip(2)),
    decreases s.len(),
{
    let k = line_break_capped(s);
    let line = s.subrange(0, k);
    if k == s.len() {
        assert(spec_lines(s)[0] == s);
        assert(line =~= s);
    } else {
        assert(spec_lines(s)[0] == line);
        if i > 0 {
            let rest = s.subrange(k + 1, s.len() as int);
            assert(!spec_h1(line));
            assert forall|j: int|
                0 <= j < i - 1 implies !spec_h1(#[trigger] spec_lines(rest)[j]) by {
                assert(spec_lines(s)[j + 1] == spec_lines(rest)[j]);
            }
            assert(spec_lines(rest)[i - 1] == spec_lines(s)[i]);
            lemma_title_first_heading(rest, i - 1);
        }
    }
}

/// Runtime equality of two string slices by their character sequences.
pub fn str_eq(a: &str, b: &str) -> (r: bool)
    ensures
        r == (a@ == b@),
{
    let an = a.unicode_len();
    let bn = b.unicode_len();
    if an != bn {
        return false;
    }
    let mut i: usize = 0;
    while i < an
        invariant
            an == a@.len(),
            an == b@.len(),
            0 <= i <= an,
            forall|m: int| 0 <= m < i ==> a@[m] == b@[m],
        decreases an - i,
    {
        if a.get_char(i) != b.get_char(i) {
            return false;
        }
        i += 1;
    }
    proof {
        assert(a@ =~= b@);
    }
    true
}

/// Extracts the display title of `content`: the text after `"# "` on the
/// first line whose trimmed form is an H1 heading.
pub fn extract_title(content: &str) -> (t: Option<String>)
    ensures
        t is Some <==> spec_title(content@) is Some,
        t is Some ==> t.unwrap()@ == spec_title(content@).unwrap(),
{
    let n = content.unicode_len();
    proof {
        assert(content@.subrange(0, n as int) =~= content@);
    }
    let mut i: usize = 0;
    loop
        invariant
            n == content@.len(),
            0 <= i <= n,
            spec_title(content@) == spec_title(content@.subrange(i as int, n as int)),
        decreases n - i,
    {
        if i == n {
            proof {
                assert(content@.subrange(i as int, n as int).len() == 0);
            }
            return None;
        }
        // Find the end of the current line.
        let mut j: usize = i;
        while j < n && content.get_char(j) != '\n'
            invariant
                n == content@.len(),
                i <= j <= n,
                forall|m: int| i <= m < j ==> content@[m] != '\n',
            decreases n - j,
        {
            j += 1;
        }
        // Trim the line in place: advance the start over white space,
        // then pull the end back over white space.
        let ghost rest = content@.subrange(i as int, n as int);
        let ghost line = content@.subrange(i as int, j as int);
        proof {
            lemma_line_break_is(rest, j - i);
            assert(rest.subrange(0, j - i) =~= line);
        }
        let mut ts: usize = i;
        while ts < j && is_space_char(content.get_char(ts))
            invariant
                n == content@.len(),
                i <= ts <= j <= n,
                trim_start(line) == trim_start(content@.subrange(ts as int, j as int)),
            decreases j - ts,
        {
            proof {
                let cur = content@.subrange(ts as int, j as int);
                assert(cur.drop_first() =~= content@.subrange(ts as int + 1, j as int));
            }
            ts += 1;
        }
        proof {
            let cur = content@.subrange(ts as int, j as int);
            assert(trim_start(cur) == cur);
        }
        let mut te: usize = j;
        while te > ts && is_space_char(content.get_char(te - 1))
            invariant
                n == content@.len(),
                i <= ts <= te <= j <= n,
                trim_start(line) == content@.subrange(ts as int, j as int),
                trim_end(content@.subrange(ts as int, j as int)) == trim_end(
                    content@.subrange(ts as int, te as int),
                ),
            decreases te - ts,
        {
            proof {
                let cur = content@.subrange(ts as int, te as int);
                assert(cur.drop_last() =~= content@.subrange(ts as int, te as int - 1));
            }
            te -= 1;
        }
        proof {
            let cur = content@.subrange(ts as int, te as int);
            assert(trim_end(cur) == cur);
            assert(trim(line) == content@.subrange(ts as int, te as int));
        }
        if te - ts >= 2 && content.get_char(ts) == '#' && content.get_char(ts + 1) == ' ' {
            let title = content.substring_char(ts + 2, te);
            proof {
                assert(trim(line)[0] == '#');
                assert(trim(line)[1] == ' ');
                assert(spec_h1(line));
                assert(title@ =~= trim(line).skip(2));
            }
            return Some(String::from_str(title));
        }
        proof {
            let tl = trim(line);
            assert(!spec_h1(line)) by {
                if tl.len() >= 2 {
                    assert(tl[0] == content@[ts as int]);
                    assert(tl[1] == content@[ts as int + 1]);
                }
            }
        }
        if j == n {
            return None;
        }
        proof {
            assert(rest.subrange(j - i + 1, rest.len() as int) =~= content@.subrange(
                j as int + 1,
                n as int,
            ));
        }
        i = j + 1;
    }
}

} // verus!
