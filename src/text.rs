//! Lines of a text buffer and their displayed width.
use vstd::prelude::*;
use vstd::string::StrSliceExecFns;
use unicode_width::UnicodeWidthStr;

verus! {

/// The number of newline characters in `s`.
pub open spec fn newline_count(s: Seq<char>) -> nat
    decreases s.len(),
{
    if s.len() == 0 {
        0
    } else {
        newline_count(s.drop_last()) + if s.last() == '\n' { 1nat } else { 0nat }
    }
}

/// Where the last line of `s` begins: just past its last newline, or 0 where it has none.
pub open spec fn line_start(s: Seq<char>) -> int
    decreases s.len(),
{
    if s.len() == 0 {
        0
    } else if s.last() == '\n' {
        s.len() as int
    } else {
        line_start(s.drop_last())
    }
}

/// The text after the last newline of `s`, or all of `s` where it has none.
pub open spec fn trailing_line(s: Seq<char>) -> Seq<char> {
    s.subrange(line_start(s), s.len() as int)
}

/// The number of grid columns that `s` occupies when displayed.
pub uninterp spec fn display_width(s: Seq<char>) -> nat;

/// There are no more newlines than characters.
pub proof fn lemma_newline_count_bound(s: Seq<char>)
    ensures
        newline_count(s) <= s.len(),
    decreases s.len(),
{
    if s.len() > 0 {
        lemma_newline_count_bound(s.drop_last());
    }
}

/// A buffer without a newline is a single line: its last line is the whole buffer.
pub proof fn lemma_single_line(s: Seq<char>)
    requires
        newline_count(s) == 0,
    ensures
        line_start(s) == 0,
        trailing_line(s) == s,
    decreases s.len(),
{
    if s.len() > 0 {
        lemma_single_line(s.drop_last());
    }
    assert(s.subrange(0, s.len() as int) =~= s);
}

/// Whatever comes before the last newline, the last line is the text after it, and each
/// newline of the text before adds one to the count.
pub proof fn lemma_after_last_newline(p: Seq<char>, q: Seq<char>)
    requires
        newline_count(q) == 0,
    ensures
        line_start(p.push('\n') + q) == p.len() + 1,
        trailing_line(p.push('\n') + q) == q,
        newline_count(p.push('\n') + q) == newline_count(p) + 1,
    decreases q.len(),
{
    let s = p.push('\n') + q;
    if q.len() == 0 {
        assert(s =~= p.push('\n'));
        assert(s.drop_last() =~= p);
    } else {
        lemma_after_last_newline(p, q.drop_last());
        assert(s.drop_last() =~= p.push('\n') + q.drop_last());
        assert(q.last() != '\n');
        assert(s.last() == q.last());
    }
    assert(s.subrange(line_start(s), s.len() as int) =~= q);
}

/// Relies on unicode_width's `UnicodeWidthStr::width`: the displayed width of `s` in
/// columns, which depends on its characters alone; the empty string is 0 columns wide.
#[verifier::external_body]
fn str_width(s: &str) -> (r: usize)
    ensures
        r as nat == display_width(s@),
        s@.len() == 0 ==> r == 0,
{
    s.width()
}

/// Counts the newline characters of `s`.
pub fn newlines(s: &str) -> (r: usize)
    ensures
        r as nat == newline_count(s@),
{
    let n = s.unicode_len();
    let mut i: usize = 0;
    let mut count: usize = 0;
    while i < n
        invariant
            n == s@.len(),
            i <= n,
            count as nat == newline_count(s@.subrange(0, i as int)),
        decreases n - i,
    {
        let c = s.get_char(i);
        proof {
            assert(s@.subrange(0, i + 1).drop_last() =~= s@.subrange(0, i as int));
            lemma_newline_count_bound(s@.subrange(0, i as int));
        }
        if c == '\n' {
            count = count + 1;
        }
        i = i + 1;
    }
    assert(s@.subrange(0, n as int) =~= s@);
    count
}

/// The character index at which the last line of `s` begins.
pub fn last_line_start(s: &str) -> (r: usize)
    ensures
        r as int == line_start(s@),
        r <= s@.len(),
{
    let n = s.unicode_len();
    let mut i: usize = 0;
    let mut start: usize = 0;
    while i < n
        invariant
            n == s@.len(),
            i <= n,
            start as int == line_start(s@.subrange(0, i as int)),
            start <= i,
        decreases n - i,
    {
        let c = s.get_char(i);
        proof {
            assert(s@.subrange(0, i + 1).drop_last() =~= s@.subrange(0, i as int));
        }
        if c == '\n' {
            start = i + 1;
        }
        i = i + 1;
    }
    assert(s@.subrange(0, n as int) =~= s@);
    start
}

/// The displayed width of the last line of `s`.
pub fn last_line_width(s: &str) -> (r: usize)
    ensures
        r as nat == display_width(trailing_line(s@)),
{
    let start = last_line_start(s);
    let n = s.unicode_len();
    let tail = s.substring_char(start, n);
    str_width(tail)
}

} // verus!
