//! Preparing source text: line comments are removed and lines are joined.
use vstd::prelude::*;
use vstd::string::{StrSliceExecFns, StringExecFns};

verus! {

/// Number of characters before the first newline (all of them if none).
pub open spec fn line_len(s: Seq<char>) -> int
    decreases s.len(),
{
    if s.len() == 0 || s[0] == '\n' {
        0
    } else {
        1 + line_len(s.skip(1))
    }
}

/// Number of characters before the first `//` (all of them if none).
pub open spec fn comment_start(l: Seq<char>) -> int
    decreases l.len(),
{
    if l.len() < 2 {
        l.len() as int
    } else if l[0] == '/' && l[1] == '/' {
        0
    } else {
        1 + comment_start(l.skip(1))
    }
}

/// A comment starts at position `k` of `l`.
pub open spec fn slashes_at(l: Seq<char>, k: int) -> bool {
    0 <= k && k + 1 < l.len() && l[k] == '/' && l[k + 1] == '/'
}

/// A line without its comment.
pub open spec fn code_of(l: Seq<char>) -> Seq<char> {
    l.take(comment_start(l))
}

/// A line ended by a newline, without a carriage return before it.
pub open spec fn line_body(l: Seq<char>) -> Seq<char> {
    if l.len() > 0 && l.last() == '\r' {
        l.drop_last()
    } else {
        l
    }
}

/// The text with each line's comment removed and the lines joined without
/// separators. A line ends at a newline; a carriage return just before the
/// newline belongs to the line ending.
pub open spec fn skip_comment_spec(s: Seq<char>) -> Seq<char>
    decreases s.len(),
{
    let n = line_len(s);
    if 0 <= n < s.len() {
        code_of(line_body(s.take(n))) + skip_comment_spec(s.skip(n + 1))
    } else {
        code_of(s)
    }
}

proof fn lemma_line_len(s: Seq<char>, a: int, b: int)
    requires
        0 <= a <= b <= s.len(),
        forall|k: int| a <= k < b ==> s[k] != '\n',
        b == s.len() || s[b] == '\n',
    ensures
        line_len(s.skip(a)) == b - a,
    decreases b - a,
{
    if a < b {
        lemma_line_len(s, a + 1, b);
        assert(s.skip(a).skip(1) =~= s.skip(a + 1));
    }
}

proof fn lemma_comment_start(l: Seq<char>, a: int, b: int)
    requires
        0 <= a <= b <= l.len(),
        forall|k: int| a <= k < b ==> !#[trigger] slashes_at(l, k),
        b == l.len() || slashes_at(l, b),
    ensures
        comment_start(l.skip(a)) == b - a,
    decreases b - a,
{
    let t = l.skip(a);
    if t.len() >= 2 {
        assert(t[0] == l[a] && t[1] == l[a + 1]);
    }
    if a < b {
        if t.len() >= 2 {
            assert(!slashes_at(l, a));
            lemma_comment_start(l, a + 1, b);
            assert(t.skip(1) =~= l.skip(a + 1));
        }
    }
}

proof fn lemma_line_len_bounds(s: Seq<char>)
    ensures
        0 <= line_len(s) <= s.len(),
    decreases s.len(),
{
    if s.len() > 0 && s[0] != '\n' {
        lemma_line_len_bounds(s.skip(1));
    }
}

/// Position of the first `//` in `s[from..to]`, or `to`.
fn find_comment(s: &str, from: usize, to: usize) -> (r: usize)
    requires
        from <= to <= s@.len(),
    ensures
        from <= r <= to,
        r - from == comment_start(s@.subrange(from as int, to as int)),
{
    let ghost l = s@.subrange(from as int, to as int);
    let mut i: usize = from;
    while to - i >= 2
        invariant
            from <= i <= to,
            to <= s@.len(),
            l == s@.subrange(from as int, to as int),
            forall|k: int| 0 <= k < i - from ==> !#[trigger] slashes_at(l, k),
        decreases to - i,
    {
        if s.get_char(i) == '/' && s.get_char(i + 1) == '/' {
            proof { lemma_comment_start(l, 0, i - from); }
            assert(l.skip(0) =~= l);
            return i;
        }
        i += 1;
    }
    proof {
        assert forall|k: int| 0 <= k < l.len() implies !#[trigger] slashes_at(l, k) by {
            if k >= i - from {}
        }
        lemma_comment_start(l, 0, (to - from) as int);
    }
    assert(l.skip(0) =~= l);
    to
}

/// Removes every `//` comment from `input` and joins its lines.
pub fn skip_comment(input: &str) -> (r: String)
    ensures
        r@ == skip_comment_spec(input@),
{
    let n = input.unicode_len();
    let mut out = String::from_str("");
    let mut start: usize = 0;
    let mut i: usize = 0;
    proof { reveal_strlit(""); }
    assert(input@.skip(0) =~= input@);
    while i < n
        invariant
            n == input@.len(),
            start <= i <= n,
            forall|k: int| start <= k < i ==> input@[k] != '\n',
            out@ + skip_comment_spec(input@.skip(start as int)) == skip_comment_spec(input@),
        decreases n - i,
    {
        if input.get_char(i) == '\n' {
            let ghost t = input@.skip(start as int);
            proof {
                lemma_line_len(input@, start as int, i as int);
                assert(t.take(i - start) =~= input@.subrange(start as int, i as int));
                assert(t.skip(i - start + 1) =~= input@.skip(i + 1));
            }
            let mut end = i;
            if end > start && input.get_char(end - 1) == '\r' {
                end = end - 1;
                assert(line_body(t.take(i - start)) =~= input@.subrange(start as int, end as int));
            } else {
                assert(line_body(t.take(i - start)) =~= input@.subrange(start as int, end as int));
            }
            let cut = find_comment(input, start, end);
            let piece = input.substring_char(start, cut);
            assert(piece@ =~= code_of(input@.subrange(start as int, end as int)));
            out.append(piece);
            start = i + 1;
            proof {
                assert(out@ + skip_comment_spec(input@.skip(start as int)) =~= skip_comment_spec(input@));
            }
        }
        i += 1;
    }
    let ghost t = input@.skip(start as int);
    proof {
        lemma_line_len(input@, start as int, n as int);
        assert(t =~= input@.subrange(start as int, n as int));
    }
    let cut = find_comment(input, start, n);
    let piece = input.substring_char(start, cut);
    out.append(piece);
    assert(out@ =~= skip_comment_spec(input@));
    out
}

} // verus!
