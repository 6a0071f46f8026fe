//! The command extractor: finds shell commands embedded in a line of user
//! text, and splits argument lists.
//!
//! An embedded command is written `$(` ... `)`. Parentheses inside it nest.
//! A marker inside a span quoted with `"` or `'` is ordinary text, and so is
//! a marker that is never closed.

use crate::text::{
    copy_range, find_from, from_chars, lemma_position, lemma_position_unique, position,
    push_all, to_chars, trim_end, trim_end_len, trim_start, trim_start_len, views,
};
use vstd::prelude::*;

verus! {

/// One command found in a line of input.
pub struct ExtractedCommand {
    pub raw_text: String,
}

/// What the extractor makes of one line.
pub struct Extraction {
    /// The line without its embedded commands.
    pub cleaned_text: String,
    /// The commands, in the order in which the line holds them.
    pub commands: Vec<ExtractedCommand>,
}

/// Whether `c` opens or closes a quoted span.
pub open spec fn is_quote(c: char) -> bool {
    c == '"' || c == '\''
}

/// Whether the opening marker `$(` stands at `i`.
pub open spec fn opens_at(s: Seq<char>, i: int) -> bool {
    0 <= i && i + 1 < s.len() && s[i] == '$' && s[i + 1] == '('
}

/// The index of the parenthesis that closes a command, searched from `i`
/// with `depth` parentheses open; `s.len()` where the command is never closed.
pub open spec fn closing(s: Seq<char>, i: int, depth: nat) -> int
    decreases s.len() - i,
{
    if i < 0 || i >= s.len() {
        s.len() as int
    } else if s[i] == ')' {
        if depth <= 1 {
            i
        } else {
            closing(s, i + 1, (depth - 1) as nat)
        }
    } else if s[i] == '(' {
        closing(s, i + 1, depth + 1)
    } else {
        closing(s, i + 1, depth)
    }
}

/// The index of the quote that closes the span opened at `i`, or `s.len()`.
pub open spec fn quote_end(s: Seq<char>, i: int) -> int {
    i + 1 + position(s.skip(i + 1), s[i])
}

/// The first embedded command at or after `i`: the index of its `$` and the
/// index of its closing parenthesis.
pub open spec fn next_region(s: Seq<char>, i: int) -> Option<(int, int)>
    decreases s.len() - i,
{
    if i < 0 || i >= s.len() {
        None
    } else if is_quote(s[i]) {
        let j = quote_end(s, i);
        if i < j < s.len() {
            next_region(s, j + 1)
        } else {
            next_region(s, i + 1)
        }
    } else if opens_at(s, i) && closing(s, i + 2, 1) < s.len() {
        Some((i, closing(s, i + 2, 1)))
    } else {
        next_region(s, i + 1)
    }
}

/// All embedded commands at or after `i`, left to right.
pub open spec fn regions(s: Seq<char>, i: int) -> Seq<(int, int)>
    decreases s.len() - i,
{
    match next_region(s, i) {
        Some(r) => if i <= r.0 < r.1 < s.len() {
            seq![r] + regions(s, r.1 + 1)
        } else {
            Seq::empty()
        },
        None => Seq::empty(),
    }
}

/// The text that remains when a command is cut out between `left` and
/// `right`: whitespace next to the cut shrinks to one space, and to nothing
/// at either end of the text.
pub open spec fn glue(left: Seq<char>, right: Seq<char>) -> Seq<char> {
    let l = trim_end(left);
    let r = trim_start(right);
    if l.len() == left.len() && r.len() == right.len() {
        left + right
    } else if l.len() == 0 {
        r
    } else if r.len() == 0 {
        l
    } else {
        l + seq![' '] + r
    }
}

/// The text of `s` from `i` on with the commands `rs` cut out.
pub open spec fn stitched(s: Seq<char>, i: int, rs: Seq<(int, int)>) -> Seq<char>
    decreases rs.len(),
{
    if rs.len() == 0 {
        s.skip(i)
    } else {
        glue(s.subrange(i, rs[0].0), stitched(s, rs[0].1 + 1, rs.drop_first()))
    }
}

/// The line without its embedded commands.
pub open spec fn cleaned_text(s: Seq<char>) -> Seq<char> {
    stitched(s, 0, regions(s, 0))
}

/// The text between the markers of each command in `rs`.
pub open spec fn region_texts(s: Seq<char>, rs: Seq<(int, int)>) -> Seq<Seq<char>> {
    Seq::new(rs.len(), |k: int| s.subrange(rs[k].0 + 2, rs[k].1))
}

/// The embedded commands of the line, left to right.
pub open spec fn commands(s: Seq<char>) -> Seq<Seq<char>> {
    region_texts(s, regions(s, 0))
}

/// The raw texts of a list of extracted commands.
pub open spec fn command_texts(v: Seq<ExtractedCommand>) -> Seq<Seq<char>> {
    Seq::new(v.len(), |k: int| v[k].raw_text@)
}

/// The closing parenthesis lies at or after the place where the search began.
pub proof fn lemma_closing_bounds(s: Seq<char>, i: int, depth: nat)
    requires
        0 <= i,
    ensures
        i <= closing(s, i, depth) <= s.len() || (i > s.len() && closing(s, i, depth) == s.len()),
        closing(s, i, depth) < s.len() ==> s[closing(s, i, depth)] == ')',
    decreases s.len() - i,
{
    if i >= s.len() {
    } else if s[i] == ')' {
        if depth > 1 {
            lemma_closing_bounds(s, i + 1, (depth - 1) as nat);
        }
    } else if s[i] == '(' {
        lemma_closing_bounds(s, i + 1, depth + 1);
    } else {
        lemma_closing_bounds(s, i + 1, depth);
    }
}

/// A command that is found begins with the opening marker at or after the
/// place where the search began, and ends with a closing parenthesis.
pub proof fn lemma_next_region(s: Seq<char>, i: int)
    ensures
        next_region(s, i) matches Some(r) ==> {
            &&& 0 <= i <= r.0
            &&& r.0 + 2 <= r.1 < s.len()
            &&& opens_at(s, r.0)
            &&& s[r.1] == ')'
        },
    decreases s.len() - i,
{
    if i < 0 || i >= s.len() {
    } else if is_quote(s[i]) {
        let j = quote_end(s, i);
        if i < j < s.len() {
            lemma_next_region(s, j + 1);
        } else {
            lemma_next_region(s, i + 1);
        }
    } else if opens_at(s, i) && closing(s, i + 2, 1) < s.len() {
        lemma_closing_bounds(s, i + 2, 1);
    } else {
        lemma_next_region(s, i + 1);
    }
}

/// The commands of a line lie inside it, one after the other, each between
/// its own pair of markers.
pub proof fn lemma_regions_ordered(s: Seq<char>, i: int)
    requires
        0 <= i,
    ensures
        forall|k: int|
            0 <= k < regions(s, i).len() ==> {
                let r = #[trigger] regions(s, i)[k];
                &&& i <= r.0
                &&& r.0 + 2 <= r.1 < s.len()
                &&& opens_at(s, r.0)
                &&& s[r.1] == ')'
            },
        forall|k: int|
            0 < k < regions(s, i).len() ==> regions(s, i)[k - 1].1 < (#[trigger] regions(
                s,
                i,
            )[k]).0,
    decreases s.len() - i,
{
    lemma_next_region(s, i);
    match next_region(s, i) {
        Some(r) => {
            lemma_regions_ordered(s, r.1 + 1);
            let rest = regions(s, r.1 + 1);
            let all = regions(s, i);
            assert(all == seq![r] + rest);
            assert forall|k: int| 0 <= k < all.len() implies {
                let q = #[trigger] all[k];
                &&& i <= q.0
                &&& q.0 + 2 <= q.1 < s.len()
                &&& opens_at(s, q.0)
                &&& s[q.1] == ')'
            } by {
                if k > 0 {
                    assert(all[k] == rest[k - 1]);
                }
            }
            assert forall|k: int| 0 < k < all.len() implies all[k - 1].1 < (#[trigger] all[
                k
            ]).0 by {
                assert(all[k] == rest[k - 1]);
                if k > 1 {
                    assert(all[k - 1] == rest[k - 2]);
                }
            }
        },
        None => {},
    }
}

/// A line that holds no opening marker holds no command.
pub proof fn lemma_no_marker_no_region(s: Seq<char>, i: int)
    requires
        forall|k: int| !opens_at(s, k),
    ensures
        next_region(s, i) is None,
        regions(s, i).len() == 0,
    decreases s.len() - i,
{
    if i < 0 || i >= s.len() {
    } else if is_quote(s[i]) {
        let j = quote_end(s, i);
        if i < j < s.len() {
            lemma_no_marker_no_region(s, j + 1);
        } else {
            lemma_no_marker_no_region(s, i + 1);
        }
    } else {
        assert(!opens_at(s, i));
        lemma_no_marker_no_region(s, i + 1);
    }
}

/// A line without embedded commands comes back unchanged.
pub proof fn lemma_without_commands_unchanged(s: Seq<char>)
    requires
        commands(s).len() == 0,
    ensures
        cleaned_text(s) == s,
{
    assert(regions(s, 0).len() == 0);
    assert(s.skip(0) =~= s);
}

/// A line without an opening marker comes back unchanged, with no command.
pub proof fn lemma_plain_line(s: Seq<char>)
    requires
        forall|k: int| !opens_at(s, k),
    ensures
        commands(s).len() == 0,
        cleaned_text(s) == s,
{
    lemma_no_marker_no_region(s, 0);
    lemma_without_commands_unchanged(s);
}

/// A command moved `by` places to the right.
pub open spec fn moved(r: Option<(int, int)>, by: int) -> Option<(int, int)> {
    match r {
        Some(p) => Some((p.0 + by, p.1 + by)),
        None => None,
    }
}

/// What stands before a text does not change where its parentheses close.
pub proof fn lemma_closing_after_prefix(p: Seq<char>, c: Seq<char>, m: int, depth: nat)
    requires
        0 <= m,
    ensures
        closing(p + c, p.len() + m, depth) == p.len() + closing(c, m, depth),
    decreases c.len() - m,
{
    let s = p + c;
    if m < c.len() {
        assert(s[p.len() + m] == c[m]);
        if c[m] == ')' {
            if depth > 1 {
                lemma_closing_after_prefix(p, c, m + 1, (depth - 1) as nat);
            }
        } else if c[m] == '(' {
            lemma_closing_after_prefix(p, c, m + 1, depth + 1);
        } else {
            lemma_closing_after_prefix(p, c, m + 1, depth);
        }
    }
}

/// What stands before a text does not change which commands it holds: they
/// are found where they were, moved by the length of what stands before.
pub proof fn lemma_next_region_after_prefix(p: Seq<char>, c: Seq<char>, m: int)
    requires
        0 <= m,
    ensures
        next_region(p + c, p.len() + m) == moved(next_region(c, m), p.len() as int),
    decreases c.len() - m,
{
    let s = p + c;
    let off = p.len() as int;
    if m < c.len() {
        assert(s[off + m] == c[m]);
        if is_quote(c[m]) {
            assert(s.skip(off + m + 1) =~= c.skip(m + 1));
            lemma_position(c.skip(m + 1), c[m]);
            let j = quote_end(c, m);
            assert(quote_end(s, off + m) == off + j);
            if m < j < c.len() {
                lemma_next_region_after_prefix(p, c, j + 1);
            } else {
                lemma_next_region_after_prefix(p, c, m + 1);
            }
        } else {
            if m + 1 < c.len() {
                assert(s[off + m + 1] == c[m + 1]);
            }
            assert(opens_at(s, off + m) == opens_at(c, m));
            lemma_closing_after_prefix(p, c, m + 2, 1);
            if opens_at(c, m) && closing(c, m + 2, 1) < c.len() {
            } else {
                lemma_next_region_after_prefix(p, c, m + 1);
            }
        }
    }
}

/// The commands of a text are the commands that it holds after what stands
/// before it.
pub proof fn lemma_commands_after_prefix(p: Seq<char>, c: Seq<char>, m: int)
    requires
        0 <= m,
    ensures
        region_texts(p + c, regions(p + c, p.len() + m)) == region_texts(c, regions(c, m)),
    decreases c.len() - m,
{
    let s = p + c;
    let off = p.len() as int;
    lemma_next_region_after_prefix(p, c, m);
    lemma_next_region(c, m);
    match next_region(c, m) {
        Some(r) => {
            lemma_commands_after_prefix(p, c, r.1 + 1);
            let here = (r.0 + off, r.1 + off);
            assert(regions(c, m) == seq![r] + regions(c, r.1 + 1));
            assert(regions(s, off + m) == seq![here] + regions(s, off + r.1 + 1));
            assert(s.subrange(here.0 + 2, here.1) =~= c.subrange(r.0 + 2, r.1));
            let left = region_texts(s, regions(s, off + m));
            let right = region_texts(c, regions(c, m));
            let left_rest = region_texts(s, regions(s, off + r.1 + 1));
            let right_rest = region_texts(c, regions(c, r.1 + 1));
            assert(left_rest == right_rest);
            assert(left_rest.len() == regions(s, off + r.1 + 1).len());
            assert(right_rest.len() == regions(c, r.1 + 1).len());
            assert(regions(s, off + m).len() == 1 + regions(s, off + r.1 + 1).len());
            assert(regions(c, m).len() == 1 + regions(c, r.1 + 1).len());
            assert(left.len() == right.len());
            assert forall|k: int| 0 <= k < left.len() implies left[k] == right[k] by {
                if k > 0 {
                    assert(regions(s, off + m)[k] == regions(s, off + r.1 + 1)[k - 1]);
                    assert(regions(c, m)[k] == regions(c, r.1 + 1)[k - 1]);
                    assert(left[k] == left_rest[k - 1]);
                    assert(right[k] == right_rest[k - 1]);
                }
            }
            assert(left =~= right);
        },
        None => {
            assert(region_texts(s, regions(s, off + m)) =~= region_texts(c, regions(c, m)));
        },
    }
}

/// Text without quotes and without `$` holds no command and opens no quoted
/// span: the search goes straight through it.
pub proof fn lemma_plain_prefix_is_skipped(a: Seq<char>, rest: Seq<char>, k: int)
    requires
        0 <= k <= a.len(),
        forall|i: int| 0 <= i < a.len() ==> !is_quote(#[trigger] a[i]) && a[i] != '$',
    ensures
        next_region(a + rest, k) == next_region(a + rest, a.len() as int),
    decreases a.len() - k,
{
    let s = a + rest;
    if k < a.len() {
        assert(s[k] == a[k]);
        assert(!opens_at(s, k));
        lemma_plain_prefix_is_skipped(a, rest, k + 1);
    }
}

/// A marker inside a quoted span is no command. Where a line is plain text,
/// then a span between two quotes `q`, then any text `c`, the commands of
/// the line are the commands of `c`: whatever the span holds, markers and
/// all, is text.
pub proof fn lemma_quoted_span_holds_no_command(
    a: Seq<char>,
    q: char,
    b: Seq<char>,
    c: Seq<char>,
)
    requires
        is_quote(q),
        forall|i: int| 0 <= i < a.len() ==> !is_quote(#[trigger] a[i]) && a[i] != '$',
        forall|i: int| 0 <= i < b.len() ==> #[trigger] b[i] != q,
    ensures
        commands(a + seq![q] + b + seq![q] + c) == commands(c),
        commands(c).len() == 0 ==> cleaned_text(a + seq![q] + b + seq![q] + c) == a + seq![q] + b
            + seq![q] + c,
{
    let head = a + seq![q] + b + seq![q];
    let s = head + c;
    let rest = seq![q] + b + seq![q] + c;
    let at = a.len() as int;
    assert(s =~= a + rest);
    lemma_plain_prefix_is_skipped(a, rest, 0);
    assert(s[at] == q);
    let inside = s.skip(at + 1);
    assert(inside =~= b + seq![q] + c);
    assert(inside[b.len() as int] == q);
    assert forall|j: int| 0 <= j < b.len() implies inside[j] != q by {
        assert(inside[j] == b[j]);
    }
    lemma_position_unique(inside, q, b.len() as int);
    assert(quote_end(s, at) == at + 1 + b.len());
    assert(next_region(s, at) == next_region(s, head.len() as int));
    assert(next_region(s, 0) == next_region(s, head.len() as int));
    assert(regions(s, 0) == regions(s, head.len() as int)) by {
        lemma_next_region(s, head.len() as int);
    }
    lemma_commands_after_prefix(head, c, 0);
    if commands(c).len() == 0 {
        lemma_without_commands_unchanged(s);
    }
}

/// Finds the parenthesis that closes the command whose text begins at `from`.
fn find_closing(v: &[char], from: usize) -> (k: usize)
    requires
        1 <= from <= v.len(),
    ensures
        k == closing(v@, from as int, 1),
        from <= k <= v.len(),
{
    let mut i: usize = from;
    let mut depth: usize = 1;
    while i < v.len()
        invariant
            1 <= from <= i <= v.len(),
            1 <= depth <= i - from + 1,
            closing(v@, from as int, 1) == closing(v@, i as int, depth as nat),
        decreases v.len() - i,
    {
        let c = v[i];
        if c == ')' {
            if depth == 1 {
                return i;
            }
            depth -= 1;
        } else if c == '(' {
            depth += 1;
        }
        i += 1;
    }
    i
}

/// Finds the first embedded command at or after `from`.
fn find_region(v: &[char], from: usize) -> (r: Option<(usize, usize)>)
    requires
        from <= v.len(),
    ensures
        match r {
            Some(p) => next_region(v@, from as int) == Some((p.0 as int, p.1 as int)) && from
                <= p.0 && p.0 + 2 <= p.1 < v.len(),
            None => next_region(v@, from as int) is None,
        },
{
    let mut i: usize = from;
    while i < v.len()
        invariant
            from <= i <= v.len(),
            next_region(v@, from as int) == next_region(v@, i as int),
        decreases v.len() - i,
    {
        let c = v[i];
        if c == '"' || c == '\'' {
            let j = find_from(v, i + 1, c);
            if j < v.len() {
                i = j + 1;
            } else {
                i += 1;
            }
        } else if c == '$' && i + 1 < v.len() && v[i + 1] == '(' {
            let k = find_closing(v, i + 2);
            if k < v.len() {
                proof {
                    lemma_next_region(v@, i as int);
                }
                return Some((i, k));
            }
            i += 1;
        } else {
            i += 1;
        }
    }
    None
}

/// Joins the text before a command with the text after it.
fn glue_texts(left: &[char], right: &[char]) -> (out: Vec<char>)
    ensures
        out@ == glue(left@, right@),
{
    let l = trim_end_len(left);
    let r = trim_start_len(right);
    let mut out: Vec<char> = Vec::new();
    if l == left.len() && r == 0 {
        push_all(&mut out, left);
        push_all(&mut out, right);
        return out;
    }
    let head = copy_range(left, 0, l);
    let tail = copy_range(right, r, right.len());
    proof {
        assert(left@.subrange(0, l as int) =~= left@.take(l as int));
        assert(right@.subrange(r as int, right.len() as int) =~= right@.skip(r as int));
    }
    push_all(&mut out, head.as_slice());
    if l > 0 && r < right.len() {
        out.push(' ');
    }
    push_all(&mut out, tail.as_slice());
    proof {
        let lt = trim_end(left@);
        let rt = trim_start(right@);
        if lt.len() == 0 {
            assert(out@ =~= rt);
        } else if rt.len() == 0 {
            assert(out@ =~= lt);
        } else {
            assert(out@ =~= lt + seq![' '] + rt);
        }
    }
    out
}

/// The marker bounds of a list of commands, as mathematical integers.
pub open spec fn bounds(found: Seq<(usize, usize)>) -> Seq<(int, int)> {
    Seq::new(found.len(), |k: int| (found[k].0 as int, found[k].1 as int))
}

/// Finds every embedded command of `v`, left to right.
fn find_regions(v: &[char]) -> (found: Vec<(usize, usize)>)
    ensures
        bounds(found@) == regions(v@, 0),
        forall|k: int|
            0 <= k < found@.len() ==> (#[trigger] found@[k]).0 + 2 <= found@[k].1 < v.len(),
        forall|k: int| 0 < k < found@.len() ==> found@[k - 1].1 < (#[trigger] found@[k]).0,
{
    let mut found: Vec<(usize, usize)> = Vec::new();
    let mut i: usize = 0;
    loop
        invariant_except_break
            i <= v.len(),
            regions(v@, 0) == bounds(found@) + regions(v@, i as int),
        invariant
            forall|k: int|
                0 <= k < found@.len() ==> (#[trigger] found@[k]).0 + 2 <= found@[k].1 < i,
            forall|k: int| 0 < k < found@.len() ==> found@[k - 1].1 < (#[trigger] found@[k]).0,
            i <= v.len(),
        ensures
            regions(v@, 0) == bounds(found@),
        decreases v.len() - i,
    {
        match find_region(v, i) {
            Some(p) => {
                let ghost before = found@;
                found.push(p);
                proof {
                    let r = (p.0 as int, p.1 as int);
                    assert(regions(v@, i as int) == seq![r] + regions(v@, r.1 + 1));
                    assert(bounds(found@) =~= bounds(before) + seq![r]);
                    assert(bounds(before) + (seq![r] + regions(v@, r.1 + 1)) =~= bounds(before)
                        + seq![r] + regions(v@, r.1 + 1));
                }
                i = p.1 + 1;
            },
            None => {
                proof {
                    assert(regions(v@, i as int) =~= Seq::<(int, int)>::empty());
                    assert(bounds(found@) + Seq::<(int, int)>::empty() =~= bounds(found@));
                }
                break ;
            },
        }
    }
    found
}

/// Cuts the commands `found` out of `v`.
fn stitch(v: &[char], found: &Vec<(usize, usize)>) -> (out: Vec<char>)
    requires
        forall|k: int|
            0 <= k < found@.len() ==> (#[trigger] found@[k]).0 + 2 <= found@[k].1 < v.len(),
        forall|k: int| 0 < k < found@.len() ==> found@[k - 1].1 < (#[trigger] found@[k]).0,
    ensures
        out@ == stitched(v@, 0, bounds(found@)),
{
    let n = found.len();
    let ghost rs = bounds(found@);
    let last_end: usize = if n == 0 {
        0
    } else {
        found[n - 1].1 + 1
    };
    let mut out = copy_range(v, last_end, v.len());
    proof {
        assert(v@.subrange(last_end as int, v.len() as int) =~= v@.skip(last_end as int));
        assert(rs.skip(n as int).len() == 0);
    }
    let mut k: usize = n;
    while k > 0
        invariant
            k <= n == found@.len(),
            rs == bounds(found@),
            forall|j: int|
                0 <= j < found@.len() ==> (#[trigger] found@[j]).0 + 2 <= found@[j].1 < v.len(),
            forall|j: int| 0 < j < found@.len() ==> found@[j - 1].1 < (#[trigger] found@[j]).0,
            out@ == stitched(
                v@,
                if k == 0 {
                    0
                } else {
                    found@[k - 1].1 + 1
                },
                rs.skip(k as int),
            ),
        decreases k,
    {
        k -= 1;
        let start: usize = if k == 0 {
            0
        } else {
            found[k - 1].1 + 1
        };
        let left = copy_range(v, start, found[k].0);
        proof {
            let tail = rs.skip(k as int);
            assert(tail[0] == rs[k as int]);
            assert(tail.drop_first() =~= rs.skip(k + 1));
        }
        out = glue_texts(left.as_slice(), out.as_slice());
    }
    proof {
        assert(rs.skip(0) =~= rs);
    }
    out
}

/// Finds the commands embedded in `line` and removes them from the text.
///
/// A line without embedded commands comes back unchanged.
pub fn extract(line: &str) -> (r: Extraction)
    ensures
        r.cleaned_text@ == cleaned_text(line@),
        command_texts(r.commands@) == commands(line@),
        commands(line@).len() == 0 ==> r.cleaned_text@ == line@,
{
    let v = to_chars(line);
    let found = find_regions(v.as_slice());
    let cleaned = stitch(v.as_slice(), &found);
    let mut list: Vec<ExtractedCommand> = Vec::new();
    let mut k: usize = 0;
    while k < found.len()
        invariant
            k <= found@.len(),
            v@ == line@,
            bounds(found@) == regions(v@, 0),
            forall|j: int|
                0 <= j < found@.len() ==> (#[trigger] found@[j]).0 + 2 <= found@[j].1 < v.len(),
            command_texts(list@) == region_texts(v@, bounds(found@)).take(k as int),
        decreases found@.len() - k,
    {
        let body = copy_range(v.as_slice(), found[k].0 + 2, found[k].1);
        let ghost before = list@;
        list.push(ExtractedCommand { raw_text: from_chars(body.as_slice()) });
        k += 1;
        proof {
            let all = region_texts(v@, bounds(found@));
            assert(command_texts(list@) =~= command_texts(before).push(all[k - 1]));
            assert(all.take(k as int) =~= all.take(k - 1).push(all[k - 1]));
        }
    }
    proof {
        let all = region_texts(v@, bounds(found@));
        assert(all.take(k as int) =~= all);
        if commands(line@).len() == 0 {
            lemma_without_commands_unchanged(line@);
        }
    }
    Extraction { cleaned_text: from_chars(cleaned.as_slice()), commands: list }
}

/// The commands embedded in `line`, left to right.
pub fn extract_inline_commands(line: &str) -> (out: Vec<String>)
    ensures
        views(out@) == commands(line@),
{
    let extraction = extract(line);
    let mut found = extraction.commands;
    let ghost all = command_texts(found@);
    let mut out: Vec<String> = Vec::new();
    let mut k: usize = 0;
    while k < found.len()
        invariant
            k <= found@.len(),
            command_texts(found@) == all,
            views(out@) == all.take(k as int),
        decreases found@.len() - k,
    {
        let ghost before = out@;
        out.push(found[k].raw_text.clone());
        k += 1;
        proof {
            assert(views(out@) =~= views(before).push(all[k - 1]));
            assert(all.take(k as int) =~= all.take(k - 1).push(all[k - 1]));
        }
    }
    proof {
        assert(all.take(k as int) =~= all);
    }
    out
}

/// `line` without its embedded commands.
pub fn strip_inline_commands(line: &str) -> (out: String)
    ensures
        out@ == cleaned_text(line@),
        commands(line@).len() == 0 ==> out@ == line@,
{
    extract(line).cleaned_text
}

} // verus!
