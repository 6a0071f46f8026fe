//! Splitting an argument list on whitespace, with quoting.

use crate::text::{from_chars, is_space, is_whitespace, to_chars, views};
use vstd::prelude::*;

verus! {

/// Where the splitter stands after some characters of its input.
pub struct SplitState {
    /// The arguments that are complete.
    pub args: Seq<Seq<char>>,
    /// The argument that is being read.
    pub current: Seq<char>,
    /// The quote character of the span that is open, if one is.
    pub quote: Option<char>,
}

/// The state before the first character.
pub open spec fn split_start() -> SplitState {
    SplitState { args: Seq::empty(), current: Seq::empty(), quote: None }
}

/// The state after one more character `c`.
///
/// Inside a quoted span every character but the closing quote belongs to the
/// argument. Outside one, a quote opens a span, whitespace ends the argument
/// that is being read, and any other character belongs to it.
pub open spec fn split_step(st: SplitState, c: char) -> SplitState {
    match st.quote {
        Some(q) => if c == q {
            SplitState { quote: None, ..st }
        } else {
            SplitState { current: st.current.push(c), ..st }
        },
        None => if c == '"' || c == '\'' {
            SplitState { quote: Some(c), ..st }
        } else if is_space(c) {
            if st.current.len() > 0 {
                SplitState { args: st.args.push(st.current), current: Seq::empty(), ..st }
            } else {
                st
            }
        } else {
            SplitState { current: st.current.push(c), ..st }
        },
    }
}

/// The state after the characters of `s` from `i` on, begun in `st`.
pub open spec fn split_scan(s: Seq<char>, i: int, st: SplitState) -> SplitState
    decreases s.len() - i,
{
    if i < 0 || i >= s.len() {
        st
    } else {
        split_scan(s, i + 1, split_step(st, s[i]))
    }
}

/// The arguments of `s`: what the last state holds, with the argument that
/// was being read when the input ended.
pub open spec fn arguments(s: Seq<char>) -> Seq<Seq<char>> {
    let st = split_scan(s, 0, split_start());
    if st.current.len() > 0 {
        st.args.push(st.current)
    } else {
        st.args
    }
}

/// No step of the splitter completes an empty argument.
pub proof fn lemma_split_step_nonempty(st: SplitState, c: char)
    requires
        forall|k: int| 0 <= k < st.args.len() ==> (#[trigger] st.args[k]).len() > 0,
    ensures
        forall|k: int|
            0 <= k < split_step(st, c).args.len() ==> (#[trigger] split_step(st, c).args[k]).len()
                > 0,
{
}

/// No scan of the splitter completes an empty argument.
pub proof fn lemma_split_scan_nonempty(s: Seq<char>, i: int, st: SplitState)
    requires
        forall|k: int| 0 <= k < st.args.len() ==> (#[trigger] st.args[k]).len() > 0,
    ensures
        forall|k: int|
            0 <= k < split_scan(s, i, st).args.len() ==> (#[trigger] split_scan(
                s,
                i,
                st,
            ).args[k]).len() > 0,
    decreases s.len() - i,
{
    if i < 0 || i >= s.len() {
    } else {
        lemma_split_step_nonempty(st, s[i]);
        lemma_split_scan_nonempty(s, i + 1, split_step(st, s[i]));
    }
}

/// No argument of a line is empty.
pub proof fn lemma_arguments_nonempty(s: Seq<char>)
    ensures
        forall|k: int| 0 <= k < arguments(s).len() ==> (#[trigger] arguments(s)[k]).len() > 0,
{
    lemma_split_scan_nonempty(s, 0, split_start());
}

/// Whitespace alone moves the splitter nowhere.
proof fn lemma_blank_scan(s: Seq<char>, i: int)
    requires
        0 <= i,
        forall|k: int| 0 <= k < s.len() ==> is_space(#[trigger] s[k]),
    ensures
        split_scan(s, i, split_start()) == split_start(),
    decreases s.len() - i,
{
    if i < s.len() {
        assert(is_space(s[i]));
        assert(split_step(split_start(), s[i]) == split_start());
        lemma_blank_scan(s, i + 1);
    }
}

/// A line of whitespace alone has no arguments.
pub proof fn lemma_blank_has_no_arguments(s: Seq<char>)
    requires
        forall|k: int| 0 <= k < s.len() ==> is_space(#[trigger] s[k]),
    ensures
        arguments(s) == Seq::<Seq<char>>::empty(),
{
    lemma_blank_scan(s, 0);
}

/// Splits `input` into arguments on whitespace. A span between two `"` or
/// two `'` belongs to one argument, without the quotes.
pub fn split_args(input: &str) -> (out: Vec<String>)
    ensures
        views(out@) == arguments(input@),
        forall|k: int| 0 <= k < out@.len() ==> (#[trigger] out@[k])@.len() > 0,
{
    let v = to_chars(input);
    let mut out: Vec<String> = Vec::new();
    let mut current: Vec<char> = Vec::new();
    let mut quote: Option<char> = None;
    let mut i: usize = 0;
    assert(views(out@) =~= split_start().args);
    while i < v.len()
        invariant
            i <= v.len(),
            v@ == input@,
            split_scan(v@, 0, split_start()) == split_scan(
                v@,
                i as int,
                SplitState { args: views(out@), current: current@, quote },
            ),
            forall|k: int| 0 <= k < out@.len() ==> (#[trigger] out@[k])@.len() > 0,
        decreases v.len() - i,
    {
        let c = v[i];
        let ghost before = SplitState { args: views(out@), current: current@, quote };
        let ghost args_before = out@;
        match quote {
            Some(q) => {
                if c == q {
                    quote = None;
                } else {
                    current.push(c);
                }
            },
            None => {
                if c == '"' || c == '\'' {
                    quote = Some(c);
                } else if is_whitespace(c) {
                    if current.len() > 0 {
                        out.push(from_chars(current.as_slice()));
                        current = Vec::new();
                        proof {
                            assert(views(out@) =~= views(args_before).push(before.current));
                        }
                    }
                } else {
                    current.push(c);
                }
            },
        }
        proof {
            let after = SplitState { args: views(out@), current: current@, quote };
            assert(after.args =~= split_step(before, c).args);
            assert(after.current =~= split_step(before, c).current);
            assert(after == split_step(before, c));
        }
        i += 1;
    }
    if current.len() > 0 {
        let ghost args_before = out@;
        let ghost last = current@;
        out.push(from_chars(current.as_slice()));
        proof {
            assert(views(out@) =~= views(args_before).push(last));
        }
    }
    out
}

} // verus!
