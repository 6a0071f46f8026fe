//! Completion of slash commands at the prompt.

use crate::text::{copy_range, from_chars, has_prefix, is_space, is_whitespace, to_chars, views};
use vstd::prelude::*;

verus! {

/// What can complete the text before the cursor.
pub enum Completion {
    /// The names of files: the text is an `/add` with its arguments.
    Files,
    /// The slash commands `candidates`, in the place of `token`.
    Commands { token: String, candidates: Vec<String> },
    /// Nothing.
    Nothing,
}

/// What can complete the text before the cursor, over mathematical text.
pub enum CompletionView {
    Files,
    Commands { token: Seq<char>, candidates: Seq<Seq<char>> },
    Nothing,
}

impl View for Completion {
    type V = CompletionView;

    open spec fn view(&self) -> CompletionView {
        match *self {
            Completion::Files => CompletionView::Files,
            Completion::Commands { token, candidates } => CompletionView::Commands {
                token: token@,
                candidates: views(candidates@),
            },
            Completion::Nothing => CompletionView::Nothing,
        }
    }
}

/// The slash commands, in the order in which they are offered.
pub open spec fn command_names() -> Seq<Seq<char>> {
    seq!["/clean"@, "/trans"@, "/eval"@, "/help"@, "/stream"@, "/add"@]
}

/// Where the word begins that `s` ends with: after the last whitespace.
pub open spec fn token_start(s: Seq<char>) -> int
    decreases s.len(),
{
    if s.len() == 0 || is_space(s.last()) {
        s.len() as int
    } else {
        token_start(s.drop_last())
    }
}

/// The word begins after the last whitespace, and holds none.
pub proof fn lemma_token_start(s: Seq<char>)
    ensures
        0 <= token_start(s) <= s.len(),
        token_start(s) > 0 ==> is_space(s[token_start(s) - 1]),
        forall|j: int| token_start(s) <= j < s.len() ==> !is_space(s[j]),
    decreases s.len(),
{
    if s.len() == 0 || is_space(s.last()) {
    } else {
        let t = s.drop_last();
        lemma_token_start(t);
        assert forall|j: int| token_start(s) <= j < s.len() implies !is_space(s[j]) by {
            if j < t.len() {
                assert(t[j] == s[j]);
            }
        }
        if token_start(s) > 0 {
            assert(t[token_start(s) - 1] == s[token_start(s) - 1]);
        }
    }
}

/// A place after whitespace, with none from there on, is where the word
/// begins.
pub proof fn lemma_token_start_unique(s: Seq<char>, p: int)
    requires
        0 <= p <= s.len(),
        p > 0 ==> is_space(s[p - 1]),
        forall|j: int| p <= j < s.len() ==> !is_space(s[j]),
    ensures
        token_start(s) == p,
{
    lemma_token_start(s);
    let q = token_start(s);
    if q < p {
        assert(!is_space(s[q]) || q == s.len());
        assert(is_space(s[p - 1]));
    } else if p < q {
        assert(is_space(s[q - 1]));
    }
}

/// Those of `names` that begin with `token`, in their order.
pub open spec fn matching(names: Seq<Seq<char>>, token: Seq<char>) -> Seq<Seq<char>>
    decreases names.len(),
{
    if names.len() == 0 {
        Seq::empty()
    } else if token.is_prefix_of(names.last()) {
        matching(names.drop_last(), token).push(names.last())
    } else {
        matching(names.drop_last(), token)
    }
}

/// What can complete `before`, the text before the cursor: file names after
/// `/add `; else, where the last word begins with `/`, the slash commands
/// that begin with that word.
pub open spec fn completion_of(before: Seq<char>) -> CompletionView {
    let token = before.skip(token_start(before));
    if "/add "@.is_prefix_of(before) {
        CompletionView::Files
    } else if token.len() > 0 && token[0] == '/' {
        CompletionView::Commands { token, candidates: matching(command_names(), token) }
    } else {
        CompletionView::Nothing
    }
}

/// Every candidate begins with the word that it completes.
pub proof fn lemma_candidates_match(names: Seq<Seq<char>>, token: Seq<char>)
    ensures
        forall|k: int|
            0 <= k < matching(names, token).len() ==> token.is_prefix_of(
                #[trigger] matching(names, token)[k],
            ),
        matching(names, token).len() <= names.len(),
    decreases names.len(),
{
    if names.len() > 0 {
        lemma_candidates_match(names.drop_last(), token);
    }
}

/// The slash commands, in the order in which they are offered.
pub fn slash_commands() -> (out: Vec<String>)
    ensures
        views(out@) == command_names(),
{
    let mut out: Vec<String> = Vec::new();
    out.push("/clean".to_owned());
    out.push("/trans".to_owned());
    out.push("/eval".to_owned());
    out.push("/help".to_owned());
    out.push("/stream".to_owned());
    out.push("/add".to_owned());
    assert(views(out@) =~= command_names());
    out
}

/// Says what can complete `before`, the text before the cursor.
pub fn complete(before: &str) -> (c: Completion)
    ensures
        c@ == completion_of(before@),
{
    let v = to_chars(before);
    let add = to_chars("/add ");
    if has_prefix(v.as_slice(), add.as_slice()) {
        return Completion::Files;
    }
    let mut start: usize = v.len();
    while start > 0 && !is_whitespace(v[start - 1])
        invariant
            start <= v.len(),
            forall|j: int| start <= j < v.len() ==> !is_space(v@[j]),
        decreases start,
    {
        start -= 1;
    }
    proof {
        lemma_token_start_unique(v@, start as int);
    }
    let token = copy_range(v.as_slice(), start, v.len());
    assert(token@ =~= v@.skip(start as int));
    if token.len() == 0 || token[0] != '/' {
        return Completion::Nothing;
    }
    let names = slash_commands();
    let mut candidates: Vec<String> = Vec::new();
    let mut k: usize = 0;
    assert(views(names@).take(0) =~= Seq::<Seq<char>>::empty());
    assert(views(candidates@) =~= matching(views(names@).take(0), token@));
    while k < names.len()
        invariant
            k <= names@.len(),
            views(candidates@) == matching(views(names@).take(k as int), token@),
        decreases names@.len() - k,
    {
        let name = to_chars(names[k].as_str());
        let ghost before_list = views(candidates@);
        let fits = has_prefix(name.as_slice(), token.as_slice());
        if fits {
            candidates.push(names[k].clone());
        }
        k += 1;
        proof {
            let now = views(names@).take(k as int);
            assert(now.drop_last() =~= views(names@).take(k - 1));
            assert(now.last() == names@[k - 1]@);
            if fits {
                assert(views(candidates@) =~= before_list.push(names@[k - 1]@));
            }
        }
    }
    proof {
        assert(views(names@).take(k as int) =~= views(names@));
    }
    Completion::Commands { token: from_chars(token.as_slice()), candidates }
}

} // verus!
