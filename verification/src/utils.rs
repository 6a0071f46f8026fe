//! Small helpers: the user's display name, the clock, markdown for the
//! terminal.

use crate::text::{from_chars, push_str, to_chars};
use vstd::prelude::*;

verus! {

/// `c` as a capital where it is an ASCII small letter, else `c`.
pub open spec fn upper_ascii(c: char) -> char {
    if 'a' <= c <= 'z' {
        ((c as u8) - 32) as char
    } else {
        c
    }
}

/// `s` with its first character as a capital. A text whose first character
/// lies outside ASCII has no capitalised form: the result is empty.
pub open spec fn capitalized(s: Seq<char>) -> Seq<char> {
    if s.len() == 0 || (s[0] as u32) >= 0x80 {
        Seq::empty()
    } else {
        seq![upper_ascii(s[0])] + s.skip(1)
    }
}

/// The name under which a user goes whose name is not known.
pub open spec fn default_user() -> Seq<char> {
    "user"@
}

/// The user's display name.
pub open spec fn display_user(name: Option<Seq<char>>) -> Seq<char> {
    match name {
        Some(n) => capitalized(n),
        None => capitalized(default_user()),
    }
}

/// Gives `s` with its first character as a capital.
pub fn capitalize(s: &str) -> (out: String)
    ensures
        out@ == capitalized(s@),
{
    let v = to_chars(s);
    let mut out: Vec<char> = Vec::new();
    if v.len() > 0 && (v[0] as u32) < 0x80 {
        let first = v[0];
        let upper: char = if 'a' <= first && first <= 'z' {
            ((first as u8) - 32) as char
        } else {
            first
        };
        out.push(upper);
        let mut i: usize = 1;
        while i < v.len()
            invariant
                1 <= i <= v.len(),
                out@ == seq![upper] + v@.subrange(1, i as int),
            decreases v.len() - i,
        {
            out.push(v[i]);
            i += 1;
        }
        assert(v@.subrange(1, v.len() as int) =~= v@.skip(1));
    }
    from_chars(out.as_slice())
}

/// The user's display name: the login name, capitalised; `User` where the
/// login name is not known.
pub fn get_user(login: Option<&str>) -> (out: String)
    ensures
        out@ == display_user(
            match login {
                Some(n) => Some(n@),
                None => None,
            },
        ),
{
    match login {
        Some(name) => capitalize(name),
        None => capitalize("user"),
    }
}

/// The local date and time, as `chrono::Local::now` reads the clock and
/// `DateTime::format` writes it with the pattern `%Y-%m-%d %H:%M:%S`.
/// Nothing is claimed of the text: it depends on the clock.
#[verifier::external_body]
pub fn current_datetime() -> (now: String) {
    chrono::Local::now().format("%Y-%m-%d %H:%M:%S").to_string()
}

/// `response` laid out for the terminal by `termimad`: the default
/// `MadSkin`, its `term_text`, and the `Display` of what that gives.
/// Nothing is claimed of the text: it depends on the width of the terminal.
#[verifier::external_body]
pub fn render_markdown(response: &str) -> (out: String) {
    termimad::MadSkin::default().term_text(response).to_string()
}

/// What is shown of a reply that came in one piece: an empty line, then the
/// reply laid out for the terminal.
pub fn display_reply(response: &str) -> (out: String)
    ensures
        "\n"@.is_prefix_of(out@),
{
    let rendered = render_markdown(response);
    let mut out: Vec<char> = Vec::new();
    push_str(&mut out, "\n");
    push_str(&mut out, rendered.as_str());
    from_chars(out.as_slice())
}

} // verus!
