//! Character-level helpers used to recognise a repository link file.
use vstd::prelude::*;

verus! {

/// The characters that Rust's `char::is_whitespace` accepts: those with the
/// Unicode `White_Space` property.
pub open spec fn is_white_space(c: char) -> bool {
    let u = c as u32;
    ||| 0x09 <= u && u <= 0x0D
    ||| u == 0x20
    ||| u == 0x85
    ||| u == 0xA0
    ||| u == 0x1680
    ||| 0x2000 <= u && u <= 0x200A
    ||| u == 0x2028
    ||| u == 0x2029
    ||| u == 0x202F
    ||| u == 0x205F
    ||| u == 0x3000
}

/// `s` without its leading white space.
pub open spec fn trim_start_ws(s: Seq<char>) -> Seq<char>
    decreases s.len(),
{
    if s.len() > 0 && is_white_space(s[0]) {
        trim_start_ws(s.drop_first())
    } else {
        s
    }
}

/// `s` without its trailing white space.
pub open spec fn trim_end_ws(s: Seq<char>) -> Seq<char>
    decreases s.len(),
{
    if s.len() > 0 && is_white_space(s.last()) {
        trim_end_ws(s.drop_last())
    } else {
        s
    }
}

/// `s` without white space at either end.
pub open spec fn trim_ws(s: Seq<char>) -> Seq<char> {
    trim_end_ws(trim_start_ws(s))
}

/// The prefix that marks a `.git` file as a link to a repository stored elsewhere.
pub open spec fn link_prefix() -> Seq<char> {
    seq!['g', 'i', 't', 'd', 'i', 'r', ':']
}

/// Whether the text of a `.git` file, once trimmed, begins with `gitdir:`.
pub open spec fn is_gitdir_link(content: Seq<char>) -> bool {
    link_prefix().is_prefix_of(trim_ws(content))
}

/// Relies on `str::trim`: the slice without leading and trailing characters
/// that have the Unicode `White_Space` property.
#[verifier::external_body]
fn trimmed(s: &str) -> (r: &str)
    ensures
        r@ == trim_ws(s@),
{
    s.trim()
}

/// Relies on `str::starts_with` with a `&str` pattern: whether `p` is a prefix of `s`.
#[verifier::external_body]
fn starts_with_text(s: &str, p: &str) -> (r: bool)
    ensures
        r == p@.is_prefix_of(s@),
{
    s.starts_with(p)
}

/// Whether the text of a `.git` file makes its directory a submodule or a
/// worktree link: trimmed, it begins with `gitdir:`.
pub fn is_gitdir_link_text(content: &str) -> (r: bool)
    ensures
        r == is_gitdir_link(content@),
{
    let t = trimmed(content);
    let prefix = "gitdir:";
    proof {
        reveal_strlit("gitdir:");
    }
    assert(prefix@ =~= link_prefix());
    starts_with_text(t, prefix)
}

/// Whether `needle` occurs in `hay` as a run of consecutive characters.
pub open spec fn contains_text(hay: Seq<char>, needle: Seq<char>) -> bool {
    exists|i: int|
        0 <= i && i + needle.len() <= hay.len() && #[trigger] hay.subrange(i, i + needle.len())
            == needle
}

/// Relies on `str::contains` with a `&str` pattern: whether `needle` occurs
/// in `hay`.
#[verifier::external_body]
pub(crate) fn text_contains(hay: &str, needle: &str) -> (r: bool)
    ensures
        r == contains_text(hay@, needle@),
{
    hay.contains(needle)
}

} // verus!
