//! The management API's bearer token.
use vstd::prelude::*;

use crate::text::{is_ws, trim, trim_end, trim_start, trim_str};

verus! {

/// The lower-case hexadecimal digit for `d < 16` (as `char::from_digit`).
pub open spec fn hex_char(d: u32) -> char {
    if d < 10 {
        ((48 + d) as u32) as char
    } else {
        ((87 + d) as u32) as char
    }
}

/// A lower-case hexadecimal digit character.
pub open spec fn is_hex_char(c: char) -> bool {
    ('0' <= c && c <= '9') || ('a' <= c && c <= 'f')
}

/// A freshly generated token: 32 lower-case hexadecimal digits.
pub open spec fn is_token(t: Seq<char>) -> bool {
    t.len() == 32 && forall|i: int| 0 <= i < t.len() ==> is_hex_char(#[trigger] t[i])
}

/// The token stored in a token file with these contents, if any: the
/// contents without surrounding whitespace, unless that is empty.
pub open spec fn stored_token(contents: Seq<char>) -> Option<Seq<char>> {
    if trim(contents).len() > 0 {
        Some(trim(contents))
    } else {
        None
    }
}

/// Calls `rand::Rng::gen_range` with the range `0..bound` on
/// `rand::thread_rng()`; the contract claims only that the value is below
/// `bound` (rand panics on an empty range, which `requires` rules out).
#[verifier::external_body]
fn random_below(bound: u32) -> (d: u32)
    requires
        bound > 0,
    ensures
        d < bound,
{
    rand::Rng::gen_range(&mut rand::thread_rng(), 0..bound)
}

fn hex_digit(d: u32) -> (c: char)
    requires
        d < 16,
    ensures
        c == hex_char(d),
        is_hex_char(c),
{
    if d < 10 {
        ((48 + d) as u8) as char
    } else {
        ((87 + d) as u8) as char
    }
}

/// A fresh random token of 32 lower-case hexadecimal digits.
pub fn generate_token() -> (t: String)
    ensures
        is_token(t@),
{
    let mut t = String::new();
    let mut i: usize = 0;
    while i < 32
        invariant
            i <= 32,
            t@.len() == i,
            forall|j: int| 0 <= j < i ==> is_hex_char(#[trigger] t@[j]),
        decreases 32 - i,
    {
        let d = random_below(16);
        t.push(hex_digit(d));
        i = i + 1;
    }
    t
}

/// Where the token came from.
pub enum TokenSource {
    /// Read from the token file.
    Existing(String),
    /// Freshly generated; the caller persists it (readable by its owner
    /// only).
    Generated(String),
}

/// The token to use given the token file's contents (`None` when it could
/// not be read): the stored token when there is one, else a fresh one.
pub fn load_or_create(contents: Option<&str>) -> (r: TokenSource)
    ensures
        match r {
            TokenSource::Existing(t) => contents is Some && stored_token(contents->0@) == Some(t@),
            TokenSource::Generated(t) => is_token(t@) && (contents is None || stored_token(
                contents->0@,
            ) is None),
        },
{
    if let Some(c) = contents {
        let t = trim_str(c);
        if t.unicode_len() > 0 {
            return TokenSource::Existing(t);
        }
    }
    TokenSource::Generated(generate_token())
}

proof fn lemma_trim_no_ws(t: Seq<char>)
    requires
        forall|i: int| 0 <= i < t.len() ==> !is_ws(#[trigger] t[i]),
    ensures
        trim_start(t) == t,
        trim_end(t) == t,
{
    if t.len() > 0 {
        assert(!is_ws(t[0]));
        assert(!is_ws(t.last()));
    }
}

/// A generated token reads back as itself: written to the token file, the
/// next start loads exactly that token.
pub proof fn law_generated_token_rereads(t: Seq<char>)
    requires
        is_token(t),
    ensures
        stored_token(t) == Some(t),
{
    assert forall|i: int| 0 <= i < t.len() implies !is_ws(#[trigger] t[i]) by {
        assert(is_hex_char(t[i]));
    }
    lemma_trim_no_ws(t);
}

} // verus!
