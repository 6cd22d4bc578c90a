//! Text: comparing and capping.

use vstd::prelude::*;

verus! {

/// At most the first `cap` characters.
pub open spec fn capped(text: Seq<char>, cap: nat) -> Seq<char> {
    if text.len() <= cap {
        text
    } else {
        text.take(cap as int)
    }
}

/// At most the first `cap` characters of `text`.
pub fn cap_chars(text: String, cap: usize) -> (res: String)
    ensures
        res@ == capped(text@, cap as nat),
{
    if text.as_str().unicode_len() <= cap {
        text
    } else {
        text.as_str().substring_char(0, cap).to_string()
    }
}

/// Whether `text` reads `word`.
pub fn reads(text: &String, word: &str) -> (b: bool)
    ensures
        b == (text@ == word@),
{
    *text == word.to_string()
}

} // verus!
