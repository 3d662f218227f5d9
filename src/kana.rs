use vstd::prelude::*;
use vstd::utf8::is_scalar;

use crate::text::push_char;

verus! {

/// Hiragana occupy U+3041 (ぁ) to U+3093 (ん).
pub open spec fn is_hiragana(c: char) -> bool {
    0x3041 <= c as u32 <= 0x3093
}

/// The katakana counterpart of a hiragana character; any other character is kept.
pub open spec fn katakana_char(c: char) -> char {
    if is_hiragana(c) {
        ((c as u32) + 0x60) as u32 as char
    } else {
        c
    }
}

/// A text with every hiragana character replaced by its katakana counterpart.
pub open spec fn katakana(s: Seq<char>) -> Seq<char> {
    s.map_values(|c: char| katakana_char(c))
}

/// Relies on `char::from_u32`: it gives a `char` exactly for the Unicode scalar values.
#[verifier::external_body]
fn char_from_u32(u: u32) -> (r: Option<char>)
    ensures
        is_scalar(u) ==> r == Some(u as char),
        !is_scalar(u) ==> r is None,
{
    char::from_u32(u)
}

/// Maps every hiragana character of `input` to katakana, leaving all other
/// characters as they are.
pub fn to_katakana(input: &str) -> (r: String)
    ensures
        r@ == katakana(input@),
{
    let mut out = String::new();
    let ghost mut n: int = 0;
    for c in it: input.chars()
        invariant
            it.seq() == input@,
            n == it.index(),
            out@ == katakana(input@.take(n)),
    {
        let k = if 0x3041 <= c as u32 && c as u32 <= 0x3093 {
            match char_from_u32(c as u32 + 0x60) {
                Some(k) => k,
                None => c,
            }
        } else {
            c
        };
        push_char(&mut out, k);
        assert(input@.take(n + 1) =~= input@.take(n).push(c));
        proof {
            n = n + 1;
        }
    }
    assert(input@.take(n) =~= input@);
    out
}

/// Normalizing twice is normalizing once.
pub proof fn lemma_katakana_idempotent(s: Seq<char>)
    ensures
        katakana(katakana(s)) == katakana(s),
{
    assert forall|i: int| 0 <= i < s.len() implies katakana_char(katakana_char(s[i]))
        == katakana_char(s[i]) by {
        let c = s[i];
        if is_hiragana(c) {
            let u = ((c as u32) + 0x60) as u32;
            assert(is_scalar(u));
            assert((u as char) as u32 == u);
        }
    }
    assert(katakana(katakana(s)) =~= katakana(s));
}

/// A text without hiragana is left unchanged.
pub proof fn lemma_katakana_identity(s: Seq<char>)
    requires
        forall|i: int| 0 <= i < s.len() ==> !is_hiragana(#[trigger] s[i]),
    ensures
        katakana(s) == s,
{
    assert(katakana(s) =~= s);
}

} // verus!
