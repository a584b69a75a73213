//! The rotate-by-13 substitution over the ASCII Latin alphabet.
//!
//! Every uppercase or lowercase ASCII letter is rotated by thirteen places
//! within its own case; every other character passes through unchanged. The
//! mapping is a bijection on each 26-letter alphabet half, and applying it
//! twice restores the original text.

use vstd::prelude::*;

verus! {

/// Is `c` one of the characters the cipher acts on: an ASCII Latin letter?
pub open spec fn is_cipher_letter(c: char) -> bool {
    ('A' <= c && c <= 'Z') || ('a' <= c && c <= 'z')
}

/// The per-character substitution: letters in the first half of either
/// alphabet move forward thirteen code points, letters in the second half
/// move back thirteen, and everything else is left alone.
pub open spec fn rot13_char(c: char) -> char {
    if ('A' <= c && c <= 'M') || ('a' <= c && c <= 'm') {
        (((c as u8) + 13) as u8) as char
    } else if ('N' <= c && c <= 'Z') || ('n' <= c && c <= 'z') {
        (((c as u8) - 13) as u8) as char
    } else {
        c
    }
}

/// The substitution applied pointwise to a whole character sequence.
pub open spec fn rot13_seq(s: Seq<char>) -> Seq<char> {
    s.map(|_i: int, c: char| rot13_char(c))
}

/// The per-character substitution is its own inverse.
pub proof fn lemma_rot13_char_self_inverse(c: char)
    ensures
        rot13_char(rot13_char(c)) == c,
{
}

/// Applying the cipher twice to any text restores the text (self-inverse law).
pub proof fn lemma_rot13_self_inverse(s: Seq<char>)
    ensures
        rot13_seq(rot13_seq(s)) == s,
{
    assert forall|i: int| 0 <= i < s.len() implies rot13_seq(rot13_seq(s))[i] == s[i] by {
        lemma_rot13_char_self_inverse(s[i]);
    }
    assert(rot13_seq(rot13_seq(s)) =~= s);
}

/// The cipher never moves, inserts or removes characters: a character that is
/// not an ASCII letter stays unchanged at its position.
pub proof fn lemma_rot13_preserves_non_letters(s: Seq<char>, i: int)
    requires
        0 <= i < s.len(),
        !is_cipher_letter(s[i]),
    ensures
        rot13_seq(s)[i] == s[i],
{
}

/// The substitution for one character, executable form.
pub fn rot13_char_exec(c: char) -> (r: char)
    ensures
        r == rot13_char(c),
{
    if ('A' <= c && c <= 'M') || ('a' <= c && c <= 'm') {
        ((c as u8) + 13) as char
    } else if ('N' <= c && c <= 'Z') || ('n' <= c && c <= 'z') {
        ((c as u8) - 13) as char
    } else {
        c
    }
}

/// Relies on `String::from_iter` (through `Iterator::collect`): the collected
/// string holds exactly the characters of the vector, in order.
#[verifier::external_body]
fn chars_to_string(v: Vec<char>) -> (r: String)
    ensures
        r@ == v@,
{
    v.into_iter().collect()
}

/// Apply the rotate-by-13 substitution to a text, producing a new text of the
/// same length in characters.
pub fn rot13(text: &str) -> (r: String)
    ensures
        r@ == rot13_seq(text@),
        r@.len() == text@.len(),
{
    let n = text.unicode_len();
    let mut out: Vec<char> = Vec::new();
    let mut i: usize = 0;
    while i < n
        invariant
            i <= n,
            n == text@.len(),
            out@ == rot13_seq(text@.subrange(0, i as int)),
        decreases n - i,
    {
        let c = text.get_char(i);
        out.push(rot13_char_exec(c));
        proof {
            assert(rot13_seq(text@.subrange(0, i as int + 1)) =~= rot13_seq(
                text@.subrange(0, i as int),
            ).push(rot13_char(text@[i as int])));
        }
        i = i + 1;
    }
    proof {
        assert(text@.subrange(0, n as int) =~= text@);
    }
    chars_to_string(out)
}

} // verus!
