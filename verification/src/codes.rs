//! Station-code normalization.
//!
//! Station codes (for example airport codes such as `YMML`) are kept in
//! uppercase form everywhere in the state: every operation that accepts a
//! code normalizes it first, so that `ymml` and `YMML` name the same station.
//! Normalization maps the ASCII lowercase letters to their uppercase
//! counterparts and leaves every other character unchanged.

use vstd::prelude::*;
use vstd::string::StrSliceExecFns;

verus! {

/// The uppercase form of a single character: ASCII lowercase letters are
/// mapped to uppercase, everything else is left as it is.
pub open spec fn spec_upper_char(c: char) -> char {
    if 97 <= c as u32 && c as u32 <= 122 {
        ((c as u32 - 32) as u8) as char
    } else {
        c
    }
}

/// The uppercase form of a whole code: each character normalized on its own.
pub open spec fn to_upper(s: Seq<char>) -> Seq<char> {
    Seq::new(s.len(), |i: int| spec_upper_char(s[i]))
}

/// A code is normalized when uppercasing it changes nothing.
pub open spec fn is_normalized(s: Seq<char>) -> bool {
    to_upper(s) == s
}

/// Normalizing twice is the same as normalizing once, character by character.
pub proof fn lemma_upper_char_idempotent(c: char)
    ensures
        spec_upper_char(spec_upper_char(c)) == spec_upper_char(c),
{
}

/// Normalizing twice is the same as normalizing once, so every normalized
/// code is a fixed point of [`to_upper`].
pub proof fn lemma_to_upper_idempotent(s: Seq<char>)
    ensures
        is_normalized(to_upper(s)),
{
    assert forall|i: int| 0 <= i < s.len() implies spec_upper_char(
        #[trigger] to_upper(s)[i],
    ) == to_upper(s)[i] by {
        lemma_upper_char_idempotent(s[i]);
    }
    assert(to_upper(to_upper(s)) =~= to_upper(s));
}

fn upper_char(c: char) -> (r: char)
    ensures
        r == spec_upper_char(c),
{
    let n = c as u32;
    if 97 <= n && n <= 122 {
        ((n - 32) as u8) as char
    } else {
        c
    }
}

/// Relies on `String::push`: appends the given character to the end of the
/// string.
#[verifier::external_body]
fn push_char(s: &mut String, c: char)
    ensures
        final(s)@ == old(s)@.push(c),
{
    s.push(c)
}

/// The normalized (uppercase) form of a station code.
pub fn to_uppercase(s: &str) -> (r: String)
    ensures
        r@ == to_upper(s@),
{
    let n = s.unicode_len();
    let mut r = String::new();
    let mut i: usize = 0;
    while i < n
        invariant
            n == s@.len(),
            i <= n,
            r@ =~= to_upper(s@).subrange(0, i as int),
        decreases n - i,
    {
        let c = s.get_char(i);
        push_char(&mut r, upper_char(c));
        i += 1;
    }
    proof {
        assert(to_upper(s@).subrange(0, n as int) =~= to_upper(s@));
    }
    r
}

} // verus!
