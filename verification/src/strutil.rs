//! The shared left-padding helper, and the one string-building primitive
//! it and the block builders use.

use crate::error::{CipherError, CipherResult};
use vstd::prelude::*;

verus! {

/// Relies on String::push from std: appends the given character
/// to the end of the string.
#[verifier::external_body]
pub(crate) fn push_char(s: &mut String, c: char)
    ensures
        final(s)@ == old(s)@.push(c),
{
    s.push(c);
}

/// What left-padding yields: `len - s.len()` copies of the fill
/// character, then `s` itself.
pub open spec fn fill_left_spec(s: Seq<char>, fill: char, len: nat) -> Seq<char>
    recommends
        s.len() <= len,
{
    Seq::new((len - s.len()) as nat, |i: int| fill) + s
}

/// Left-pad `string` with `fill` until it is exactly `length` characters
/// long. A string already at the target length comes back unchanged; one
/// longer than the target is refused, never truncated.
pub fn fill_left_with_char(string: String, fill: char, length: usize) -> (r: CipherResult<
    String,
>)
    ensures
        r is Ok <==> string@.len() <= length,
        r matches Ok(out) ==> out@ == fill_left_spec(string@, fill, length as nat),
        string@.len() == length ==> (r matches Ok(out) && out@ == string@),
        string@.len() > length ==> (r matches Err(e) && e is ErrorProcessingString),
{
    let n = string.as_str().unicode_len();
    if n > length {
        Err(
            CipherError::ErrorProcessingString(
                String::from_str("String is longer than desired length"),
            ),
        )
    } else if n == length {
        assert(fill_left_spec(string@, fill, length as nat) =~= string@);
        Ok(string)
    } else {
        let mut temp = String::new();
        let mut i: usize = 0;
        while i < length - n
            invariant
                n == string@.len(),
                n < length,
                i <= length - n,
                temp@ =~= Seq::new(i as nat, |j: int| fill),
            decreases length - n - i,
        {
            push_char(&mut temp, fill);
            i = i + 1;
            assert(temp@ =~= Seq::new(i as nat, |j: int| fill));
        }
        temp.append(string.as_str());
        assert(temp@ =~= fill_left_spec(string@, fill, length as nat));
        Ok(temp)
    }
}

/// The padded string has exactly the target length, ends with the input
/// unchanged, and holds only the fill character before it.
pub proof fn lemma_fill_left_shape(s: Seq<char>, fill: char, len: nat)
    requires
        s.len() <= len,
    ensures
        fill_left_spec(s, fill, len).len() == len,
        fill_left_spec(s, fill, len).skip(len - s.len()) == s,
        forall|i: int| 0 <= i < len - s.len() ==> fill_left_spec(s, fill, len)[i] == fill,
{
    assert(fill_left_spec(s, fill, len).skip(len - s.len()) =~= s);
}

} // verus!
