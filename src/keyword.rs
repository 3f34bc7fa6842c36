//! Case-insensitive matching against a fixed vocabulary.
use vstd::prelude::*;

verus! {

/// The ASCII upper-case form of a byte: letters `a`..`z` map to `A`..`Z`,
/// every other byte stays as it is.
pub open spec fn upper_byte(b: u8) -> u8 {
    if 97 <= b <= 122 {
        (b - 32) as u8
    } else {
        b
    }
}

/// `value` spells `word` when case is ignored (`word` itself is upper case).
pub open spec fn eq_ignore_case(value: Seq<u8>, word: Seq<u8>) -> bool {
    value.len() == word.len() && forall|i: int|
        0 <= i < value.len() ==> #[trigger] upper_byte(value[i]) == word[i]
}

/// Upper-cases one ASCII byte.
pub fn to_upper(b: u8) -> (r: u8)
    ensures
        r == upper_byte(b),
{
    if 97 <= b && b <= 122 {
        b - 32
    } else {
        b
    }
}

/// Compares `value` with the upper-case keyword `word`, ignoring ASCII case.
pub fn matches_ignore_case(value: &[u8], word: &[u8]) -> (r: bool)
    ensures
        r == eq_ignore_case(value@, word@),
{
    if value.len() != word.len() {
        return false;
    }
    let mut i: usize = 0;
    while i < value.len()
        invariant
            value@.len() == word@.len(),
            0 <= i <= value@.len(),
            forall|j: int| 0 <= j < i ==> #[trigger] upper_byte(value@[j]) == word@[j],
        decreases value@.len() - i,
    {
        if to_upper(value[i]) != word[i] {
            return false;
        }
        i = i + 1;
    }
    true
}

} // verus!
