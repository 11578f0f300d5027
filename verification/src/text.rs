use vstd::prelude::*;

verus! {

/// The ASCII upper-case form of one character: 'a' through 'z' map to
/// 'A' through 'Z', every other character is unchanged.
pub open spec fn to_upper_ascii(c: char) -> char {
    if 97 <= c as u32 && c as u32 <= 122 {
        ((c as u32) - 32) as char
    } else {
        c
    }
}

/// Upper-cases one ASCII letter, leaving every other character unchanged.
pub fn upper_ascii(c: char) -> (r: char)
    ensures
        r == to_upper_ascii(c),
{
    let u: u32 = c as u32;
    if 97 <= u && u <= 122 {
        ((u - 32) as u8) as char
    } else {
        c
    }
}

/// True exactly when the two string slices hold the same characters.
pub fn str_eq(a: &str, b: &str) -> (r: bool)
    ensures
        r == (a@ == b@),
{
    let an = a.unicode_len();
    let bn = b.unicode_len();
    if an != bn {
        return false;
    }
    let mut i: usize = 0;
    while i < an
        invariant
            an == a@.len(),
            bn == b@.len(),
            an == bn,
            0 <= i <= an,
            forall|j: int| 0 <= j < i ==> a@[j] == b@[j],
        decreases an - i,
    {
        if a.get_char(i) != b.get_char(i) {
            return false;
        }
        i += 1;
    }
    proof {
        assert(a@ =~= b@);
    }
    true
}

/// What `str::to_uppercase` returns for a given character sequence.
pub uninterp spec fn upper_of(s: Seq<char>) -> Seq<char>;

/// Relies on `str::to_uppercase`: the result is a function of the characters
/// alone, and an empty string stays empty.
#[verifier::external_body]
pub(crate) fn uppercased(s: &str) -> (r: String)
    ensures
        r@ == upper_of(s@),
        s@.len() == 0 ==> r@.len() == 0,
{
    s.to_uppercase()
}

/// Relies on `String::push`: appends exactly the given character.
#[verifier::external_body]
pub(crate) fn push_char(s: &mut String, c: char)
    ensures
        final(s)@ == old(s)@.push(c),
{
    s.push(c)
}

} // verus!
