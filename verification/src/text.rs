//! String-building helpers on top of the vstd string support, and the two
//! standard-library calls this crate takes on trust.

use vstd::prelude::*;

verus! {

/// Relies on String::push: appends exactly the given character.
#[verifier::external_body]
pub fn push_char(s: &mut String, c: char)
    ensures
        final(s)@ == old(s)@ + seq![c],
{
    s.push(c);
}

/// The character sequence that lossy UTF-8 decoding yields for a byte
/// sequence; it depends on the bytes alone.
pub uninterp spec fn utf8_lossy_chars(bytes: Seq<u8>) -> Seq<char>;

/// Relies on String::from_utf8_lossy: the result is a function of the bytes
/// alone, and valid UTF-8 decodes as-is, with no substitutions.
#[verifier::external_body]
pub fn utf8_lossy(bytes: &[u8]) -> (r: String)
    ensures
        r@ == utf8_lossy_chars(bytes@),
        vstd::utf8::valid_utf8(bytes@) ==> r@ == vstd::utf8::decode_utf8(bytes@),
{
    String::from_utf8_lossy(bytes).into_owned()
}

/// Append a vector of characters to a string.
pub fn push_chars(s: &mut String, v: &Vec<char>)
    ensures
        final(s)@ == old(s)@ + v@,
{
    let mut i: usize = 0;
    while i < v.len()
        invariant
            0 <= i <= v@.len(),
            s@ == old(s)@ + v@.take(i as int),
        decreases v@.len() - i,
    {
        push_char(s, v[i]);
        proof {
            assert(v@.take(i + 1) =~= v@.take(i as int).push(v@[i as int]));
            assert(old(s)@ + v@.take(i + 1) =~= (old(s)@ + v@.take(i as int)) + seq![v@[i as int]]);
        }
        i = i + 1;
    }
    proof {
        assert(v@.take(i as int) =~= v@);
    }
}

} // verus!
