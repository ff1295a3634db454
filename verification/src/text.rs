//! Bytes of ASCII literals.

use vstd::prelude::*;

verus! {

/// The bytes of an ASCII text, one for each character.
pub open spec fn ascii(s: Seq<char>) -> Seq<u8> {
    Seq::new(s.len(), |i: int| s[i] as u8)
}

/// The bytes of an ASCII string.
pub(crate) fn ascii_bytes<'a>(s: &'a str) -> (bytes: &'a [u8])
    requires
        vstd::string::is_ascii(s),
    ensures
        bytes@ == ascii(s@),
        bytes@ == vstd::utf8::encode_utf8(s@),
{
    proof {
        vstd::string::is_ascii_spec_bytes(s);
    }
    s.as_bytes()
}

/// The bytes of an ASCII text are those of its encoding in UTF-8.
pub proof fn law_ascii_is_utf8(s: Seq<char>)
    requires
        vstd::utf8::is_ascii_chars(s),
    ensures
        ascii(s) == vstd::utf8::encode_utf8(s),
{
    vstd::utf8::is_ascii_chars_encode_utf8(s);
    assert(ascii(s) =~= vstd::utf8::encode_utf8(s));
}

/// Texts keep their length and their order as bytes: the bytes of two texts
/// joined are the bytes of the one and then those of the other.
pub proof fn law_ascii_joins(s: Seq<char>, t: Seq<char>)
    ensures
        ascii(s).len() == s.len(),
        ascii(s + t) == ascii(s) + ascii(t),
{
    assert(ascii(s + t) =~= ascii(s) + ascii(t));
}

} // verus!
