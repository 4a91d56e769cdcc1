use vstd::prelude::*;
use vstd::string::*;
use vstd::utf8::{encode_utf8, encode_utf8_valid_utf8, is_char_boundary};

verus! {

/// `s` has the character `c` at position `i` (what `s.chars().nth(i) == Some(c)` tests).
pub open spec fn has_char_at(s: Seq<char>, i: int, c: char) -> bool {
    0 <= i < s.len() && s[i] == c
}

/// The byte slice `s[0..4]` of the UTF-8 text `s` can be taken: byte 4 is a
/// character boundary (and so `s` has at least four bytes).
pub open spec fn byte_prefix4_ok(s: Seq<char>) -> bool {
    is_char_boundary(encode_utf8(s), 4)
}

/// The first four bytes of the UTF-8 encodings of `a` and `b` agree.
pub open spec fn same_byte_prefix4(a: Seq<char>, b: Seq<char>) -> bool {
    encode_utf8(a).take(4) == encode_utf8(b).take(4)
}

/// A text whose byte 4 is a character boundary has at least four bytes.
pub proof fn lemma_byte_prefix4_len(s: Seq<char>)
    requires
        byte_prefix4_ok(s),
    ensures
        encode_utf8(s).len() >= 4,
{
    encode_utf8_valid_utf8(s);
}

/// Tests `s.chars().nth(i) == Some(c)`.
pub fn char_at_is(s: &str, i: usize, c: char) -> (res: bool)
    ensures
        res == has_char_at(s@, i as int, c),
{
    i < s.unicode_len() && s.get_char(i) == c
}

/// `s` is the one-character string `c`.
pub open spec fn is_char_string(s: Seq<char>, c: char) -> bool {
    s.len() == 1 && s[0] == c
}

/// Tests whether `s` is the one-character string `c`.
pub fn is_single_char(s: &str, c: char) -> (res: bool)
    ensures
        res == is_char_string(s@, c),
{
    s.unicode_len() == 1 && s.get_char(0) == c
}

/// Tests whether `s` is the word `ALL`.
pub fn is_all_keyword(s: &str) -> (res: bool)
    ensures
        res == (s@ == seq!['A', 'L', 'L']),
{
    let res = s.unicode_len() == 3 && s.get_char(0) == 'A' && s.get_char(1) == 'L' && s.get_char(2)
        == 'L';
    proof {
        if s@.len() == 3 {
            assert(res == (s@ =~= seq!['A', 'L', 'L']));
        } else {
            assert(seq!['A', 'L', 'L'].len() == 3);
        }
    }
    res
}

/// Compares the byte slices `a[0..4]` and `b[0..4]`.
pub fn prefix4_eq(a: &str, b: &str) -> (res: bool)
    requires
        byte_prefix4_ok(a@),
        byte_prefix4_ok(b@),
    ensures
        res == same_byte_prefix4(a@, b@),
{
    proof {
        lemma_byte_prefix4_len(a@);
        lemma_byte_prefix4_len(b@);
    }
    let x = a.as_bytes();
    let y = b.as_bytes();
    let res = x[0] == y[0] && x[1] == y[1] && x[2] == y[2] && x[3] == y[3];
    proof {
        let ea = encode_utf8(a@);
        let eb = encode_utf8(b@);
        if res {
            assert(ea.take(4) =~= eb.take(4));
        } else if ea.take(4) == eb.take(4) {
            assert(ea.take(4)[0] == eb.take(4)[0]);
            assert(ea.take(4)[1] == eb.take(4)[1]);
            assert(ea.take(4)[2] == eb.take(4)[2]);
            assert(ea.take(4)[3] == eb.take(4)[3]);
        }
    }
    res
}

} // verus!
