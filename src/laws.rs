use vstd::prelude::*;

use crate::codec::{
    base64_bytes, base64_text, decode_group, encode_group, encoded_len, sextet_char, sextet_value,
    CharacterSet,
};
use crate::error::{decimal_text, IncludeError};

verus! {

/// Each six-bit value is read back from its symbol, and no symbol is `=`.
pub proof fn lemma_sextet_round_trip(cs: CharacterSet, v: int)
    requires
        0 <= v < 64,
    ensures
        sextet_value(cs, sextet_char(cs, v)) == v,
        sextet_char(cs, v) != '=',
{
}

/// A group of one to three bytes is read back from its four characters.
pub proof fn lemma_group_round_trip(cs: CharacterSet, g: Seq<u8>)
    requires
        1 <= g.len() <= 3,
    ensures
        encode_group(cs, g).len() == 4,
        decode_group(cs, encode_group(cs, g)) == g,
{
    let a = g[0] as int;
    let b = if g.len() > 1 { g[1] as int } else { 0 };
    let c = if g.len() > 2 { g[2] as int } else { 0 };
    let s0 = a / 4;
    let s1 = (a % 4) * 16 + b / 16;
    let s2 = (b % 16) * 4 + c / 64;
    let s3 = c % 64;
    lemma_sextet_round_trip(cs, s0);
    lemma_sextet_round_trip(cs, s1);
    lemma_sextet_round_trip(cs, s2);
    lemma_sextet_round_trip(cs, s3);
    assert(s0 * 4 + s1 / 16 == a);
    assert((s1 % 16) * 16 + s2 / 4 == b);
    assert((s2 % 4) * 64 + s3 == c);
    let q = encode_group(cs, g);
    assert(decode_group(cs, q) =~= g);
}

/// The padded text of `n` bytes has `4 * ceil(n / 3)` characters.
pub proof fn lemma_encoded_length(cs: CharacterSet, bytes: Seq<u8>)
    ensures
        base64_text(cs, bytes).len() == encoded_len(bytes.len() as int),
    decreases bytes.len(),
{
    if bytes.len() > 3 {
        lemma_encoded_length(cs, bytes.skip(3));
    }
}

/// Decoding the padded text of any bytes, in the same alphabet, gives the
/// bytes back.
pub proof fn lemma_round_trip(cs: CharacterSet, bytes: Seq<u8>)
    ensures
        base64_bytes(cs, base64_text(cs, bytes)) == bytes,
    decreases bytes.len(),
{
    let t = base64_text(cs, bytes);
    if bytes.len() == 0 {
    } else if bytes.len() <= 3 {
        lemma_group_round_trip(cs, bytes);
        assert(t.take(4) =~= t);
        assert(t.skip(4) =~= Seq::<char>::empty());
        assert(base64_bytes(cs, t.skip(4)) =~= Seq::<u8>::empty());
        assert(base64_bytes(cs, t) =~= bytes);
    } else {
        let g = encode_group(cs, bytes.take(3));
        let rest = base64_text(cs, bytes.skip(3));
        lemma_group_round_trip(cs, bytes.take(3));
        lemma_round_trip(cs, bytes.skip(3));
        assert(t.take(4) =~= g);
        assert(t.skip(4) =~= rest);
        assert(base64_bytes(cs, t) =~= bytes);
    }
}

/// The symbol of the URL-safe alphabet for a standard one: `-` for `+`,
/// `_` for `/`, every other character unchanged.
pub open spec fn url_safe_of(c: char) -> char {
    if c == '+' {
        '-'
    } else if c == '/' {
        '_'
    } else {
        c
    }
}

/// The URL-safe text of any bytes is their standard text with `+` turned
/// into `-` and `/` into `_`, character by character; the two have the same
/// length.
pub proof fn lemma_alphabets_differ_in_two_symbols(bytes: Seq<u8>)
    ensures
        base64_text(CharacterSet::UrlSafe, bytes).len() == base64_text(
            CharacterSet::Standard,
            bytes,
        ).len(),
        base64_text(CharacterSet::UrlSafe, bytes) == base64_text(
            CharacterSet::Standard,
            bytes,
        ).map_values(|c: char| url_safe_of(c)),
    decreases bytes.len(),
{
    let f = |c: char| url_safe_of(c);
    if bytes.len() == 0 {
        assert(base64_text(CharacterSet::UrlSafe, bytes) =~= base64_text(
            CharacterSet::Standard,
            bytes,
        ).map_values(f));
    } else {
        let g = if bytes.len() <= 3 { bytes } else { bytes.take(3) };
        assert(encode_group(CharacterSet::UrlSafe, g) =~= encode_group(
            CharacterSet::Standard,
            g,
        ).map_values(f));
        if bytes.len() > 3 {
            lemma_alphabets_differ_in_two_symbols(bytes.skip(3));
            let s = encode_group(CharacterSet::Standard, g);
            let r = base64_text(CharacterSet::Standard, bytes.skip(3));
            assert((s + r).map_values(f) =~= s.map_values(f) + r.map_values(f));
        }
    }
}

/// The text of no bytes is empty.
pub proof fn lemma_empty(cs: CharacterSet)
    ensures
        base64_text(cs, Seq::<u8>::empty()) == Seq::<char>::empty(),
{
}

/// The text of `FileTooLarge` states its limit: the limit's decimal digits
/// follow the opening words.
pub proof fn lemma_too_large_states_limit(max: usize)
    ensures
        ({
            let d = decimal_text(max as nat);
            (IncludeError::FileTooLarge { max }).message_text().subrange(19, 19 + d.len() as int)
                == d
        }),
{
    let e = IncludeError::FileTooLarge { max };
    let d = decimal_text(max as nat);
    reveal_strlit("File too big (max: ");
    reveal_strlit(")");
    assert(e.message_text().subrange(19, 19 + d.len() as int) =~= d);
}

} // verus!
