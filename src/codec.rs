use vstd::prelude::*;

use crate::error::IncludeError;
use crate::laws::{lemma_empty, lemma_encoded_length, lemma_round_trip};

verus! {

/// The two base64 alphabets that the library can encode with.
#[derive(Clone, Copy, Debug, PartialEq, Eq, Structural)]
pub enum CharacterSet {
    /// RFC 3548 section 3: `+` and `/` for the last two symbols.
    Standard,
    /// RFC 3548 section 4: `-` and `_` for the last two symbols.
    UrlSafe,
}

/// The symbol of the alphabet that stands for the six-bit value `v`.
pub open spec fn sextet_char(cs: CharacterSet, v: int) -> char {
    if v < 26 {
        (65 + v) as char
    } else if v < 52 {
        (71 + v) as char
    } else if v < 62 {
        (v - 4) as char
    } else if v == 62 {
        if cs == CharacterSet::Standard { '+' } else { '-' }
    } else {
        if cs == CharacterSet::Standard { '/' } else { '_' }
    }
}

/// The six-bit value that a symbol of the alphabet stands for; 0 for any
/// other character, padding included.
pub open spec fn sextet_value(cs: CharacterSet, c: char) -> int {
    let u = c as u32 as int;
    if 65 <= u <= 90 {
        u - 65
    } else if 97 <= u <= 122 {
        u - 71
    } else if 48 <= u <= 57 {
        u + 4
    } else if c == sextet_char(cs, 62) {
        62
    } else if c == sextet_char(cs, 63) {
        63
    } else {
        0
    }
}

/// The four characters for a group of one to three bytes, padded with `=`.
pub open spec fn encode_group(cs: CharacterSet, g: Seq<u8>) -> Seq<char> {
    let a = g[0] as int;
    let b = if g.len() > 1 { g[1] as int } else { 0 };
    let c = if g.len() > 2 { g[2] as int } else { 0 };
    seq![
        sextet_char(cs, a / 4),
        sextet_char(cs, (a % 4) * 16 + b / 16),
        if g.len() > 1 { sextet_char(cs, (b % 16) * 4 + c / 64) } else { '=' },
        if g.len() > 2 { sextet_char(cs, c % 64) } else { '=' },
    ]
}

/// The padded base64 text of `bytes`: one group of four characters for each
/// three bytes, the last group padded.
pub open spec fn base64_text(cs: CharacterSet, bytes: Seq<u8>) -> Seq<char>
    decreases bytes.len(),
{
    if bytes.len() == 0 {
        seq![]
    } else if bytes.len() <= 3 {
        encode_group(cs, bytes)
    } else {
        encode_group(cs, bytes.take(3)) + base64_text(cs, bytes.skip(3))
    }
}

/// The bytes that a group of four characters stands for.
pub open spec fn decode_group(cs: CharacterSet, q: Seq<char>) -> Seq<u8> {
    let v0 = sextet_value(cs, q[0]);
    let v1 = sextet_value(cs, q[1]);
    let v2 = sextet_value(cs, q[2]);
    let v3 = sextet_value(cs, q[3]);
    let a = (v0 * 4 + v1 / 16) as u8;
    let b = ((v1 % 16) * 16 + v2 / 4) as u8;
    let c = ((v2 % 4) * 64 + v3) as u8;
    if q[2] == '=' {
        seq![a]
    } else if q[3] == '=' {
        seq![a, b]
    } else {
        seq![a, b, c]
    }
}

/// The bytes that a padded base64 text stands for, group by group.
pub open spec fn base64_bytes(cs: CharacterSet, text: Seq<char>) -> Seq<u8>
    decreases text.len(),
{
    if text.len() < 4 {
        seq![]
    } else {
        decode_group(cs, text.take(4)) + base64_bytes(cs, text.skip(4))
    }
}

/// The length of the padded text for `n` bytes.
pub open spec fn encoded_len(n: int) -> int {
    (n + 2) / 3 * 4
}

/// Relies on base64::encode_config, with padding on: the padded RFC 4648
/// text of `bytes` in the chosen alphabet. It panics where the length of
/// that text overflows `usize`.
#[verifier::external_body]
fn encode_padded(bytes: &[u8], cs: CharacterSet) -> (r: String)
    requires
        encoded_len(bytes@.len() as int) <= usize::MAX,
    ensures
        r@ == base64_text(cs, bytes@),
{
    let set = match cs {
        CharacterSet::Standard => base64::CharacterSet::Standard,
        CharacterSet::UrlSafe => base64::CharacterSet::UrlSafe,
    };
    base64::encode_config(bytes, base64::Config::new(set, true))
}

/// The padded base64 text of `contents` in the alphabet `cs`.
///
/// Fails with `FileTooLarge`, stating `usize::MAX` as the limit, exactly
/// when the length of that text does not fit in a `usize`.
pub fn encode_contents(contents: &[u8], cs: CharacterSet) -> (r: Result<String, IncludeError>)
    ensures
        match r {
            Ok(s) => {
                &&& encoded_len(contents@.len() as int) <= usize::MAX
                &&& s@ == base64_text(cs, contents@)
            },
            Err(e) => {
                &&& encoded_len(contents@.len() as int) > usize::MAX
                &&& e == (IncludeError::FileTooLarge { max: usize::MAX })
            },
        },
        (r is Ok) ==> r->Ok_0@.len() == encoded_len(contents@.len() as int),
        (r is Ok) ==> base64_bytes(cs, r->Ok_0@) == contents@,
        contents@.len() == 0 ==> (r is Ok) && r->Ok_0@.len() == 0,
{
    let n = contents.len();
    let groups = n / 3 + if n % 3 == 0 { 0 } else { 1 };
    if groups > usize::MAX / 4 {
        return Err(IncludeError::FileTooLarge { max: usize::MAX });
    }
    let s = encode_padded(contents, cs);
    proof {
        lemma_encoded_length(cs, contents@);
        lemma_empty(cs);
        lemma_round_trip(cs, contents@);
    }
    Ok(s)
}

} // verus!
