//! Binary content as base64 text: the standard alphabet, padded with `=`.

use vstd::prelude::*;

verus! {

/// The character of the standard alphabet that stands for the six bits `v`.
pub open spec fn symbol(v: int) -> char {
    if v < 26 {
        (65 + v) as char
    } else if v < 52 {
        (71 + v) as char
    } else if v < 62 {
        (v - 4) as char
    } else if v == 62 {
        '+'
    } else {
        '/'
    }
}

/// The six bits that `c` stands for, if it is of the standard alphabet.
pub open spec fn sextet(c: char) -> Option<int> {
    let n = c as int;
    if 65 <= n <= 90 {
        Some(n - 65)
    } else if 97 <= n <= 122 {
        Some(n - 71)
    } else if 48 <= n <= 57 {
        Some(n + 4)
    } else if c == '+' {
        Some(62)
    } else if c == '/' {
        Some(63)
    } else {
        None
    }
}

/// The base64 text of `bytes`: four characters for each group of three
/// bytes, the last group filled up with `=`.
pub open spec fn encoded(bytes: Seq<u8>) -> Seq<char>
    decreases bytes.len(),
{
    if bytes.len() == 0 {
        Seq::empty()
    } else if bytes.len() == 1 {
        let x = bytes[0] as int;
        seq![symbol(x / 4), symbol(x % 4 * 16), '=', '=']
    } else if bytes.len() == 2 {
        let x = bytes[0] as int;
        let y = bytes[1] as int;
        seq![symbol(x / 4), symbol(x % 4 * 16 + y / 16), symbol(y % 16 * 4), '=']
    } else {
        let x = bytes[0] as int;
        let y = bytes[1] as int;
        let z = bytes[2] as int;
        seq![
            symbol(x / 4),
            symbol(x % 4 * 16 + y / 16),
            symbol(y % 16 * 4 + z / 64),
            symbol(z % 64),
        ] + encoded(bytes.skip(3))
    }
}

/// The bytes that `text` is the base64 text of; `None` where it is none.
pub open spec fn decoded(text: Seq<char>) -> Option<Seq<u8>>
    decreases text.len(),
{
    if text.len() == 0 {
        Some(Seq::empty())
    } else if text.len() < 4 {
        None
    } else {
        match (sextet(text[0]), sextet(text[1]), sextet(text[2]), sextet(text[3])) {
            (Some(a), Some(b), Some(c), Some(d)) => match decoded(text.skip(4)) {
                Some(rest) => Some(
                    seq![
                        (a * 4 + b / 16) as u8,
                        (b % 16 * 16 + c / 4) as u8,
                        (c % 4 * 64 + d) as u8,
                    ] + rest,
                ),
                None => None,
            },
            (Some(a), Some(b), Some(c), None) => if text.len() == 4 && text[3] == '=' && c % 4
                == 0 {
                Some(seq![(a * 4 + b / 16) as u8, (b % 16 * 16 + c / 4) as u8])
            } else {
                None
            },
            (Some(a), Some(b), None, None) => if text.len() == 4 && text[2] == '=' && text[3]
                == '=' && b % 16 == 0 {
                Some(seq![(a * 4 + b / 16) as u8])
            } else {
                None
            },
            _ => None,
        }
    }
}

/// The length of the base64 text of `n` bytes.
pub open spec fn encoded_len(n: nat) -> nat {
    (n + 2) / 3 * 4
}

/// Every six bits have a character, and the character stands for them.
pub proof fn lemma_symbol_sextet(v: int)
    requires
        0 <= v < 64,
    ensures
        sextet(symbol(v)) == Some(v),
        symbol(v) != '=',
{
}

/// The four groups of six bits that three bytes are cut into hold those
/// bytes.
proof fn lemma_groups(x: int, y: int, z: int)
    requires
        0 <= x < 256,
        0 <= y < 256,
        0 <= z < 256,
    ensures
        0 <= x / 4 < 64,
        0 <= x % 4 * 16 + y / 16 < 64,
        0 <= y % 16 * 4 + z / 64 < 64,
        0 <= z % 64 < 64,
        (x / 4) * 4 + (x % 4 * 16 + y / 16) / 16 == x,
        (x % 4 * 16 + y / 16) % 16 * 16 + (y % 16 * 4 + z / 64) / 4 == y,
        (y % 16 * 4 + z / 64) % 4 * 64 + z % 64 == z,
{
}

/// Decoding gives back what was encoded: the base64 text of any bytes is
/// valid, and the bytes it stands for are those bytes.
pub proof fn lemma_decoded_encoded(bytes: Seq<u8>)
    ensures
        decoded(encoded(bytes)) == Some(bytes),
        encoded(bytes).len() == encoded_len(bytes.len()),
    decreases bytes.len(),
{
    let text = encoded(bytes);
    if bytes.len() == 0 {
    } else {
        let x = bytes[0] as int;
        let y = if bytes.len() > 1 { bytes[1] as int } else { 0 };
        let z = if bytes.len() > 2 { bytes[2] as int } else { 0 };
        let a = x / 4;
        let b = x % 4 * 16 + y / 16;
        let c = y % 16 * 4 + z / 64;
        let d = z % 64;
        lemma_groups(x, y, z);
        lemma_symbol_sextet(a);
        lemma_symbol_sextet(b);
        lemma_symbol_sextet(c);
        lemma_symbol_sextet(d);
        assert(sextet('=') == None::<int>);
        assert(text.len() >= 4);
        assert(sextet(text[0]) == Some(a));
        assert(sextet(text[1]) == Some(b));
        if bytes.len() == 1 {
            assert(text[2] == '=' && text[3] == '=' && text.len() == 4);
            assert(seq![(a * 4 + b / 16) as u8] =~= bytes);
        } else if bytes.len() == 2 {
            assert(sextet(text[2]) == Some(c));
            assert(text[3] == '=' && text.len() == 4);
            assert(seq![(a * 4 + b / 16) as u8, (b % 16 * 16 + c / 4) as u8] =~= bytes);
        } else {
            assert(sextet(text[2]) == Some(c));
            assert(sextet(text[3]) == Some(d));
            lemma_decoded_encoded(bytes.skip(3));
            assert(text.skip(4) =~= encoded(bytes.skip(3)));
            assert(seq![
                (a * 4 + b / 16) as u8,
                (b % 16 * 16 + c / 4) as u8,
                (c % 4 * 64 + d) as u8,
            ] + bytes.skip(3) =~= bytes);
        }
    }
}

/// Whether the base64 text of `n` bytes can be held in memory.
pub fn encodable(n: usize) -> (fits: bool)
    ensures
        fits == (encoded_len(n as nat) <= usize::MAX),
{
    let groups: usize = n / 3 + (if n % 3 > 0 { 1usize } else { 0usize });
    assert(groups == (n + 2) / 3);
    groups <= usize::MAX / 4
}

/// `base64::encode`: the text of `bytes` in the standard alphabet, padded
/// with `=` to a multiple of four characters, without line breaks. The
/// crate panics where the text would be longer than `usize::MAX`.
#[verifier::external_body]
pub(crate) fn encode(bytes: &[u8]) -> (text: String)
    requires
        encoded_len(bytes@.len()) <= usize::MAX,
    ensures
        text@ == encoded(bytes@),
{
    base64::encode(bytes)
}

} // verus!
