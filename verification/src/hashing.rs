//! SHA-256 commitments and their lowercase hexadecimal rendering.

use vstd::prelude::*;
use sha2::Digest;

verus! {

/// What SHA-256 returns for a byte string.
pub uninterp spec fn sha256_spec(data: Seq<u8>) -> Seq<u8>;

/// Calls `sha2::Sha256::digest` on `data`.
///
/// Trusted: the 32 bytes returned are the SHA-256 digest of `data`, named by
/// `sha256_spec`.
#[verifier::external_body]
pub(crate) fn sha256(data: &[u8]) -> (out: [u8; 32])
    ensures
        out@ == sha256_spec(data@),
{
    sha2::Sha256::digest(data).into()
}

/// The lowercase hexadecimal digit for a nibble.
pub open spec fn hex_digit(n: u8) -> char {
    match n {
        0 => '0',
        1 => '1',
        2 => '2',
        3 => '3',
        4 => '4',
        5 => '5',
        6 => '6',
        7 => '7',
        8 => '8',
        9 => '9',
        10 => 'a',
        11 => 'b',
        12 => 'c',
        13 => 'd',
        14 => 'e',
        _ => 'f',
    }
}

/// Two lowercase hexadecimal digits per byte, high nibble first.
pub open spec fn hex_chars(bytes: Seq<u8>) -> Seq<char>
    decreases bytes.len(),
{
    if bytes.len() == 0 {
        Seq::empty()
    } else {
        hex_chars(bytes.drop_last()) + seq![
            hex_digit(bytes.last() / 16),
            hex_digit(bytes.last() % 16),
        ]
    }
}

fn nibble_digit(n: u8) -> (c: char)
    ensures
        c == hex_digit(n),
{
    match n {
        0 => '0',
        1 => '1',
        2 => '2',
        3 => '3',
        4 => '4',
        5 => '5',
        6 => '6',
        7 => '7',
        8 => '8',
        9 => '9',
        10 => 'a',
        11 => 'b',
        12 => 'c',
        13 => 'd',
        14 => 'e',
        _ => 'f',
    }
}

/// Lowercase hexadecimal rendering of `bytes`.
pub fn hex_string(bytes: &[u8]) -> (s: String)
    ensures
        s@ == hex_chars(bytes@),
{
    let mut s = String::new();
    let mut i: usize = 0;
    while i < bytes.len()
        invariant
            i <= bytes@.len(),
            s@ == hex_chars(bytes@.subrange(0, i as int)),
        decreases bytes@.len() - i,
    {
        let b = bytes[i];
        crate::text::push_char(&mut s, nibble_digit(b / 16));
        crate::text::push_char(&mut s, nibble_digit(b % 16));
        proof {
            let p = bytes@.subrange(0, i as int + 1);
            assert(p.drop_last() =~= bytes@.subrange(0, i as int));
            assert(s@ =~= hex_chars(p));
        }
        i = i + 1;
    }
    assert(bytes@.subrange(0, bytes@.len() as int) =~= bytes@);
    s
}

/// The hexadecimal text of bytes has two lower-case hex digits per byte, the
/// high then the low nibble of byte `i` at positions `2i` and `2i + 1`.
pub proof fn law_hex_chars_per_byte(bytes: Seq<u8>)
    ensures
        hex_chars(bytes).len() == 2 * bytes.len(),
        forall|i: int|
            0 <= i < bytes.len() ==> hex_chars(bytes)[2 * i] == hex_digit(#[trigger] bytes[i] / 16)
                && hex_chars(bytes)[2 * i + 1] == hex_digit(bytes[i] % 16),
        forall|k: int|
            0 <= k < hex_chars(bytes).len() ==> ('0' <= #[trigger] hex_chars(bytes)[k] <= '9') || ('a'
                <= hex_chars(bytes)[k] <= 'f'),
    decreases bytes.len(),
{
    if bytes.len() > 0 {
        let p = bytes.drop_last();
        law_hex_chars_per_byte(p);
        let h = hex_chars(bytes);
        let last = bytes.last();
        assert(h == hex_chars(p) + seq![hex_digit(last / 16), hex_digit(last % 16)]);
        assert forall|i: int| 0 <= i < bytes.len() implies h[2 * i] == hex_digit(#[trigger] bytes[i] / 16) && h[2 * i + 1]
            == hex_digit(bytes[i] % 16) by {
            if i < p.len() {
                assert(p[i] == bytes[i]);
            }
        }
        assert forall|k: int| 0 <= k < h.len() implies ('0' <= #[trigger] h[k] <= '9') || ('a' <= h[k] <= 'f') by {
            if k >= hex_chars(p).len() {
                let n: u8 = if k == hex_chars(p).len() { last / 16 } else { last % 16 };
                assert(n < 16);
                assert(h[k] == hex_digit(n));
            }
        }
    }
}

} // verus!
