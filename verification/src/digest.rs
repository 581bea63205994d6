//! SHA-256 digests, through the `sha2` crate, and their hexadecimal notation.
use vstd::prelude::*;
use sha2::Digest;

use crate::text::{hex_char, hex_fixed, lemma_hex_fixed_len, push_hex_fixed};

verus! {

/// The SHA-256 digest of `data`, as `sha2::Sha256` computes it.
pub uninterp spec fn sha256_of(data: Seq<u8>) -> Seq<u8>;

/// Calls `sha2::Sha256::digest`. The contract claims that the result is the
/// digest named `sha256_of` of the input bytes, and that it is 32 bytes long
/// (the output size of SHA-256, `U32` in the crate's source).
#[verifier::external_body]
pub(crate) fn sha256(data: &[u8]) -> (res: Vec<u8>)
    ensures
        res@ == sha256_of(data@),
        res@.len() == 32,
{
    sha2::Sha256::digest(data).to_vec()
}

/// Two lower-case hexadecimal digits per byte, as `{:02x}` prints each.
pub open spec fn hex_bytes(bytes: Seq<u8>) -> Seq<char>
    decreases bytes.len(),
{
    if bytes.len() == 0 {
        Seq::<char>::empty()
    } else {
        hex_bytes(bytes.drop_last()) + hex_fixed(bytes.last() as nat, 2)
    }
}

pub proof fn lemma_hex_bytes_len(bytes: Seq<u8>)
    ensures
        hex_bytes(bytes).len() == 2 * bytes.len(),
    decreases bytes.len(),
{
    if bytes.len() > 0 {
        lemma_hex_bytes_len(bytes.drop_last());
        lemma_hex_fixed_len(bytes.last() as nat, 2);
    }
}

/// The hexadecimal notation of `bytes`.
pub fn hex_encode(bytes: &[u8]) -> (res: String)
    ensures
        res@ == hex_bytes(bytes@),
{
    let mut out = String::new();
    let mut i: usize = 0;
    while i < bytes.len()
        invariant
            i <= bytes@.len(),
            out@ == hex_bytes(bytes@.take(i as int)),
        decreases bytes.len() - i,
    {
        assert(bytes@.take(i + 1).drop_last() =~= bytes@.take(i as int));
        push_hex_fixed(&mut out, bytes[i] as u64, 2);
        i = i + 1;
    }
    assert(bytes@.take(bytes@.len() as int) =~= bytes@);
    out
}

/// The hexadecimal notation of the SHA-256 digest of `text`'s UTF-8 bytes.
pub open spec fn sha256_hex(text: Seq<char>) -> Seq<char> {
    hex_bytes(sha256_of(vstd::utf8::encode_utf8(text)))
}

/// The hexadecimal notation of the SHA-256 digest of `text`: 64 characters.
pub fn sha256_hex_of(text: &str) -> (res: String)
    ensures
        res@ == sha256_hex(text@),
        res@.len() == 64,
{
    let digest = sha256(text.as_bytes());
    let res = hex_encode(digest.as_slice());
    proof {
        lemma_hex_bytes_len(digest@);
    }
    res
}

/// The first 16 hexadecimal digits of the SHA-256 digest of `text`.
pub fn sha256_hex16(text: &str) -> (res: String)
    ensures
        res@ == sha256_hex(text@).take(16),
        res@.len() == 16,
{
    let full = sha256_hex_of(text);
    let chars = crate::text::chars_of(full.as_str());
    crate::text::string_from_chars(&chars, 0, 16)
}

/// The value of a hexadecimal digit, either case.
pub open spec fn hex_value(c: char) -> Option<u8> {
    let v = c as u32;
    if 48 <= v <= 57 {
        Some((v - 48) as u8)
    } else if 97 <= v <= 102 {
        Some((v - 87) as u8)
    } else if 65 <= v <= 70 {
        Some((v - 55) as u8)
    } else {
        None
    }
}

/// The bytes that hexadecimal text `s` notes, two digits per byte; none when
/// `s` has an odd length or a character that is no hexadecimal digit.
pub open spec fn hex_decode(s: Seq<char>) -> Option<Seq<u8>>
    decreases s.len(),
{
    if s.len() % 2 != 0 {
        None
    } else if s.len() == 0 {
        Some(Seq::<u8>::empty())
    } else {
        match (hex_decode(s.subrange(0, s.len() - 2)), hex_value(s[s.len() - 2]), hex_value(s[s.len() - 1])) {
            (Some(b), Some(h), Some(l)) => Some(b.push((h * 16 + l) as u8)),
            _ => None,
        }
    }
}

fn hex_digit_value(c: char) -> (res: Option<u8>)
    ensures
        res == hex_value(c),
{
    let v = c as u32;
    if 48 <= v && v <= 57 {
        Some((v - 48) as u8)
    } else if 97 <= v && v <= 102 {
        Some((v - 87) as u8)
    } else if 65 <= v && v <= 70 {
        Some((v - 55) as u8)
    } else {
        None
    }
}

/// When an even prefix of `s` does not decode, neither does `s`.
proof fn lemma_hex_decode_prefix_none(s: Seq<char>, k: int)
    requires
        s.len() % 2 == 0,
        0 <= k <= s.len(),
        k % 2 == 0,
        hex_decode(s.subrange(0, k)) is None,
    ensures
        hex_decode(s) is None,
    decreases s.len() - k,
{
    if k < s.len() {
        let t = s.subrange(0, k + 2);
        assert(t.subrange(0, k) =~= s.subrange(0, k));
        assert(hex_decode(t) is None);
        lemma_hex_decode_prefix_none(s, k + 2);
    } else {
        assert(s.subrange(0, k) =~= s);
    }
}

/// The bytes that hexadecimal `text` notes, if it is hexadecimal.
pub fn hex_decode_text(text: &str) -> (res: Option<Vec<u8>>)
    ensures
        hex_decode(text@) == match res {
            Some(v) => Some(v@),
            None => None::<Seq<u8>>,
        },
{
    let chars = crate::text::chars_of(text);
    let n = chars.len();
    if n % 2 != 0 {
        return None;
    }
    let mut out: Vec<u8> = Vec::new();
    let mut i: usize = 0;
    assert(chars@.subrange(0, 0) =~= Seq::<char>::empty());
    while i < n
        invariant
            n == chars@.len(),
            chars@ == text@,
            n % 2 == 0,
            i % 2 == 0,
            i <= n,
            hex_decode(chars@.subrange(0, i as int)) == Some(out@),
        decreases n - i,
    {
        let t = Ghost(chars@.subrange(0, i + 2));
        assert(t@.subrange(0, i as int) =~= chars@.subrange(0, i as int));
        assert(t@[i as int] == chars@[i as int]);
        assert(t@[i + 1] == chars@[i + 1]);
        let h = hex_digit_value(chars[i]);
        let l = hex_digit_value(chars[i + 1]);
        match (h, l) {
            (Some(hv), Some(lv)) => {
                out.push(hv * 16 + lv);
            },
            _ => {
                proof {
                    lemma_hex_decode_prefix_none(chars@, i + 2);
                }
                return None;
            },
        }
        i = i + 2;
    }
    assert(chars@.subrange(0, n as int) =~= chars@);
    Some(out)
}

proof fn lemma_hex_value_of_char(d: int)
    requires
        0 <= d < 16,
    ensures
        hex_value(hex_char(d)) == Some(d as u8),
{
    if d < 10 {
        assert(hex_char(d) as u32 == 48 + d) by {
            if d == 0 {} else if d == 1 {} else if d == 2 {} else if d == 3 {} else if d == 4 {}
            else if d == 5 {} else if d == 6 {} else if d == 7 {} else if d == 8 {} else {}
        }
    } else {
        assert(hex_char(d) as u32 == 87 + d) by {
            if d == 10 {} else if d == 11 {} else if d == 12 {} else if d == 13 {} else if d == 14 {} else {}
        }
    }
}

/// Decoding the hexadecimal notation of bytes gives the bytes back.
pub proof fn lemma_hex_decode_encode(b: Seq<u8>)
    ensures
        hex_decode(hex_bytes(b)) == Some(b),
    decreases b.len(),
{
    lemma_hex_bytes_len(b);
    if b.len() > 0 {
        let q = b.drop_last();
        let n = b.last();
        let h = hex_bytes(b);
        lemma_hex_decode_encode(q);
        lemma_hex_bytes_len(q);
        lemma_hex_fixed_len(n as nat, 2);
        let pair = hex_fixed(n as nat, 2);
        assert(pair == seq![hex_char(((n as nat) / 16) as int), hex_char(((n as nat) % 16) as int)]) by {
            assert(hex_fixed((n as nat) / 16, 1) == hex_fixed((n as nat) / 16 / 16, 0).push(
                hex_char((((n as nat) / 16) % 16) as int),
            ));
            assert(((n as nat) / 16) % 16 == (n as nat) / 16);
        }
        assert(h == hex_bytes(q) + pair);
        assert(h.subrange(0, h.len() - 2) =~= hex_bytes(q));
        assert(h[h.len() - 2] == pair[0]);
        assert(h[h.len() - 1] == pair[1]);
        lemma_hex_value_of_char(((n as nat) / 16) as int);
        lemma_hex_value_of_char(((n as nat) % 16) as int);
        assert(((((n as nat) / 16) as u8) * 16 + (((n as nat) % 16) as u8)) as u8 == n);
        assert(q.push(n) =~= b);
    }
}

} // verus!
