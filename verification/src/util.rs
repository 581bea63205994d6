//! Small metadata utilities: stable identifiers, escaping of stored values,
//! and comma-separated lists.
use vstd::prelude::*;
use vstd::string::StringSliceAdditionalSpecFns;

use crate::text::{
    chars_of, hex_fixed, push_char, push_hex_fixed, same_text, split_on, split_seq, trim,
    trim_seq,
};

verus! {

// ---------------------------------------------------------------------------
// Stable identifiers
// ---------------------------------------------------------------------------

pub open spec fn fnv_offset() -> u64 {
    14695981039346656037u64
}

pub open spec fn fnv_prime() -> u64 {
    1099511628211u64
}

/// The 64-bit FNV-1a hash of `bytes`.
pub open spec fn fnv1a(bytes: Seq<u8>) -> u64
    decreases bytes.len(),
{
    if bytes.len() == 0 {
        fnv_offset()
    } else {
        vstd::wrapping::u64_specs::wrapping_mul(
            fnv1a(bytes.drop_last()) ^ (bytes.last() as u64),
            fnv_prime(),
        )
    }
}

/// The identifier that `stable_id` gives `text`: the FNV-1a hash of its UTF-8
/// bytes as 16 lower-case hexadecimal digits.
pub open spec fn stable_id_of(text: Seq<char>) -> Seq<char> {
    hex_fixed(fnv1a(vstd::utf8::encode_utf8(text)) as nat, 16)
}

/// A repeatable identifier for `input`: its FNV-1a hash in 16 hexadecimal
/// digits.
pub fn stable_id(input: &str) -> (res: String)
    ensures
        res@ == stable_id_of(input@),
{
    let bytes = input.as_bytes();
    let mut hash: u64 = 14695981039346656037;
    let mut i: usize = 0;
    while i < bytes.len()
        invariant
            bytes@ == input.spec_bytes(),
            i <= bytes@.len(),
            hash == fnv1a(bytes@.take(i as int)),
        decreases bytes.len() - i,
    {
        assert(bytes@.take(i + 1).drop_last() =~= bytes@.take(i as int));
        hash = hash ^ (bytes[i] as u64);
        hash = hash.wrapping_mul(1099511628211);
        i = i + 1;
    }
    assert(bytes@.take(bytes@.len() as int) =~= bytes@);
    let mut res = String::new();
    push_hex_fixed(&mut res, hash, 16);
    assert(res@ =~= stable_id_of(input@));
    res
}

// ---------------------------------------------------------------------------
// Escaping of stored values
// ---------------------------------------------------------------------------

/// How one character is written in a stored value.
pub open spec fn escape_char(c: char) -> Seq<char> {
    if c == '\\' {
        seq!['\\', '\\']
    } else if c == '\n' {
        seq!['\\', 'n']
    } else if c == '=' {
        seq!['\\', 'e']
    } else {
        seq![c]
    }
}

/// A value as it is written: backslash, newline and `=` become `\\`, `\n`
/// and `\e`.
pub open spec fn escape_seq(s: Seq<char>) -> Seq<char>
    decreases s.len(),
{
    if s.len() == 0 {
        Seq::<char>::empty()
    } else {
        escape_char(s[0]) + escape_seq(s.drop_first())
    }
}

/// A written value read back: `\n`, `\e` and `\\` become newline, `=` and a
/// backslash; any other backslash is kept as it stands.
pub open spec fn unescape_seq(s: Seq<char>) -> Seq<char>
    decreases s.len(),
{
    if s.len() == 0 {
        Seq::<char>::empty()
    } else if s[0] == '\\' && s.len() >= 2 {
        let rest = unescape_seq(s.skip(2));
        if s[1] == 'n' {
            seq!['\n'] + rest
        } else if s[1] == 'e' {
            seq!['='] + rest
        } else if s[1] == '\\' {
            seq!['\\'] + rest
        } else {
            seq!['\\', s[1]] + rest
        }
    } else {
        seq![s[0]] + unescape_seq(s.drop_first())
    }
}

/// `value` with backslash, newline and `=` escaped.
pub fn escape(value: &str) -> (res: String)
    ensures
        res@ == escape_seq(value@),
{
    let chars = chars_of(value);
    let mut out = String::new();
    let mut i: usize = 0;
    assert(value@.skip(0) =~= value@);
    while i < chars.len()
        invariant
            chars@ == value@,
            i <= chars@.len(),
            escape_seq(value@) == out@ + escape_seq(value@.skip(i as int)),
        decreases chars.len() - i,
    {
        let c = chars[i];
        assert(value@.skip(i as int).drop_first() =~= value@.skip(i + 1));
        assert(value@.skip(i as int)[0] == c);
        if c == '\\' {
            push_char(&mut out, '\\');
            push_char(&mut out, '\\');
        } else if c == '\n' {
            push_char(&mut out, '\\');
            push_char(&mut out, 'n');
        } else if c == '=' {
            push_char(&mut out, '\\');
            push_char(&mut out, 'e');
        } else {
            push_char(&mut out, c);
        }
        assert(escape_seq(value@.skip(i as int)) == escape_char(c) + escape_seq(
            value@.skip(i + 1),
        ));
        i = i + 1;
    }
    assert(escape_seq(value@.skip(i as int)) =~= Seq::<char>::empty());
    assert(out@ =~= escape_seq(value@));
    out
}

/// `value` with the escapes of `escape` undone.
pub fn unescape(value: &str) -> (res: String)
    ensures
        res@ == unescape_seq(value@),
{
    let chars = chars_of(value);
    let n = chars.len();
    let mut out = String::new();
    let mut i: usize = 0;
    assert(value@.skip(0) =~= value@);
    while i < n
        invariant
            chars@ == value@,
            n == chars@.len(),
            i <= n,
            unescape_seq(value@) == out@ + unescape_seq(value@.skip(i as int)),
        decreases n - i,
    {
        let ghost rest = value@.skip(i as int);
        let c = chars[i];
        assert(rest[0] == c);
        if c == '\\' && i + 1 < n {
            let d = chars[i + 1];
            assert(rest[1] == d);
            assert(rest.skip(2) =~= value@.skip(i + 2));
            if d == 'n' {
                push_char(&mut out, '\n');
            } else if d == 'e' {
                push_char(&mut out, '=');
            } else if d == '\\' {
                push_char(&mut out, '\\');
            } else {
                push_char(&mut out, '\\');
                push_char(&mut out, d);
            }
            i = i + 2;
        } else {
            assert(rest.drop_first() =~= value@.skip(i + 1));
            push_char(&mut out, c);
            i = i + 1;
        }
        assert(out@ + unescape_seq(value@.skip(i as int)) =~= unescape_seq(value@));
    }
    assert(unescape_seq(value@.skip(i as int)) =~= Seq::<char>::empty());
    assert(out@ =~= unescape_seq(value@));
    out
}

/// Reading back what was written gives the original value.
pub proof fn lemma_unescape_escape(s: Seq<char>)
    ensures
        unescape_seq(escape_seq(s)) == s,
    decreases s.len(),
{
    if s.len() > 0 {
        let c = s[0];
        let rest = s.drop_first();
        lemma_unescape_escape(rest);
        let e = escape_seq(rest);
        let w = escape_char(c) + e;
        assert(escape_seq(s) == w);
        if c == '\\' || c == '\n' || c == '=' {
            assert(w[0] == '\\');
            assert(w.skip(2) =~= e);
        } else {
            assert(w.drop_first() =~= e);
        }
        assert(s =~= seq![c] + rest);
    }
}

/// A written value holds no newline and no `=`.
pub proof fn lemma_escape_plain(s: Seq<char>)
    ensures
        !escape_seq(s).contains('\n'),
        !escape_seq(s).contains('='),
    decreases s.len(),
{
    if s.len() > 0 {
        lemma_escape_plain(s.drop_first());
        let e = escape_seq(s.drop_first());
        let w = escape_char(s[0]) + e;
        assert(escape_seq(s) == w);
        assert forall|k: int| 0 <= k < w.len() implies w[k] != '\n' && w[k] != '=' by {
            if k >= escape_char(s[0]).len() {
                assert(w[k] == e[k - escape_char(s[0]).len()]);
            }
        }
    }
}

// ---------------------------------------------------------------------------
// Small helpers
// ---------------------------------------------------------------------------

/// `-` for an empty value, the value itself otherwise.
pub fn empty_dash(value: &str) -> (res: &str)
    ensures
        res@ == (if value@.len() == 0 {
            "-"@
        } else {
            value@
        }),
{
    if value.is_empty() {
        "-"
    } else {
        value
    }
}

// ---------------------------------------------------------------------------
// Comma-separated lists
// ---------------------------------------------------------------------------

/// The trimmed, non-empty pieces among `pieces`, in order.
pub open spec fn csv_parts(pieces: Seq<Seq<char>>) -> Seq<Seq<char>>
    decreases pieces.len(),
{
    if pieces.len() == 0 {
        Seq::<Seq<char>>::empty()
    } else {
        let prev = csv_parts(pieces.drop_last());
        let t = trim_seq(pieces.last());
        if t.len() == 0 {
            prev
        } else {
            prev.push(t)
        }
    }
}

/// The entries of a comma-separated list: the pieces between commas,
/// trimmed, without the empty ones.
pub open spec fn csv_entries(value: Seq<char>) -> Seq<Seq<char>> {
    csv_parts(split_seq(value, ','))
}

/// The entries of the comma-separated list `value`.
pub fn split_csv(value: &str) -> (res: Vec<String>)
    ensures
        res.deep_view() == csv_entries(value@),
{
    let pieces = split_on(value, ',');
    let mut res: Vec<String> = Vec::new();
    let mut i: usize = 0;
    while i < pieces.len()
        invariant
            pieces.deep_view() == split_seq(value@, ','),
            i <= pieces@.len(),
            res.deep_view() == csv_parts(pieces.deep_view().take(i as int)),
        decreases pieces.len() - i,
    {
        assert(pieces.deep_view().take(i + 1).drop_last() =~= pieces.deep_view().take(i as int));
        assert(pieces.deep_view().take(i + 1).last() == pieces@[i as int]@);
        let t = trim(pieces[i].as_str());
        let ghost prev = res.deep_view();
        if !t.as_str().is_empty() {
            res.push(t);
            assert(res.deep_view() =~= prev.push(trim_seq(pieces@[i as int]@)));
        }
        i = i + 1;
    }
    assert(pieces.deep_view().take(pieces@.len() as int) =~= pieces.deep_view());
    res
}

/// Whether `item` is an entry of the comma-separated list `value`.
pub fn contains_csv(value: &str, item: &str) -> (res: bool)
    ensures
        res == csv_entries(value@).contains(item@),
{
    let parts = split_csv(value);
    let mut i: usize = 0;
    while i < parts.len()
        invariant
            parts.deep_view() == csv_entries(value@),
            i <= parts@.len(),
            forall|k: int| 0 <= k < i ==> parts.deep_view()[k] != item@,
        decreases parts.len() - i,
    {
        if same_text(parts[i].as_str(), item) {
            assert(parts.deep_view()[i as int] == item@);
            return true;
        }
        i = i + 1;
    }
    assert(!parts.deep_view().contains(item@));
    false
}

/// Every entry of a comma-separated list is non-empty, holds no comma, and
/// has no white space at either end.
pub proof fn lemma_csv_entries_clean(value: Seq<char>)
    ensures
        forall|i: int|
            0 <= i < csv_entries(value).len() ==> {
                let e = #[trigger] csv_entries(value)[i];
                &&& e.len() > 0
                &&& !e.contains(',')
                &&& e == trim_seq(e)
            },
{
    crate::text::lemma_split_join(value, ',');
    lemma_csv_parts_clean(split_seq(value, ','));
}

proof fn lemma_csv_parts_clean(pieces: Seq<Seq<char>>)
    requires
        forall|i: int| 0 <= i < pieces.len() ==> !(#[trigger] pieces[i]).contains(','),
    ensures
        forall|i: int|
            0 <= i < csv_parts(pieces).len() ==> {
                let e = #[trigger] csv_parts(pieces)[i];
                &&& e.len() > 0
                &&& !e.contains(',')
                &&& e == trim_seq(e)
            },
    decreases pieces.len(),
{
    if pieces.len() > 0 {
        let q = pieces.drop_last();
        assert forall|i: int| 0 <= i < q.len() implies !(#[trigger] q[i]).contains(',') by {
            assert(q[i] == pieces[i]);
        }
        lemma_csv_parts_clean(q);
        let t = trim_seq(pieces.last());
        lemma_trim_sub(pieces.last());
        lemma_trim_idempotent(pieces.last());
        assert(!pieces.last().contains(','));
        if t.contains(',') {
            let k = choose|k: int| 0 <= k < t.len() && t[k] == ',';
            let (a, b) = choose|a: int, b: int|
                0 <= a <= b <= pieces.last().len() && t == pieces.last().subrange(a, b);
            assert(pieces.last()[a + k] == ',');
        }
        let prev = csv_parts(q);
        if t.len() > 0 {
            let r = prev.push(t);
            assert(csv_parts(pieces) == r);
            assert forall|i: int| 0 <= i < r.len() implies {
                let e = #[trigger] r[i];
                &&& e.len() > 0
                &&& !e.contains(',')
                &&& e == trim_seq(e)
            } by {
                if i < prev.len() {
                    assert(r[i] == prev[i]);
                }
            }
        }
    }
}

/// Trimming keeps a contiguous part of the input.
pub proof fn lemma_trim_sub(s: Seq<char>)
    ensures
        exists|a: int, b: int| 0 <= a <= b <= s.len() && trim_seq(s) == s.subrange(a, b),
{
    lemma_trim_start_sub(s);
    let a = choose|a: int| 0 <= a <= s.len() && crate::text::trim_start_seq(s) == s.subrange(a, s.len() as int);
    let t = crate::text::trim_start_seq(s);
    lemma_trim_end_sub(t);
    let b = choose|b: int| 0 <= b <= t.len() && crate::text::trim_end_seq(t) == t.subrange(0, b);
    assert(s.subrange(a, s.len() as int).subrange(0, b) =~= s.subrange(a, a + b));
}

proof fn lemma_trim_start_sub(s: Seq<char>)
    ensures
        exists|a: int| 0 <= a <= s.len() && crate::text::trim_start_seq(s) == s.subrange(a, s.len() as int),
    decreases s.len(),
{
    if s.len() > 0 && crate::text::is_ws(s[0]) {
        lemma_trim_start_sub(s.drop_first());
        let a = choose|a: int|
            0 <= a <= s.drop_first().len() && crate::text::trim_start_seq(s.drop_first())
                == s.drop_first().subrange(a, s.drop_first().len() as int);
        assert(s.drop_first().subrange(a, s.drop_first().len() as int) =~= s.subrange(a + 1, s.len() as int));
    } else {
        assert(s.subrange(0, s.len() as int) =~= s);
    }
}

proof fn lemma_trim_end_sub(s: Seq<char>)
    ensures
        exists|b: int| 0 <= b <= s.len() && crate::text::trim_end_seq(s) == s.subrange(0, b),
    decreases s.len(),
{
    if s.len() > 0 && crate::text::is_ws(s.last()) {
        lemma_trim_end_sub(s.drop_last());
        let b = choose|b: int|
            0 <= b <= s.drop_last().len() && crate::text::trim_end_seq(s.drop_last())
                == s.drop_last().subrange(0, b);
        assert(s.drop_last().subrange(0, b) =~= s.subrange(0, b));
    } else {
        assert(s.subrange(0, s.len() as int) =~= s);
    }
}

/// Trimming twice is trimming once.
pub proof fn lemma_trim_idempotent(s: Seq<char>)
    ensures
        trim_seq(trim_seq(s)) == trim_seq(s),
{
    let t = crate::text::trim_start_seq(s);
    lemma_trim_start_clean(s);
    lemma_trim_end_clean(t);
    let u = crate::text::trim_end_seq(t);
    // u neither starts nor ends with white space
    if u.len() > 0 {
        lemma_trim_end_prefix_first(t);
    }
}

proof fn lemma_trim_start_clean(s: Seq<char>)
    ensures
        crate::text::trim_start_seq(s).len() > 0 ==> !crate::text::is_ws(
            crate::text::trim_start_seq(s)[0],
        ),
    decreases s.len(),
{
    if s.len() > 0 && crate::text::is_ws(s[0]) {
        lemma_trim_start_clean(s.drop_first());
    }
}

proof fn lemma_trim_end_clean(s: Seq<char>)
    ensures
        crate::text::trim_end_seq(s).len() > 0 ==> !crate::text::is_ws(
            crate::text::trim_end_seq(s).last(),
        ),
        crate::text::trim_end_seq(crate::text::trim_end_seq(s)) == crate::text::trim_end_seq(s),
    decreases s.len(),
{
    if s.len() > 0 && crate::text::is_ws(s.last()) {
        lemma_trim_end_clean(s.drop_last());
    }
}

proof fn lemma_trim_end_prefix_first(s: Seq<char>)
    requires
        crate::text::trim_end_seq(s).len() > 0,
    ensures
        crate::text::trim_end_seq(s)[0] == s[0],
    decreases s.len(),
{
    if s.len() > 0 && crate::text::is_ws(s.last()) {
        lemma_trim_end_prefix_first(s.drop_last());
    }
}

} // verus!
