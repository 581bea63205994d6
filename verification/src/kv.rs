//! The key-value text in which every record is stored: one `key=value` line
//! per field, the value escaped so that it holds neither a newline nor `=`.
use vstd::prelude::*;

use crate::error::AppError;
use crate::text::{
    chars_of, copy_str, lemma_split_len, push_char, same_text, split_on, split_seq,
    string_from_chars,
};
use crate::util::{escape, escape_seq, lemma_escape_plain, lemma_unescape_escape, unescape, unescape_seq};

verus! {

/// The fields of a record, in order: names and values.
pub type KvFields = Vec<(String, String)>;

/// One written line, without its newline.
pub open spec fn kv_line(key: Seq<char>, value: Seq<char>) -> Seq<char> {
    key + seq!['='] + escape_seq(value)
}

/// The text that stores `fields`: each field on a line of its own, every line
/// ended by a newline.
pub open spec fn render_seq(fields: Seq<(Seq<char>, Seq<char>)>) -> Seq<char>
    decreases fields.len(),
{
    if fields.len() == 0 {
        Seq::<char>::empty()
    } else {
        render_seq(fields.drop_last()) + kv_line(fields.last().0, fields.last().1) + seq!['\n']
    }
}

/// The index of the first `c` in `s`, or `s.len()` when there is none.
pub open spec fn first_index(s: Seq<char>, c: char) -> int
    decreases s.len(),
{
    if s.len() == 0 {
        0
    } else if s[0] == c {
        0
    } else {
        1 + first_index(s.drop_first(), c)
    }
}

/// The fields that the lines give: a line with a `=` gives the field named
/// by what stands before its first `=`, with the rest unescaped as value;
/// other lines give nothing.
pub open spec fn parse_lines(lines: Seq<Seq<char>>) -> Seq<(Seq<char>, Seq<char>)>
    decreases lines.len(),
{
    if lines.len() == 0 {
        Seq::<(Seq<char>, Seq<char>)>::empty()
    } else {
        let prev = parse_lines(lines.drop_last());
        let line = lines.last();
        let k = first_index(line, '=');
        if k < line.len() {
            prev.push((line.subrange(0, k), unescape_seq(line.subrange(k + 1, line.len() as int))))
        } else {
            prev
        }
    }
}

/// The fields that a stored text gives.
pub open spec fn parse_seq(text: Seq<char>) -> Seq<(Seq<char>, Seq<char>)> {
    parse_lines(split_seq(text, '\n'))
}

/// A field name that can be stored: not empty, without `=` and newline.
pub open spec fn storable_key(key: Seq<char>) -> bool {
    key.len() > 0 && !key.contains('=') && !key.contains('\n')
}

/// The value of the last field named `key`, if any.
pub open spec fn kv_lookup(fields: Seq<(Seq<char>, Seq<char>)>, key: Seq<char>) -> Option<
    Seq<char>,
>
    decreases fields.len(),
{
    if fields.len() == 0 {
        None
    } else if fields.last().0 == key {
        Some(fields.last().1)
    } else {
        kv_lookup(fields.drop_last(), key)
    }
}

/// A stored value, or the empty string when the field is missing.
pub open spec fn stored_or_empty(fields: Seq<(Seq<char>, Seq<char>)>, key: Seq<char>) -> Seq<
    char,
> {
    match kv_lookup(fields, key) {
        Some(v) => v,
        None => Seq::<char>::empty(),
    }
}

/// The first of `keys` that no field is named by.
pub open spec fn first_missing(fields: Seq<(Seq<char>, Seq<char>)>, keys: Seq<Seq<char>>) -> Option<
    Seq<char>,
>
    decreases keys.len(),
{
    if keys.len() == 0 {
        None
    } else if kv_lookup(fields, keys[0]) is None {
        Some(keys[0])
    } else {
        first_missing(fields, keys.drop_first())
    }
}

/// A file and the fields to store in it.
#[derive(Debug)]
pub struct KvRecord {
    pub path: String,
    pub fields: KvFields,
}

/// The message of the error for a missing field.
pub open spec fn missing_field_message(key: Seq<char>) -> Seq<char> {
    "missing field '"@ + key + "'"@
}

/// The text that stores `fields`.
pub fn render_kv(fields: &KvFields) -> (res: String)
    ensures
        res@ == render_seq(fields.deep_view()),
{
    let mut out = String::new();
    let mut i: usize = 0;
    while i < fields.len()
        invariant
            i <= fields@.len(),
            out@ == render_seq(fields.deep_view().take(i as int)),
        decreases fields.len() - i,
    {
        assert(fields.deep_view().take(i + 1).drop_last() =~= fields.deep_view().take(i as int));
        let key = &fields[i].0;
        let value = &fields[i].1;
        out.append(key.as_str());
        push_char(&mut out, '=');
        let escaped = escape(value.as_str());
        out.append(escaped.as_str());
        push_char(&mut out, '\n');
        assert(out@ =~= render_seq(fields.deep_view().take(i as int)) + kv_line(key@, value@)
            + seq!['\n']);
        i = i + 1;
    }
    assert(fields.deep_view().take(fields@.len() as int) =~= fields.deep_view());
    out
}

fn first_eq_index(line: &Vec<char>) -> (res: usize)
    ensures
        res as int == first_index(line@, '='),
        res <= line@.len(),
{
    let mut i: usize = 0;
    assert(line@.skip(0) =~= line@);
    while i < line.len()
        invariant
            i <= line@.len(),
            first_index(line@, '=') == i + first_index(line@.skip(i as int), '='),
        decreases line.len() - i,
    {
        if line[i] == '=' {
            return i;
        }
        assert(line@.skip(i as int).drop_first() =~= line@.skip(i + 1));
        i = i + 1;
    }
    i
}

proof fn lemma_first_index_bound(s: Seq<char>, c: char)
    ensures
        0 <= first_index(s, c) <= s.len(),
        first_index(s, c) < s.len() ==> s[first_index(s, c)] == c,
        forall|j: int| 0 <= j < first_index(s, c) ==> s[j] != c,
    decreases s.len(),
{
    if s.len() > 0 && s[0] != c {
        lemma_first_index_bound(s.drop_first(), c);
        assert forall|j: int| 0 <= j < first_index(s, c) implies s[j] != c by {
            if j > 0 {
                assert(s[j] == s.drop_first()[j - 1]);
            }
        }
    }
}

/// The fields that the stored text `text` gives.
pub fn parse_kv(text: &str) -> (res: KvFields)
    ensures
        res.deep_view() == parse_seq(text@),
{
    let lines = split_on(text, '\n');
    let mut res: KvFields = Vec::new();
    let mut i: usize = 0;
    while i < lines.len()
        invariant
            lines.deep_view() == split_seq(text@, '\n'),
            i <= lines@.len(),
            res.deep_view() == parse_lines(lines.deep_view().take(i as int)),
        decreases lines.len() - i,
    {
        assert(lines.deep_view().take(i + 1).drop_last() =~= lines.deep_view().take(i as int));
        assert(lines.deep_view().take(i + 1).last() == lines@[i as int]@);
        let chars = chars_of(lines[i].as_str());
        let k = first_eq_index(&chars);
        if k < chars.len() {
            let key = string_from_chars(&chars, 0, k);
            let raw = string_from_chars(&chars, k + 1, chars.len());
            let value = unescape(raw.as_str());
            let ghost prev = res.deep_view();
            res.push((key, value));
            assert(res.deep_view() =~= prev.push((key@, value@)));
        }
        i = i + 1;
    }
    assert(lines.deep_view().take(lines@.len() as int) =~= lines.deep_view());
    res
}

/// The value of the last field named `key`, or `None`.
pub fn lookup(fields: &KvFields, key: &str) -> (res: Option<String>)
    ensures
        match res {
            Some(v) => kv_lookup(fields.deep_view(), key@) == Some(v@),
            None => kv_lookup(fields.deep_view(), key@) is None,
        },
{
    let mut i = fields.len();
    assert(fields.deep_view().take(fields@.len() as int) =~= fields.deep_view());
    while i > 0
        invariant
            i <= fields@.len(),
            kv_lookup(fields.deep_view(), key@) == kv_lookup(
                fields.deep_view().take(i as int),
                key@,
            ),
        decreases i,
    {
        let ghost t = fields.deep_view().take(i as int);
        assert(t.drop_last() =~= fields.deep_view().take(i - 1));
        assert(t.last() == fields.deep_view()[i - 1]);
        if same_text(fields[i - 1].0.as_str(), key) {
            return Some(copy_str(fields[i - 1].1.as_str()));
        }
        i = i - 1;
    }
    None
}

/// The value of the field named `key`; an error when there is none.
pub fn field(fields: &KvFields, key: &str) -> (res: Result<String, AppError>)
    ensures
        match res {
            Ok(v) => kv_lookup(fields.deep_view(), key@) == Some(v@),
            Err(e) => kv_lookup(fields.deep_view(), key@) is None && e@ == missing_field_message(
                key@,
            ),
        },
{
    match lookup(fields, key) {
        Some(v) => Ok(v),
        None => {
            let mut msg = String::new();
            msg.append("missing field '");
            msg.append(key);
            msg.append("'");
            Err(AppError::from_string(msg))
        },
    }
}

/// The value of the field named `key`, or the empty string when there is none.
pub fn optional_field(fields: &KvFields, key: &str) -> (res: String)
    ensures
        res@ == stored_or_empty(fields.deep_view(), key@),
{
    match lookup(fields, key) {
        Some(v) => v,
        None => String::new(),
    }
}

/// Fields named and valued by two strings each.
pub fn kv_pair(key: &str, value: &str) -> (res: (String, String))
    ensures
        res.0@ == key@,
        res.1@ == value@,
{
    (copy_str(key), copy_str(value))
}

// ---------------------------------------------------------------------------
// Reading back what was written
// ---------------------------------------------------------------------------

proof fn lemma_split_no_sep(s: Seq<char>, sep: char)
    requires
        !s.contains(sep),
    ensures
        split_seq(s, sep) == seq![s],
    decreases s.len(),
{
    if s.len() > 0 {
        let q = s.drop_last();
        assert(!q.contains(sep)) by {
            if q.contains(sep) {
                let k = choose|k: int| 0 <= k < q.len() && q[k] == sep;
                assert(s[k] == sep);
            }
        }
        lemma_split_no_sep(q, sep);
        assert(s.last() != sep) by {
            assert(s[s.len() - 1] == s.last());
        }
        assert(q.push(s.last()) =~= s);
        assert(seq![q].update(0, q.push(s.last())) =~= seq![s]);
    } else {
        assert(s =~= Seq::<char>::empty());
    }
}

proof fn lemma_split_concat(x: Seq<char>, y: Seq<char>, sep: char)
    ensures
        split_seq(x + seq![sep] + y, sep) == split_seq(x, sep) + split_seq(y, sep),
    decreases y.len(),
{
    lemma_split_len(x, sep);
    if y.len() == 0 {
        assert(x + seq![sep] + y =~= x.push(sep));
        assert((x + seq![sep] + y).drop_last() =~= x);
        assert(split_seq(x, sep).push(Seq::<char>::empty()) =~= split_seq(x, sep) + seq![
            Seq::<char>::empty(),
        ]);
    } else {
        let y1 = y.drop_last();
        let c = y.last();
        lemma_split_concat(x, y1, sep);
        lemma_split_len(y1, sep);
        let w = x + seq![sep] + y;
        assert(w.drop_last() =~= x + seq![sep] + y1);
        assert(w.last() == c);
        let a = split_seq(x, sep);
        let b = split_seq(y1, sep);
        if c == sep {
            assert((a + b).push(Seq::<char>::empty()) =~= a + b.push(Seq::<char>::empty()));
        } else {
            assert((a + b).update((a + b).len() - 1, (a + b).last().push(c)) =~= a + b.update(
                b.len() - 1,
                b.last().push(c),
            ));
        }
    }
}

proof fn lemma_render_lines(fields: Seq<(Seq<char>, Seq<char>)>)
    requires
        forall|i: int| 0 <= i < fields.len() ==> storable_key(#[trigger] fields[i].0),
    ensures
        split_seq(render_seq(fields), '\n') == Seq::new(
            fields.len(),
            |i: int| kv_line(fields[i].0, fields[i].1),
        ) + seq![Seq::<char>::empty()],
    decreases fields.len(),
{
    if fields.len() == 0 {
        assert(split_seq(Seq::<char>::empty(), '\n') =~= seq![Seq::<char>::empty()]);
        assert(Seq::new(0, |i: int| kv_line(fields[i].0, fields[i].1)) + seq![
            Seq::<char>::empty(),
        ] =~= seq![Seq::<char>::empty()]);
    } else {
        let q = fields.drop_last();
        assert forall|i: int| 0 <= i < q.len() implies storable_key(#[trigger] q[i].0) by {
            assert(q[i] == fields[i]);
        }
        lemma_render_lines(q);
        let last = fields.last();
        assert(storable_key(fields[fields.len() - 1].0));
        let line = kv_line(last.0, last.1);
        lemma_escape_plain(last.1);
        assert(!line.contains('\n')) by {
            if line.contains('\n') {
                let k = choose|k: int| 0 <= k < line.len() && line[k] == '\n';
                if k < last.0.len() {
                    assert(last.0[k] == '\n');
                } else if k > last.0.len() {
                    assert(escape_seq(last.1)[k - last.0.len() - 1] == '\n');
                }
            }
        }
        lemma_split_no_sep(line, '\n');
        let r = render_seq(q);
        // render(fields) = r + line + "\n" = (r + line) + "\n" + ""
        // split(r) = lines(q) + [""], so the line joins the empty last piece
        lemma_render_split_append(r, line, Seq::new(q.len(), |i: int| kv_line(q[i].0, q[i].1)));
        assert(render_seq(fields) == r + line + seq!['\n']);
        assert(r + line + seq!['\n'] =~= (r + line) + seq!['\n'] + Seq::<char>::empty());
        lemma_split_concat(r + line, Seq::<char>::empty(), '\n');
        assert(split_seq(Seq::<char>::empty(), '\n') =~= seq![Seq::<char>::empty()]);
        assert(Seq::new(q.len(), |i: int| kv_line(q[i].0, q[i].1)).push(line) =~= Seq::new(
            fields.len(),
            |i: int| kv_line(fields[i].0, fields[i].1),
        ));
    }
}

proof fn lemma_render_split_append(r: Seq<char>, line: Seq<char>, prev_lines: Seq<Seq<char>>)
    requires
        split_seq(r, '\n') == prev_lines + seq![Seq::<char>::empty()],
        !line.contains('\n'),
    ensures
        split_seq(r + line, '\n') == prev_lines.push(line),
    decreases line.len(),
{
    if line.len() == 0 {
        assert(r + line =~= r);
        assert(line =~= Seq::<char>::empty());
        assert(prev_lines + seq![Seq::<char>::empty()] =~= prev_lines.push(line));
    } else {
        let l1 = line.drop_last();
        assert(!l1.contains('\n')) by {
            if l1.contains('\n') {
                let k = choose|k: int| 0 <= k < l1.len() && l1[k] == '\n';
                assert(line[k] == '\n');
            }
        }
        lemma_render_split_append(r, l1, prev_lines);
        assert((r + line).drop_last() =~= r + l1);
        assert((r + line).last() == line.last());
        assert(line.last() != '\n') by {
            assert(line[line.len() - 1] == line.last());
        }
        let p = prev_lines.push(l1);
        assert(p.update(p.len() - 1, p.last().push(line.last())) =~= prev_lines.push(line)) by {
            assert(l1.push(line.last()) =~= line);
        }
    }
}

proof fn lemma_parse_rendered_lines(fields: Seq<(Seq<char>, Seq<char>)>)
    requires
        forall|i: int| 0 <= i < fields.len() ==> storable_key(#[trigger] fields[i].0),
    ensures
        parse_lines(Seq::new(fields.len(), |i: int| kv_line(fields[i].0, fields[i].1))) == fields,
    decreases fields.len(),
{
    let lines = Seq::new(fields.len(), |i: int| kv_line(fields[i].0, fields[i].1));
    if fields.len() > 0 {
        let q = fields.drop_last();
        assert forall|i: int| 0 <= i < q.len() implies storable_key(#[trigger] q[i].0) by {
            assert(q[i] == fields[i]);
        }
        lemma_parse_rendered_lines(q);
        assert(lines.drop_last() =~= Seq::new(q.len(), |i: int| kv_line(q[i].0, q[i].1)));
        let (key, value) = fields.last();
        assert(storable_key(fields[fields.len() - 1].0));
        let line = lines.last();
        assert(line == kv_line(key, value));
        // the first '=' of the line is the one after the key
        lemma_first_index_bound(line, '=');
        let k = first_index(line, '=');
        assert(line[key.len() as int] == '=');
        assert(k == key.len()) by {
            if k < key.len() {
                assert(key[k] == line[k]);
            } else if k > key.len() {
                assert(line[key.len() as int] != '=');
            }
        }
        assert(line.subrange(0, k) =~= key);
        assert(line.subrange(k + 1, line.len() as int) =~= escape_seq(value));
        lemma_unescape_escape(value);
        assert(q.push((key, value)) =~= fields);
    }
}

/// Reading a written record gives back its fields, in order, whenever the
/// field names are storable.
pub proof fn lemma_parse_render(fields: Seq<(Seq<char>, Seq<char>)>)
    requires
        forall|i: int| 0 <= i < fields.len() ==> storable_key(#[trigger] fields[i].0),
    ensures
        parse_seq(render_seq(fields)) == fields,
{
    lemma_render_lines(fields);
    let lines = Seq::new(fields.len(), |i: int| kv_line(fields[i].0, fields[i].1));
    lemma_parse_rendered_lines(fields);
    let all = lines + seq![Seq::<char>::empty()];
    assert(all.drop_last() =~= lines);
    assert(first_index(Seq::<char>::empty(), '=') == 0);
}

} // verus!
