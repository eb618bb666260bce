//! The library's model of a parsed JSON value, and its compact JSON text.
//!
//! Values come from `serde_json` (the application parses and converts them);
//! numbers that are not `i64` are carried as the bits of their `f64` value
//! together with the text `serde_json` writes for them.
use vstd::prelude::*;
use crate::text::{chars_of, digit_char, int_text, push_char, push_i64_text, push_str, str_eq};

verus! {

broadcast use vstd::std_specs::vec::group_vec_axioms;

/// A JSON value. Object members keep their order; when a key occurs more than
/// once, the last occurrence is the one that counts (as in a map built by
/// inserting the members in order).
#[derive(Debug)]
pub enum Json {
    Null,
    Bool(bool),
    /// A number whose value is an `i64`.
    Int(i64),
    /// Any other number: the bits of its `f64` value, and its JSON text.
    Float(u64, String),
    Str(String),
    Array(Vec<Json>),
    Object(Vec<(String, Json)>),
}

/// The mathematical value of a [`Json`].
pub enum JsonV {
    Null,
    Bool(bool),
    Int(i64),
    Float(u64, Seq<char>),
    Str(Seq<char>),
    Array(Seq<JsonV>),
    Object(Seq<(Seq<char>, JsonV)>),
}

pub open spec fn json_view(j: Json) -> JsonV
    decreases j,
{
    match j {
        Json::Null => JsonV::Null,
        Json::Bool(b) => JsonV::Bool(b),
        Json::Int(i) => JsonV::Int(i),
        Json::Float(bits, t) => JsonV::Float(bits, t@),
        Json::Str(s) => JsonV::Str(s@),
        Json::Array(items) => JsonV::Array(
            Seq::new(
                items@.len(),
                |i: int|
                    if 0 <= i < items@.len() {
                        proof {
                            assert(decreases_to!(items => items@));
                            assert(decreases_to!(items@ => items@[i]));
                        }
                        json_view(items@[i])
                    } else {
                        JsonV::Null
                    },
            ),
        ),
        Json::Object(fields) => JsonV::Object(
            Seq::new(
                fields@.len(),
                |i: int|
                    if 0 <= i < fields@.len() {
                        proof {
                            assert(decreases_to!(fields => fields@));
                            assert(decreases_to!(fields@ => fields@[i]));
                            assert(decreases_to!(fields@[i] => fields@[i].1));
                        }
                        (fields@[i].0@, json_view(fields@[i].1))
                    } else {
                        (Seq::empty(), JsonV::Null)
                    },
            ),
        ),
    }
}

impl View for Json {
    type V = JsonV;

    open spec fn view(&self) -> JsonV {
        json_view(*self)
    }
}

// ---------------------------------------------------------------------------
// Reading values
// ---------------------------------------------------------------------------
/// The value of the last member named `key` among `fields`.
pub open spec fn fields_get(fields: Seq<(Seq<char>, JsonV)>, key: Seq<char>) -> Option<JsonV>
    decreases fields.len(),
{
    if fields.len() == 0 {
        None
    } else if fields.last().0 == key {
        Some(fields.last().1)
    } else {
        fields_get(fields.drop_last(), key)
    }
}

/// `serde_json::Value::get` with a string key: the member's value for an object, else `None`.
pub open spec fn json_get(j: JsonV, key: Seq<char>) -> Option<JsonV> {
    match j {
        JsonV::Object(fields) => fields_get(fields, key),
        _ => None,
    }
}

/// Whether an object value has a member named `key`.
pub open spec fn json_has(j: JsonV, key: Seq<char>) -> bool {
    json_get(j, key) is Some
}

/// `serde_json::Value::as_str`.
pub open spec fn json_as_str(j: JsonV) -> Option<Seq<char>> {
    match j {
        JsonV::Str(s) => Some(s),
        _ => None,
    }
}

/// `json_get` chained with `json_as_str`.
pub open spec fn json_get_str(j: JsonV, key: Seq<char>) -> Option<Seq<char>> {
    match json_get(j, key) {
        Some(v) => json_as_str(v),
        None => None,
    }
}

/// `json_get` on an optional value.
pub open spec fn json_get_opt(j: Option<JsonV>, key: Seq<char>) -> Option<JsonV> {
    match j {
        Some(v) => json_get(v, key),
        None => None,
    }
}

/// The member named `key`, for an object.
pub fn get<'a>(j: &'a Json, key: &str) -> (r: Option<&'a Json>)
    ensures
        match r {
            Some(v) => json_get(j@, key@) == Some(v@),
            None => json_get(j@, key@) is None,
        },
{
    match j {
        Json::Object(fields) => {
            let ghost fv = j@->Object_0;
            let mut i = fields.len();
            assert(fv.take(i as int) =~= fv);
            while i > 0
                invariant
                    *j == Json::Object(*fields),
                    fv == j@->Object_0,
                    i <= fields@.len(),
                    fv.len() == fields@.len(),
                    forall|k: int| 0 <= k < fields@.len() ==> fv[k].1 == json_view((#[trigger] fields@[k]).1)
                        && fv[k].0 == fields@[k].0@,
                    fields_get(fv, key@) == fields_get(fv.take(i as int), key@),
                decreases i,
            {
                let ghost w = fv.take(i as int);
                assert(w.drop_last() =~= fv.take(i - 1));
                if str_eq(fields[i - 1].0.as_str(), key) {
                    assert(w.last() == fv[i - 1]);
                    return Some(&fields[i - 1].1);
                }
                i = i - 1;
            }
            assert(fv.take(0) =~= Seq::<(Seq<char>, JsonV)>::empty());
            None
        },
        _ => None,
    }
}

/// The text of a string value.
pub fn as_str(j: &Json) -> (r: Option<&String>)
    ensures
        match r {
            Some(s) => json_as_str(j@) == Some(s@),
            None => json_as_str(j@) is None,
        },
{
    match j {
        Json::Str(s) => Some(s),
        _ => None,
    }
}

/// The string value of the member named `key`, if it is a string.
pub fn get_str<'a>(j: &'a Json, key: &str) -> (r: Option<&'a String>)
    ensures
        match r {
            Some(s) => json_get_str(j@, key@) == Some(s@),
            None => json_get_str(j@, key@) is None,
        },
{
    match get(j, key) {
        Some(v) => as_str(v),
        None => None,
    }
}

/// A copy of a JSON value.
pub fn clone_json(j: &Json) -> (r: Json)
    ensures
        r@ == j@,
    decreases j,
{
    match j {
        Json::Null => Json::Null,
        Json::Bool(b) => Json::Bool(*b),
        Json::Int(i) => Json::Int(*i),
        Json::Float(bits, t) => Json::Float(*bits, t.clone()),
        Json::Str(s) => Json::Str(s.clone()),
        Json::Array(items) => {
            let mut out: Vec<Json> = Vec::new();
            let mut i: usize = 0;
            while i < items.len()
                invariant
                    *j == Json::Array(*items),
                    i <= items@.len(),
                    out@.len() == i,
                    forall|k: int| 0 <= k < i ==> (#[trigger] out@[k])@ == items@[k]@,
                decreases items.len() - i,
            {
                proof {
                    assert(decreases_to!(*j => j->Array_0));
                    assert(decreases_to!(*items => items[i as int]));
                }
                out.push(clone_json(&items[i]));
                i = i + 1;
            }
            let r = Json::Array(out);
            assert(r@->Array_0 =~= j@->Array_0);
            r
        },
        Json::Object(fields) => {
            let mut out: Vec<(String, Json)> = Vec::new();
            let mut i: usize = 0;
            while i < fields.len()
                invariant
                    *j == Json::Object(*fields),
                    i <= fields@.len(),
                    out@.len() == i,
                    forall|k: int|
                        0 <= k < i ==> (#[trigger] out@[k]).0@ == fields@[k].0@ && out@[k].1@
                            == fields@[k].1@,
                decreases fields.len() - i,
            {
                proof {
                    assert(decreases_to!(*j => j->Object_0));
                    assert(decreases_to!(*fields => fields[i as int]));
                    assert(decreases_to!(fields@[i as int] => fields@[i as int].1));
                }
                let v = clone_json(&fields[i].1);
                out.push((fields[i].0.clone(), v));
                i = i + 1;
            }
            let r = Json::Object(out);
            assert(r@->Object_0 =~= j@->Object_0);
            r
        },
    }
}

// ---------------------------------------------------------------------------
// Compact JSON text
// ---------------------------------------------------------------------------
/// The lowercase hexadecimal digit for `d < 16`.
pub open spec fn hex_digit(d: int) -> char {
    if d < 10 {
        digit_char(d)
    } else if d == 10 {
        'a'
    } else if d == 11 {
        'b'
    } else if d == 12 {
        'c'
    } else if d == 13 {
        'd'
    } else if d == 14 {
        'e'
    } else {
        'f'
    }
}

/// How a character is written inside a JSON string: `"` and `\` are escaped,
/// control characters below U+0020 use `\b \t \n \f \r` or `\u00XX`, every
/// other character stands for itself.
pub open spec fn escape_char(c: char) -> Seq<char> {
    let u = c as u32;
    if c == '"' {
        seq!['\\', '"']
    } else if c == '\\' {
        seq!['\\', '\\']
    } else if u == 8 {
        seq!['\\', 'b']
    } else if u == 9 {
        seq!['\\', 't']
    } else if u == 10 {
        seq!['\\', 'n']
    } else if u == 12 {
        seq!['\\', 'f']
    } else if u == 13 {
        seq!['\\', 'r']
    } else if u < 32 {
        seq!['\\', 'u', '0', '0', hex_digit((u / 16) as int), hex_digit((u % 16) as int)]
    } else {
        seq![c]
    }
}

/// The escaped characters of `s`.
pub open spec fn escaped(s: Seq<char>) -> Seq<char>
    decreases s.len(),
{
    if s.len() == 0 {
        Seq::empty()
    } else {
        escaped(s.drop_last()) + escape_char(s.last())
    }
}

/// `s` as a JSON string literal.
pub open spec fn quoted(s: Seq<char>) -> Seq<char> {
    seq!['"'] + escaped(s) + seq!['"']
}

/// The compact JSON text of a value, as `serde_json::to_string` writes it.
pub open spec fn json_text(j: JsonV) -> Seq<char>
    decreases j, 0nat,
{
    match j {
        JsonV::Null => seq!['n', 'u', 'l', 'l'],
        JsonV::Bool(b) => if b {
            seq!['t', 'r', 'u', 'e']
        } else {
            seq!['f', 'a', 'l', 's', 'e']
        },
        JsonV::Int(i) => int_text(i as int),
        JsonV::Float(_, t) => t,
        JsonV::Str(s) => quoted(s),
        JsonV::Array(items) => seq!['['] + items_text(items, items.len()) + seq![']'],
        JsonV::Object(fields) => seq!['{'] + members_text(fields, fields.len()) + seq!['}'],
    }
}

/// The texts of the first `n` items, separated by commas.
pub open spec fn items_text(items: Seq<JsonV>, n: nat) -> Seq<char>
    decreases items, n,
{
    if n == 0 || n > items.len() {
        Seq::empty()
    } else if n == 1 {
        json_text(items[0])
    } else {
        items_text(items, (n - 1) as nat) + seq![','] + json_text(items[n - 1])
    }
}

/// The texts `"key":value` of the first `n` members, separated by commas.
pub open spec fn members_text(fields: Seq<(Seq<char>, JsonV)>, n: nat) -> Seq<char>
    decreases fields, n,
{
    if n == 0 || n > fields.len() {
        Seq::empty()
    } else if n == 1 {
        proof {
            assert(decreases_to!(fields => fields[0]));
        }
        quoted(fields[0].0) + seq![':'] + json_text(fields[0].1)
    } else {
        proof {
            assert(decreases_to!(fields => fields[n - 1]));
        }
        members_text(fields, (n - 1) as nat) + seq![','] + quoted(fields[n - 1].0) + seq![':']
            + json_text(fields[n - 1].1)
    }
}

fn hex_digit_exec(d: u32) -> (c: char)
    requires
        d < 16,
    ensures
        c == hex_digit(d as int),
{
    if d == 0 { '0' }
    else if d == 1 { '1' }
    else if d == 2 { '2' }
    else if d == 3 { '3' }
    else if d == 4 { '4' }
    else if d == 5 { '5' }
    else if d == 6 { '6' }
    else if d == 7 { '7' }
    else if d == 8 { '8' }
    else if d == 9 { '9' }
    else if d == 10 { 'a' }
    else if d == 11 { 'b' }
    else if d == 12 { 'c' }
    else if d == 13 { 'd' }
    else if d == 14 { 'e' }
    else { 'f' }
}

fn push_escaped_char(out: &mut String, c: char)
    ensures
        final(out)@ == old(out)@ + escape_char(c),
{
    let u = c as u32;
    if c == '"' {
        push_char(out, '\\');
        push_char(out, '"');
    } else if c == '\\' {
        push_char(out, '\\');
        push_char(out, '\\');
    } else if u == 8 {
        push_char(out, '\\');
        push_char(out, 'b');
    } else if u == 9 {
        push_char(out, '\\');
        push_char(out, 't');
    } else if u == 10 {
        push_char(out, '\\');
        push_char(out, 'n');
    } else if u == 12 {
        push_char(out, '\\');
        push_char(out, 'f');
    } else if u == 13 {
        push_char(out, '\\');
        push_char(out, 'r');
    } else if u < 32 {
        push_char(out, '\\');
        push_char(out, 'u');
        push_char(out, '0');
        push_char(out, '0');
        push_char(out, hex_digit_exec(u / 16));
        push_char(out, hex_digit_exec(u % 16));
    } else {
        push_char(out, c);
    }
    assert(final(out)@ =~= old(out)@ + escape_char(c));
}

/// Appends `s` as a JSON string literal.
pub fn push_quoted(out: &mut String, s: &str)
    ensures
        final(out)@ == old(out)@ + quoted(s@),
{
    let v = chars_of(s);
    push_char(out, '"');
    let ghost start = out@;
    let mut i: usize = 0;
    while i < v.len()
        invariant
            i <= v@.len(),
            v@ == s@,
            out@ == start + escaped(s@.take(i as int)),
        decreases v.len() - i,
    {
        assert(s@.take(i + 1).drop_last() =~= s@.take(i as int));
        push_escaped_char(out, v[i]);
        i = i + 1;
        assert(out@ =~= start + escaped(s@.take(i as int)));
    }
    assert(s@.take(v.len() as int) =~= s@);
    push_char(out, '"');
    assert(final(out)@ =~= old(out)@ + quoted(s@));
}

/// Appends the compact JSON text of `j`.
pub fn push_json_text(out: &mut String, j: &Json)
    ensures
        final(out)@ == old(out)@ + json_text(j@),
    decreases j,
{
    match j {
        Json::Null => {
            push_str(out, "null");
            proof { reveal_strlit("null"); }
            assert(final(out)@ =~= old(out)@ + json_text(j@));
        },
        Json::Bool(b) => {
            if *b {
                push_str(out, "true");
                proof { reveal_strlit("true"); }
            } else {
                push_str(out, "false");
                proof { reveal_strlit("false"); }
            }
            assert(final(out)@ =~= old(out)@ + json_text(j@));
        },
        Json::Int(i) => {
            push_i64_text(out, *i);
        },
        Json::Float(_, t) => {
            push_str(out, t.as_str());
        },
        Json::Str(s) => {
            push_quoted(out, s.as_str());
        },
        Json::Array(items) => {
            let ghost iv = j@->Array_0;
            push_char(out, '[');
            let ghost start = out@;
            let mut i: usize = 0;
            while i < items.len()
                invariant
                    *j == Json::Array(*items),
                    iv == j@->Array_0,
                    i <= items@.len(),
                    iv.len() == items@.len(),
                    forall|k: int| 0 <= k < items@.len() ==> iv[k] == (#[trigger] items@[k])@,
                    out@ == start + items_text(iv, i as nat),
                decreases items.len() - i,
            {
                proof {
                    assert(decreases_to!(*j => j->Array_0));
                    assert(decreases_to!(*items => items[i as int]));
                }
                if i > 0 {
                    push_char(out, ',');
                }
                push_json_text(out, &items[i]);
                i = i + 1;
                assert(out@ =~= start + items_text(iv, i as nat));
            }
            push_char(out, ']');
            assert(final(out)@ =~= old(out)@ + json_text(j@));
        },
        Json::Object(fields) => {
            let ghost fv = j@->Object_0;
            push_char(out, '{');
            let ghost start = out@;
            let mut i: usize = 0;
            while i < fields.len()
                invariant
                    *j == Json::Object(*fields),
                    fv == j@->Object_0,
                    i <= fields@.len(),
                    fv.len() == fields@.len(),
                    forall|k: int|
                        0 <= k < fields@.len() ==> fv[k].0 == (#[trigger] fields@[k]).0@ && fv[k].1
                            == fields@[k].1@,
                    out@ == start + members_text(fv, i as nat),
                decreases fields.len() - i,
            {
                proof {
                    assert(decreases_to!(*j => j->Object_0));
                    assert(decreases_to!(*fields => fields[i as int]));
                    assert(decreases_to!(fields[i as int] => fields[i as int].1));
                }
                if i > 0 {
                    push_char(out, ',');
                }
                push_quoted(out, fields[i].0.as_str());
                push_char(out, ':');
                push_json_text(out, &fields[i].1);
                i = i + 1;
                assert(out@ =~= start + members_text(fv, i as nat));
            }
            push_char(out, '}');
            assert(final(out)@ =~= old(out)@ + json_text(j@));
        },
    }
}

/// The compact JSON text of `j` (`serde_json::to_string`).
pub fn to_json_text(j: &Json) -> (s: String)
    ensures
        s@ == json_text(j@),
{
    let mut s = String::new();
    push_json_text(&mut s, j);
    assert(s@ =~= json_text(j@));
    s
}

/// Whether no character of `t` is a control character below U+0020.
pub open spec fn no_control_chars(t: Seq<char>) -> bool {
    forall|k: int| 0 <= k < t.len() ==> (#[trigger] t[k] as u32) >= 32
}

proof fn lemma_escape_char_printable(c: char)
    ensures
        no_control_chars(escape_char(c)),
{
    let u = c as u32;
    if u < 32 && u != 8 && u != 9 && u != 10 && u != 12 && u != 13 {
        let e = escape_char(c);
        assert(e[4] == hex_digit((u / 16) as int));
        assert(e[5] == hex_digit((u % 16) as int));
    }
}

proof fn lemma_escaped_printable(s: Seq<char>)
    ensures
        no_control_chars(escaped(s)),
    decreases s.len(),
{
    if s.len() > 0 {
        lemma_escaped_printable(s.drop_last());
        lemma_escape_char_printable(s.last());
        let a = escaped(s.drop_last());
        let b = escape_char(s.last());
        assert forall|k: int| 0 <= k < (a + b).len() implies ((#[trigger] (a + b)[k]) as u32) >= 32 by {
            if k < a.len() {
                assert((a + b)[k] == a[k]);
            } else {
                assert((a + b)[k] == b[k - a.len()]);
            }
        }
    }
}

/// The JSON text of a string never holds a raw control character: each
/// character below U+0020 is written as a backslash escape, as
/// `serde_json::to_string` writes it; quotes and backslashes are escaped too,
/// and every other character stands for itself.
pub proof fn law_string_text_escapes(s: Seq<char>)
    ensures
        no_control_chars(json_text(JsonV::Str(s))),
        json_text(JsonV::Str(s)).len() >= 2,
        json_text(JsonV::Str(s))[0] == '"',
        json_text(JsonV::Str(s)).last() == '"',
        escaped(seq!['\n']) == seq!['\\', 'n'],
        escaped(seq!['\t']) == seq!['\\', 't'],
        escaped(seq!['\r']) == seq!['\\', 'r'],
        escaped(seq!['\u{8}']) == seq!['\\', 'b'],
        escaped(seq!['\u{c}']) == seq!['\\', 'f'],
        escaped(seq!['"']) == seq!['\\', '"'],
        escaped(seq!['\\']) == seq!['\\', '\\'],
        escaped(seq!['\u{1}']) == seq!['\\', 'u', '0', '0', '0', '1'],
        escaped(seq!['\u{1f}']) == seq!['\\', 'u', '0', '0', '1', 'f'],
        forall|c: char| (c as u32) >= 32 && c != '"' && c != '\\' ==> #[trigger] escaped(seq![c]) == seq![c],
        escaped(s).len() >= s.len(),
{
    lemma_escaped_printable(s);
    let e = escaped(s);
    let q = json_text(JsonV::Str(s));
    assert(q == seq!['"'] + e + seq!['"']);
    assert forall|k: int| 0 <= k < q.len() implies ((#[trigger] q[k]) as u32) >= 32 by {
        if k == 0 || k == q.len() - 1 {
        } else {
            assert(q[k] == e[k - 1]);
        }
    }
    assert forall|c: char| (c as u32) >= 32 && c != '"' && c != '\\' implies #[trigger] escaped(seq![c]) == seq![c] by {
        assert(seq![c].drop_last() =~= Seq::<char>::empty());
        assert(escaped(seq![c]) =~= escaped(Seq::<char>::empty()) + escape_char(c));
    }
    assert(seq!['\n'].drop_last() =~= Seq::<char>::empty());
    assert(seq!['\t'].drop_last() =~= Seq::<char>::empty());
    assert(seq!['\r'].drop_last() =~= Seq::<char>::empty());
    assert(seq!['\u{8}'].drop_last() =~= Seq::<char>::empty());
    assert(seq!['\u{c}'].drop_last() =~= Seq::<char>::empty());
    assert(seq!['"'].drop_last() =~= Seq::<char>::empty());
    assert(seq!['\\'].drop_last() =~= Seq::<char>::empty());
    assert(seq!['\u{1}'].drop_last() =~= Seq::<char>::empty());
    assert(seq!['\u{1f}'].drop_last() =~= Seq::<char>::empty());
    assert(('\n' as u32) == 10 && ('\t' as u32) == 9 && ('\r' as u32) == 13);
    assert(('\u{8}' as u32) == 8 && ('\u{c}' as u32) == 12 && ('\u{1}' as u32) == 1 && ('\u{1f}' as u32) == 31);
    assert(escaped(Seq::<char>::empty()) =~= Seq::<char>::empty());
    assert(escaped(seq!['\n']) =~= seq!['\\', 'n']);
    assert(escaped(seq!['\t']) =~= seq!['\\', 't']);
    assert(escaped(seq!['\r']) =~= seq!['\\', 'r']);
    assert(escaped(seq!['\u{8}']) =~= seq!['\\', 'b']);
    assert(escaped(seq!['\u{c}']) =~= seq!['\\', 'f']);
    assert(escaped(seq!['"']) =~= seq!['\\', '"']);
    assert(escaped(seq!['\\']) =~= seq!['\\', '\\']);
    assert(escaped(seq!['\u{1}']) =~= seq!['\\', 'u', '0', '0', '0', '1']);
    assert(escaped(seq!['\u{1f}']) =~= seq!['\\', 'u', '0', '0', '1', 'f']);
    lemma_escaped_len(s);
}

proof fn lemma_escaped_len(s: Seq<char>)
    ensures
        escaped(s).len() >= s.len(),
    decreases s.len(),
{
    if s.len() > 0 {
        lemma_escaped_len(s.drop_last());
    }
}

} // verus!
