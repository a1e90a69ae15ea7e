//! JSON values as plain data, with field lookup and compact serialization in the
//! same form `serde_json` writes (objects keep their fields in stored order,
//! which is sorted by key wherever they are built here).
use vstd::prelude::*;

use crate::text::{push_i128, push_str, string_of, chars_of, int_text};

verus! {

/// A JSON number: the text `serde_json` writes for it and, when it is an integer
/// that fits, its `i64` value (what `Number::as_i64` gives).
#[derive(Debug, Clone, PartialEq)]
pub struct JsonNumber {
    pub text: String,
    pub as_i64: Option<i64>,
}

/// A JSON value.
#[derive(Debug, PartialEq)]
pub enum Json {
    Null,
    Bool(bool),
    Number(JsonNumber),
    Str(String),
    Array(Vec<Json>),
    Object(Vec<(String, Json)>),
}

/// The first field named `key` in a list of object fields.
pub open spec fn find_field(fields: Seq<(String, Json)>, key: Seq<char>) -> Option<Json>
    decreases fields.len(),
{
    if fields.len() == 0 {
        None
    } else if fields[0].0@ == key {
        Some(fields[0].1)
    } else {
        find_field(fields.subrange(1, fields.len() as int), key)
    }
}

/// The field at `i` is the first one named `key`, so lookup finds it.
pub proof fn lemma_find_field_at(fields: Seq<(String, Json)>, key: Seq<char>, i: int)
    requires
        0 <= i < fields.len(),
        fields[i].0@ == key,
        forall|j: int| 0 <= j < i ==> fields[j].0@ != key,
    ensures
        find_field(fields, key) == Some(fields[i].1),
    decreases i,
{
    if i > 0 {
        let rest = fields.subrange(1, fields.len() as int);
        assert forall|j: int| 0 <= j < i - 1 implies rest[j].0@ != key by {
            assert(rest[j] == fields[j + 1]);
        }
        lemma_find_field_at(rest, key, i - 1);
    }
}

/// No field is named `key`, so lookup finds nothing.
pub proof fn lemma_find_field_none(fields: Seq<(String, Json)>, key: Seq<char>)
    requires
        forall|j: int| 0 <= j < fields.len() ==> fields[j].0@ != key,
    ensures
        find_field(fields, key) is None,
    decreases fields.len(),
{
    if fields.len() > 0 {
        let rest = fields.subrange(1, fields.len() as int);
        assert forall|j: int| 0 <= j < rest.len() implies rest[j].0@ != key by {
            assert(rest[j] == fields[j + 1]);
        }
        lemma_find_field_none(rest, key);
    }
}

/// Looking up in a list with one more field at the end.
pub proof fn lemma_find_field_push(fields: Seq<(String, Json)>, x: (String, Json), key: Seq<char>)
    ensures
        find_field(fields.push(x), key) == (match find_field(fields, key) {
            Some(v) => Some(v),
            None => if x.0@ == key {
                Some(x.1)
            } else {
                None
            },
        }),
    decreases fields.len(),
{
    if fields.len() > 0 {
        let rest = fields.subrange(1, fields.len() as int);
        assert(fields.push(x).subrange(1, fields.len() + 1 as int) =~= rest.push(x));
        assert(fields.push(x)[0] == fields[0]);
        lemma_find_field_push(rest, x, key);
    } else {
        assert(fields.push(x).subrange(1, 1) =~= Seq::<(String, Json)>::empty());
        assert(fields.push(x)[0] == x);
        assert(find_field(Seq::<(String, Json)>::empty(), key) is None);
    }
}

/// Appends a field named `key`.
pub fn push_field(fields: &mut Vec<(String, Json)>, key: &str, value: Json)
    ensures
        final(fields)@.len() == old(fields)@.len() + 1,
        final(fields)@.subrange(0, old(fields)@.len() as int) == old(fields)@,
        final(fields)@.last().0@ == key@,
        final(fields)@.last().1 == value,
        forall|k: Seq<char>|
            #[trigger] find_field(final(fields)@, k) == (match find_field(old(fields)@, k) {
                Some(v) => Some(v),
                None => if k == key@ {
                    Some(value)
                } else {
                    None
                },
            }),
{
    let ghost before = fields@;
    fields.push((string_of(key), value));
    assert(final(fields)@.subrange(0, old(fields)@.len() as int) =~= old(fields)@);
    assert forall|k: Seq<char>|
        #[trigger] find_field(fields@, k) == (match find_field(before, k) {
            Some(v) => Some(v),
            None => if k == key@ {
                Some(value)
            } else {
                None
            },
        }) by {
        lemma_find_field_push(before, fields@.last(), k);
        assert(fields@ == before.push(fields@.last()));
    }
}

/// An object of one field.
pub fn object1(k1: &str, v1: Json) -> (r: Json)
    ensures
        r is Object,
        r->Object_0@.len() == 1,
        json_get(r, k1@) == Some(v1),
        json_text(r) == object1_text(k1@, json_text(v1)),
{
    let mut fields: Vec<(String, Json)> = Vec::new();
    push_field(&mut fields, k1, v1);
    let r = Json::Object(fields);
    proof {
        assert(fields_text(fields@, 1) == quoted(k1@) + seq![':'] + json_text(v1));
        assert(json_text(r) =~= object1_text(k1@, json_text(v1)));
    }
    r
}

/// An object of two fields with different keys.
pub fn object2(k1: &str, v1: Json, k2: &str, v2: Json) -> (r: Json)
    requires
        k1@ != k2@,
    ensures
        r is Object,
        r->Object_0@.len() == 2,
        json_get(r, k1@) == Some(v1),
        json_get(r, k2@) == Some(v2),
        json_text(r) == object2_text(k1@, json_text(v1), k2@, json_text(v2)),
{
    let mut fields: Vec<(String, Json)> = Vec::new();
    push_field(&mut fields, k1, v1);
    let ghost f1 = fields@;
    push_field(&mut fields, k2, v2);
    let r = Json::Object(fields);
    proof {
        assert(fields@[0] == f1[0]);
        assert(fields_text(fields@, 1) == quoted(k1@) + seq![':'] + json_text(v1));
        assert(json_text(r) =~= object2_text(k1@, json_text(v1), k2@, json_text(v2)));
    }
    r
}

/// An object of three fields with different keys.
pub fn object3(k1: &str, v1: Json, k2: &str, v2: Json, k3: &str, v3: Json) -> (r: Json)
    requires
        k1@ != k2@,
        k1@ != k3@,
        k2@ != k3@,
    ensures
        r is Object,
        r->Object_0@.len() == 3,
        json_get(r, k1@) == Some(v1),
        json_get(r, k2@) == Some(v2),
        json_get(r, k3@) == Some(v3),
        json_text(r) == object3_text(k1@, json_text(v1), k2@, json_text(v2), k3@, json_text(v3)),
{
    let mut fields: Vec<(String, Json)> = Vec::new();
    push_field(&mut fields, k1, v1);
    let ghost f1 = fields@;
    push_field(&mut fields, k2, v2);
    let ghost f2 = fields@;
    push_field(&mut fields, k3, v3);
    let r = Json::Object(fields);
    proof {
        assert(fields@[0] == f1[0]);
        assert(fields@[1] == f2[1]);
        assert(fields@[0] == f2[0]);
        assert(fields_text(fields@, 1) == quoted(k1@) + seq![':'] + json_text(v1));
        assert(fields_text(fields@, 2) == fields_text(fields@, 1) + seq![','] + quoted(k2@) + seq![':']
            + json_text(v2));
        assert(json_text(r) =~= object3_text(
            k1@,
            json_text(v1),
            k2@,
            json_text(v2),
            k3@,
            json_text(v3),
        ));
    }
    r
}

/// What `Value::get(key)` gives: the field of an object, nothing otherwise.
pub open spec fn json_get(j: Json, key: Seq<char>) -> Option<Json> {
    match j {
        Json::Object(fields) => find_field(fields@, key),
        _ => None,
    }
}

/// The field `key` holds a string; its text.
pub open spec fn json_get_str(j: Json, key: Seq<char>) -> Option<Seq<char>> {
    match json_get(j, key) {
        Some(Json::Str(s)) => Some(s@),
        _ => None,
    }
}

/// How `serde_json` writes one character inside a string literal.
pub open spec fn escape_char(c: char) -> Seq<char> {
    if c == '"' {
        seq!['\\', '"']
    } else if c == '\\' {
        seq!['\\', '\\']
    } else if c == '\u{8}' {
        seq!['\\', 'b']
    } else if c == '\t' {
        seq!['\\', 't']
    } else if c == '\n' {
        seq!['\\', 'n']
    } else if c == '\u{c}' {
        seq!['\\', 'f']
    } else if c == '\r' {
        seq!['\\', 'r']
    } else if (c as u32) < 0x20 {
        seq!['\\', 'u', '0', '0', hex_digit((c as u32) / 16), hex_digit((c as u32) % 16)]
    } else {
        seq![c]
    }
}

/// Lower-case hexadecimal digit.
pub open spec fn hex_digit(d: u32) -> char {
    if d < 10 {
        ((d + 48) as u8) as char
    } else {
        ((d + 87) as u8) as char
    }
}

/// The escaped characters of a string, without quotes.
pub open spec fn escaped(s: Seq<char>) -> Seq<char>
    decreases s.len(),
{
    if s.len() == 0 {
        Seq::empty()
    } else {
        escaped(s.drop_last()) + escape_char(s.last())
    }
}

/// A JSON string literal.
pub open spec fn quoted(s: Seq<char>) -> Seq<char> {
    seq!['"'] + escaped(s) + seq!['"']
}

/// Compact JSON text of a value, as `serde_json`'s `Display` writes it.
pub open spec fn json_text(j: Json) -> Seq<char>
    decreases j, 0nat,
{
    match j {
        Json::Null => seq!['n', 'u', 'l', 'l'],
        Json::Bool(b) => if b {
            seq!['t', 'r', 'u', 'e']
        } else {
            seq!['f', 'a', 'l', 's', 'e']
        },
        Json::Number(n) => n.text@,
        Json::Str(s) => quoted(s@),
        Json::Array(items) => seq!['['] + items_text(items@, items@.len()) + seq![']'],
        Json::Object(fields) => seq!['{'] + fields_text(fields@, fields@.len()) + seq!['}'],
    }
}

/// The text of an object of one field, given the value's text.
pub open spec fn object1_text(k1: Seq<char>, t1: Seq<char>) -> Seq<char> {
    seq!['{'] + quoted(k1) + seq![':'] + t1 + seq!['}']
}

/// The text of an object of two fields, in this order, given the values' texts.
pub open spec fn object2_text(k1: Seq<char>, t1: Seq<char>, k2: Seq<char>, t2: Seq<char>) -> Seq<char> {
    seq!['{'] + quoted(k1) + seq![':'] + t1 + seq![','] + quoted(k2) + seq![':'] + t2 + seq!['}']
}

/// The text of an object of three fields, in this order, given the values' texts.
pub open spec fn object3_text(
    k1: Seq<char>,
    t1: Seq<char>,
    k2: Seq<char>,
    t2: Seq<char>,
    k3: Seq<char>,
    t3: Seq<char>,
) -> Seq<char> {
    seq!['{'] + quoted(k1) + seq![':'] + t1 + seq![','] + quoted(k2) + seq![':'] + t2 + seq![',']
        + quoted(k3) + seq![':'] + t3 + seq!['}']
}

/// The first `n` items, comma separated.
pub open spec fn items_text(items: Seq<Json>, n: nat) -> Seq<char>
    decreases items, n,
{
    if n == 0 || n > items.len() {
        Seq::empty()
    } else if n == 1 {
        json_text(items[0])
    } else {
        items_text(items, (n - 1) as nat) + seq![','] + json_text(items[n - 1])
    }
}

/// The first `n` fields, comma separated, each as `"key":value`.
pub open spec fn fields_text(fields: Seq<(String, Json)>, n: nat) -> Seq<char>
    decreases fields, n,
{
    if n == 0 || n > fields.len() {
        Seq::empty()
    } else if n == 1 {
        quoted(fields[0].0@) + seq![':'] + json_text(fields[0].1)
    } else {
        fields_text(fields, (n - 1) as nat) + seq![','] + quoted(fields[n - 1].0@) + seq![':']
            + json_text(fields[n - 1].1)
    }
}

/// Lists whose items have the same texts have the same text.
proof fn lemma_items_text_same(a: Seq<Json>, b: Seq<Json>, n: nat)
    requires
        a.len() == b.len(),
        n <= a.len(),
        forall|k: int| 0 <= k < a.len() ==> json_text(#[trigger] a[k]) == json_text(b[k]),
    ensures
        items_text(a, n) == items_text(b, n),
    decreases n,
{
    if n > 1 {
        lemma_items_text_same(a, b, (n - 1) as nat);
        assert(json_text(a[n - 1]) == json_text(b[n - 1]));
    } else if n == 1 {
        assert(json_text(a[0]) == json_text(b[0]));
    }
}

/// Field lists with the same keys and value texts have the same text.
pub proof fn lemma_fields_text_same(a: Seq<(String, Json)>, b: Seq<(String, Json)>, n: nat)
    requires
        a.len() == b.len(),
        n <= a.len(),
        forall|k: int|
            0 <= k < a.len() ==> (#[trigger] a[k]).0@ == b[k].0@ && json_text(a[k].1) == json_text(b[k].1),
    ensures
        fields_text(a, n) == fields_text(b, n),
    decreases n,
{
    if n > 1 {
        lemma_fields_text_same(a, b, (n - 1) as nat);
        assert(a[n - 1].0@ == b[n - 1].0@);
    } else if n == 1 {
        assert(a[0].0@ == b[0].0@);
    }
}

/// Appends the escaped form of one character.
fn push_escaped_char(s: &mut String, c: char)
    ensures
        final(s)@ == old(s)@ + escape_char(c),
{
    if c == '"' {
        s.push('\\');
        s.push('"');
    } else if c == '\\' {
        s.push('\\');
        s.push('\\');
    } else if c == '\u{8}' {
        s.push('\\');
        s.push('b');
    } else if c == '\t' {
        s.push('\\');
        s.push('t');
    } else if c == '\n' {
        s.push('\\');
        s.push('n');
    } else if c == '\u{c}' {
        s.push('\\');
        s.push('f');
    } else if c == '\r' {
        s.push('\\');
        s.push('r');
    } else if (c as u32) < 0x20 {
        let u = c as u32;
        let hi = u / 16;
        let lo = u % 16;
        s.push('\\');
        s.push('u');
        s.push('0');
        s.push('0');
        s.push(hex_char(hi));
        s.push(hex_char(lo));
    } else {
        s.push(c);
    }
    assert(final(s)@ =~= old(s)@ + escape_char(c));
}

fn hex_char(d: u32) -> (c: char)
    requires
        d < 16,
    ensures
        c == hex_digit(d),
{
    if d < 10 {
        ((d as u8) + 48) as char
    } else {
        ((d as u8) + 87) as char
    }
}

/// Appends a JSON string literal.
pub fn push_quoted(s: &mut String, text: &str)
    ensures
        final(s)@ == old(s)@ + quoted(text@),
{
    let cs = chars_of(text);
    s.push('"');
    let ghost start = s@;
    let mut i: usize = 0;
    while i < cs.len()
        invariant
            i <= cs.len(),
            cs@ == text@,
            start == old(s)@.push('"'),
            s@ == start + escaped(cs@.subrange(0, i as int)),
        decreases cs.len() - i,
    {
        let ghost pre = cs@.subrange(0, i as int);
        push_escaped_char(s, cs[i]);
        i = i + 1;
        proof {
            let post = cs@.subrange(0, i as int);
            assert(post.drop_last() =~= pre);
            assert(post.last() == cs@[i - 1]);
        }
        assert(s@ =~= start + escaped(cs@.subrange(0, i as int)));
    }
    s.push('"');
    assert(cs@.subrange(0, cs@.len() as int) =~= cs@);
    assert(final(s)@ =~= old(s)@ + quoted(text@));
}

impl Json {
    /// `Value::get(key)`.
    pub fn get(&self, key: &str) -> (r: Option<&Json>)
        ensures
            r.is_some() == json_get(*self, key@).is_some(),
            r.is_some() ==> *r.unwrap() == json_get(*self, key@).unwrap(),
    {
        match self {
            Json::Object(fields) => {
                let k = chars_of(key);
                let mut i: usize = 0;
                assert(fields@.subrange(0, fields@.len() as int) =~= fields@);
                while i < fields.len()
                    invariant
                        i <= fields.len(),
                        k@ == key@,
                        json_get(*self, key@) == find_field(fields@, key@),
                        find_field(fields@, key@) == find_field(
                            fields@.subrange(i as int, fields@.len() as int),
                            key@,
                        ),
                    decreases fields.len() - i,
                {
                    let name = chars_of(fields[i].0.as_str());
                    let ghost rest = fields@.subrange(i as int, fields@.len() as int);
                    assert(rest[0] == fields@[i as int]);
                    if crate::text::chars_eq(&name, &k) {
                        return Some(&fields[i].1);
                    }
                    assert(rest.subrange(1, rest.len() as int) =~= fields@.subrange(
                        i + 1,
                        fields@.len() as int,
                    ));
                    i = i + 1;
                }
                None
            },
            _ => None,
        }
    }

    /// `Value::as_str`.
    pub fn as_str(&self) -> (r: Option<&String>)
        ensures
            r.is_some() == (*self is Str),
            r.is_some() ==> *self == Json::Str(*r.unwrap()),
    {
        match self {
            Json::Str(s) => Some(s),
            _ => None,
        }
    }

    /// `Value::as_array`.
    pub fn as_array(&self) -> (r: Option<&Vec<Json>>)
        ensures
            r.is_some() == (*self is Array),
            r.is_some() ==> *self == Json::Array(*r.unwrap()),
    {
        match self {
            Json::Array(items) => Some(items),
            _ => None,
        }
    }

    /// `Value::as_bool`.
    pub fn as_bool(&self) -> (r: Option<bool>)
        ensures
            r == (match *self {
                Json::Bool(b) => Some(b),
                _ => None,
            }),
    {
        match self {
            Json::Bool(b) => Some(*b),
            _ => None,
        }
    }

    /// A JSON string value.
    pub fn string(text: &str) -> (r: Json)
        ensures
            r is Str,
            r->Str_0@ == text@,
    {
        Json::Str(string_of(text))
    }

    /// A JSON integer value.
    pub fn integer(n: i64) -> (r: Json)
        ensures
            r is Number,
            r->Number_0.text@ == int_text(n as int),
            r->Number_0.as_i64 == Some(n),
    {
        let mut text = String::new();
        push_i128(&mut text, n as i128);
        assert(text@ =~= int_text(n as int));
        Json::Number(JsonNumber { text, as_i64: Some(n) })
    }

    /// An optional boolean: `null` when absent.
    pub fn optional_bool(b: Option<bool>) -> (r: Json)
        ensures
            r == (match b {
                Some(v) => Json::Bool(v),
                None => Json::Null,
            }),
    {
        match b {
            Some(v) => Json::Bool(v),
            None => Json::Null,
        }
    }

    /// Appends the compact JSON text of this value.
    pub fn write_text(&self, s: &mut String)
        ensures
            final(s)@ == old(s)@ + json_text(*self),
        decreases self,
    {
        match self {
            Json::Null => {
                proof {
                    reveal_strlit("null");
                }
                push_str(s, "null");
                assert(final(s)@ =~= old(s)@ + json_text(*self));
            },
            Json::Bool(b) => {
                proof {
                    reveal_strlit("true");
                    reveal_strlit("false");
                }
                if *b {
                    push_str(s, "true");
                } else {
                    push_str(s, "false");
                }
                assert(final(s)@ =~= old(s)@ + json_text(*self));
            },
            Json::Number(n) => push_str(s, n.text.as_str()),
            Json::Str(t) => push_quoted(s, t.as_str()),
            Json::Array(items) => {
                s.push('[');
                let ghost start = s@;
                let mut i: usize = 0;
                while i < items.len()
                    invariant
                        i <= items.len(),
                        start == old(s)@.push('['),
                        *self == Json::Array(*items),
                        s@ == start + items_text(items@, i as nat),
                    decreases items.len() - i,
                {
                    if i > 0 {
                        s.push(',');
                    }
                    proof {
                        assert(*items == self->Array_0);
                        assert(decreases_to!(*self => self->Array_0));
                        vstd::std_specs::vec::axiom_vec_index_decreases(*items, i as int);
                    }
                    items[i].write_text(s);
                    i = i + 1;
                    assert(s@ =~= start + items_text(items@, i as nat));
                }
                s.push(']');
                assert(final(s)@ =~= old(s)@ + json_text(*self));
            },
            Json::Object(fields) => {
                s.push('{');
                let ghost start = s@;
                let mut i: usize = 0;
                while i < fields.len()
                    invariant
                        i <= fields.len(),
                        start == old(s)@.push('{'),
                        *self == Json::Object(*fields),
                        s@ == start + fields_text(fields@, i as nat),
                    decreases fields.len() - i,
                {
                    if i > 0 {
                        s.push(',');
                    }
                    push_quoted(s, fields[i].0.as_str());
                    s.push(':');
                    proof {
                        assert(*fields == self->Object_0);
                        assert(decreases_to!(*self => self->Object_0));
                        vstd::std_specs::vec::axiom_vec_index_decreases(*fields, i as int);
                        assert(decreases_to!(fields[i as int] => fields[i as int].1));
                    }
                    fields[i].1.write_text(s);
                    i = i + 1;
                    assert(s@ =~= start + fields_text(fields@, i as nat));
                }
                s.push('}');
                assert(final(s)@ =~= old(s)@ + json_text(*self));
            },
        }
    }

    /// A deep copy with the same text.
    pub fn copy(&self) -> (r: Json)
        ensures
            json_text(r) == json_text(*self),
        decreases self,
    {
        match self {
            Json::Null => Json::Null,
            Json::Bool(b) => Json::Bool(*b),
            Json::Number(n) => Json::Number(JsonNumber { text: n.text.clone(), as_i64: n.as_i64 }),
            Json::Str(t) => Json::Str(t.clone()),
            Json::Array(items) => {
                let mut out: Vec<Json> = Vec::new();
                let mut i: usize = 0;
                while i < items.len()
                    invariant
                        i <= items.len(),
                        *self == Json::Array(*items),
                        out@.len() == i,
                        forall|k: int| 0 <= k < i ==> json_text(#[trigger] out@[k]) == json_text(items@[k]),
                    decreases items.len() - i,
                {
                    proof {
                        assert(decreases_to!(*self => self->Array_0));
                        vstd::std_specs::vec::axiom_vec_index_decreases(*items, i as int);
                    }
                    let c = items[i].copy();
                    out.push(c);
                    i = i + 1;
                }
                proof {
                    lemma_items_text_same(out@, items@, out@.len());
                }
                Json::Array(out)
            },
            Json::Object(fields) => {
                let mut out: Vec<(String, Json)> = Vec::new();
                let mut i: usize = 0;
                while i < fields.len()
                    invariant
                        i <= fields.len(),
                        *self == Json::Object(*fields),
                        out@.len() == i,
                        forall|k: int|
                            0 <= k < i ==> (#[trigger] out@[k]).0@ == fields@[k].0@ && json_text(out@[k].1)
                                == json_text(fields@[k].1),
                    decreases fields.len() - i,
                {
                    proof {
                        assert(decreases_to!(*self => self->Object_0));
                        vstd::std_specs::vec::axiom_vec_index_decreases(*fields, i as int);
                        assert(decreases_to!(fields[i as int] => fields[i as int].1));
                    }
                    let c = fields[i].1.copy();
                    out.push((fields[i].0.clone(), c));
                    i = i + 1;
                }
                proof {
                    lemma_fields_text_same(out@, fields@, out@.len());
                }
                Json::Object(out)
            },
        }
    }

    /// The compact JSON text of this value (`Value::to_string`).
    pub fn to_text(&self) -> (r: String)
        ensures
            r@ == json_text(*self),
    {
        let mut s = String::new();
        self.write_text(&mut s);
        assert(s@ =~= json_text(*self));
        s
    }
}

} // verus!
