//! A JSON document as the plugins read it: values, arrays and objects, with
//! each number carried as its text together with the 8-bit colour channel it
//! stands for (the number times 255, rounded and clamped to 0..=255). The
//! caller that parses the text computes that channel, since it takes floating
//! point; the library only reads it.
use vstd::prelude::*;
use crate::text::{str_chars, chars_to_string};
use crate::markdown::same_chars;

verus! {

/// A JSON number: its text, and its value as a colour channel.
#[derive(Debug, Clone, PartialEq)]
pub struct JsonNumber {
    pub text: String,
    pub channel: u8,
}

/// A JSON value. An object keeps its members in order, each key once.
#[derive(Debug, PartialEq)]
pub enum JsonValue {
    Null,
    Bool(bool),
    Number(JsonNumber),
    Str(String),
    Array(Vec<JsonValue>),
    Object(Vec<(String, JsonValue)>),
}

/// The mathematical model of a JSON value.
pub enum Json {
    Null,
    Bool(bool),
    Number(Seq<char>, u8),
    Str(Seq<char>),
    Array(Seq<Json>),
    Object(Seq<(Seq<char>, Json)>),
}

/// The model of a value.
pub open spec fn json_view(v: JsonValue) -> Json
    decreases v,
{
    match v {
        JsonValue::Null => Json::Null,
        JsonValue::Bool(b) => Json::Bool(b),
        JsonValue::Number(n) => Json::Number(n.text@, n.channel),
        JsonValue::Str(s) => Json::Str(s@),
        JsonValue::Array(a) => Json::Array(items_view(a@)),
        JsonValue::Object(e) => Json::Object(entries_view(e@)),
    }
}

/// The models of a sequence of values.
pub open spec fn items_view(s: Seq<JsonValue>) -> Seq<Json>
    decreases s,
{
    if s.len() == 0 {
        Seq::empty()
    } else {
        items_view(s.drop_last()).push(json_view(s.last()))
    }
}

/// The models of a sequence of object members.
pub open spec fn entries_view(s: Seq<(String, JsonValue)>) -> Seq<(Seq<char>, Json)>
    decreases s,
{
    if s.len() == 0 {
        Seq::empty()
    } else {
        entries_view(s.drop_last()).push((s.last().0@, json_view(s.last().1)))
    }
}

impl View for JsonValue {
    type V = Json;

    open spec fn view(&self) -> Json {
        json_view(*self)
    }
}

/// The index of the first member with key `k`, or -1 where there is none.
pub open spec fn key_index(e: Seq<(String, JsonValue)>, k: Seq<char>) -> int {
    if exists|i: int| 0 <= i < e.len() && e[i].0@ == k && forall|j: int| 0 <= j < i ==> e[j].0@ != k {
        choose|i: int| 0 <= i < e.len() && e[i].0@ == k && forall|j: int| 0 <= j < i ==> e[j].0@ != k
    } else {
        -1
    }
}

/// The value of the first member with key `k` (`Map::get`).
pub open spec fn member(e: Seq<(String, JsonValue)>, k: Seq<char>) -> Option<JsonValue> {
    let i = key_index(e, k);
    if 0 <= i < e.len() {
        Some(e[i].1)
    } else {
        None
    }
}

/// The members of an object value; none for any other value.
pub open spec fn members_of(v: JsonValue) -> Seq<(String, JsonValue)> {
    match v {
        JsonValue::Object(e) => e@,
        _ => Seq::empty(),
    }
}

/// What `key_index` is: the first match, or none at all.
pub proof fn lemma_key_index(e: Seq<(String, JsonValue)>, k: Seq<char>)
    ensures
        -1 <= key_index(e, k) < e.len(),
        key_index(e, k) >= 0 ==> e[key_index(e, k)].0@ == k && forall|j: int|
            0 <= j < key_index(e, k) ==> e[j].0@ != k,
        key_index(e, k) == -1 ==> forall|j: int| 0 <= j < e.len() ==> e[j].0@ != k,
{
    if key_index(e, k) == -1 {
        assert forall|j: int| 0 <= j < e.len() implies e[j].0@ != k by {
            if e[j].0@ == k {
                let first = choose|i: int| 0 <= i <= j && e[i].0@ == k && forall|m: int|
                    0 <= m < i ==> e[m].0@ != k;
                lemma_first_match(e, k, j);
            }
        }
    }
}

proof fn lemma_first_match(e: Seq<(String, JsonValue)>, k: Seq<char>, j: int)
    requires
        0 <= j < e.len(),
        e[j].0@ == k,
    ensures
        exists|i: int| 0 <= i < e.len() && e[i].0@ == k && forall|m: int| 0 <= m < i ==> e[m].0@ != k,
    decreases j,
{
    if exists|m: int| 0 <= m < j && e[m].0@ == k {
        let m = choose|m: int| 0 <= m < j && e[m].0@ == k;
        lemma_first_match(e, k, m);
    } else {
        assert(forall|m: int| 0 <= m < j ==> e[m].0@ != k);
    }
}

/// Whether a key spells the given word.
pub fn key_is(key: &String, w: &str) -> (r: bool)
    ensures
        r == (key@ == w@),
{
    let kv = str_chars(key.as_str());
    let wv = str_chars(w);
    same_chars(&kv, &wv)
}

/// The index of the first member with key `k`.
pub fn find_key(e: &Vec<(String, JsonValue)>, k: &str) -> (r: Option<usize>)
    ensures
        match r {
            Some(i) => i == key_index(e@, k@) && i < e@.len(),
            None => key_index(e@, k@) == -1,
        },
{
    proof {
        lemma_key_index(e@, k@);
    }
    let mut i: usize = 0;
    while i < e.len()
        invariant
            i <= e.len(),
            forall|j: int| 0 <= j < i ==> e@[j].0@ != k@,
            -1 <= key_index(e@, k@) < e@.len(),
            key_index(e@, k@) >= 0 ==> e@[key_index(e@, k@)].0@ == k@ && forall|j: int|
                0 <= j < key_index(e@, k@) ==> e@[j].0@ != k@,
            key_index(e@, k@) == -1 ==> forall|j: int| 0 <= j < e@.len() ==> e@[j].0@ != k@,
        decreases e.len() - i,
    {
        if key_is(&e[i].0, k) {
            let ghost ki = key_index(e@, k@);
            assert(ki == i as int) by {
                assert(ki != -1);
                if ki < i {
                } else if ki > i {
                    assert(e@[i as int].0@ != k@);
                }
            }
            return Some(i);
        }
        i += 1;
    }
    None
}

proof fn lemma_items_view_len(s: Seq<JsonValue>)
    ensures
        items_view(s).len() == s.len(),
    decreases s.len(),
{
    if s.len() > 0 {
        lemma_items_view_len(s.drop_last());
    }
}

/// Appending a value appends its model.
pub proof fn lemma_items_view_push(s: Seq<JsonValue>, x: JsonValue)
    ensures
        items_view(s.push(x)) == items_view(s).push(json_view(x)),
{
    assert(s.push(x).drop_last() =~= s);
}

/// Appending a member appends its model.
pub proof fn lemma_entries_view_push(s: Seq<(String, JsonValue)>, x: (String, JsonValue))
    ensures
        entries_view(s.push(x)) == entries_view(s).push((x.0@, json_view(x.1))),
{
    assert(s.push(x).drop_last() =~= s);
}

/// A copy of a value, with the same model.
pub fn clone_json(v: &JsonValue) -> (r: JsonValue)
    ensures
        r@ == v@,
    decreases v,
{
    match v {
        JsonValue::Null => JsonValue::Null,
        JsonValue::Bool(b) => JsonValue::Bool(*b),
        JsonValue::Number(n) => JsonValue::Number(JsonNumber { text: n.text.clone(), channel: n.channel }),
        JsonValue::Str(s) => JsonValue::Str(s.clone()),
        JsonValue::Array(a) => {
            let mut out: Vec<JsonValue> = Vec::new();
            let mut i: usize = 0;
            while i < a.len()
                invariant
                    i <= a.len(),
                    items_view(out@) == items_view(a@.take(i as int)),
                    *v == JsonValue::Array(*a),
                decreases a.len() - i,
            {
                proof {
                    assert(decreases_to!(*v => (*v)->Array_0));
                    assert(decreases_to!(*a => a@[i as int])) by {
                        vstd::std_specs::vec::axiom_vec_index_decreases(*a, i as int);
                    }
                }
                let c = clone_json(&a[i]);
                proof {
                    lemma_items_view_push(out@, c);
                    lemma_items_view_push(a@.take(i as int), a@[i as int]);
                    assert(a@.take(i as int).push(a@[i as int]) =~= a@.take(i + 1));
                }
                out.push(c);
                i += 1;
            }
            assert(a@.take(a.len() as int) =~= a@);
            JsonValue::Array(out)
        },
        JsonValue::Object(e) => {
            let mut out: Vec<(String, JsonValue)> = Vec::new();
            let mut i: usize = 0;
            while i < e.len()
                invariant
                    i <= e.len(),
                    entries_view(out@) == entries_view(e@.take(i as int)),
                    *v == JsonValue::Object(*e),
                decreases e.len() - i,
            {
                proof {
                    assert(decreases_to!(*v => (*v)->Object_0));
                    assert(decreases_to!(*e => e@[i as int])) by {
                        vstd::std_specs::vec::axiom_vec_index_decreases(*e, i as int);
                    }
                    assert(decreases_to!(e@[i as int] => e@[i as int].1));
                }
                let c = clone_json(&e[i].1);
                let k = e[i].0.clone();
                proof {
                    lemma_entries_view_push(out@, (k, c));
                    lemma_entries_view_push(e@.take(i as int), e@[i as int]);
                    assert(e@.take(i as int).push(e@[i as int]) =~= e@.take(i + 1));
                }
                out.push((k, c));
                i += 1;
            }
            assert(e@.take(e.len() as int) =~= e@);
            JsonValue::Object(out)
        },
    }
}

/// Member `k` of a value; none where the value is not an object (`Value::get`).
pub open spec fn lookup(v: JsonValue, k: Seq<char>) -> Option<JsonValue> {
    member(members_of(v), k)
}

/// Member `k` of a value, by reference.
pub fn get_member<'a>(v: &'a JsonValue, k: &str) -> (r: Option<&'a JsonValue>)
    ensures
        match r {
            Some(x) => lookup(*v, k@) == Some(*x),
            None => lookup(*v, k@) is None,
        },
{
    match v {
        JsonValue::Object(e) => {
            proof {
                lemma_key_index(e@, k@);
            }
            match find_key(e, k) {
                Some(i) => Some(&e[i].1),
                None => None,
            }
        },
        _ => None,
    }
}

/// The text of member `k` where it is a string (`get` and `as_str`).
pub open spec fn lookup_str(v: JsonValue, k: Seq<char>) -> Option<Seq<char>> {
    match lookup(v, k) {
        Some(JsonValue::Str(s)) => Some(s@),
        _ => None,
    }
}

/// The text of member `k` where it is a string.
pub fn member_str(v: &JsonValue, k: &str) -> (r: Option<String>)
    ensures
        match r {
            Some(s) => lookup_str(*v, k@) == Some(s@),
            None => lookup_str(*v, k@) is None,
        },
{
    match get_member(v, k) {
        Some(JsonValue::Str(s)) => Some(s.clone()),
        _ => None,
    }
}

/// A string value.
pub fn json_string(s: &str) -> (r: JsonValue)
    ensures
        r@ == Json::Str(s@),
{
    JsonValue::Str(chars_to_string(&str_chars(s)))
}

/// The decimal text of an integer, with a minus sign when negative.
pub open spec fn int_text(n: i64) -> Seq<char> {
    if n < 0 {
        seq!['-'] + crate::text::decimal((-n) as nat)
    } else {
        crate::text::decimal(n as nat)
    }
}

/// An integer as a JSON number; its colour channel is 255 when it is
/// positive, else 0 (the integer times 255, clamped).
pub fn int_number(n: i64) -> (r: JsonValue)
    ensures
        r@ == Json::Number(int_text(n), if n > 0 { 255u8 } else { 0u8 }),
{
    let mut t: Vec<char> = Vec::new();
    let digits = if n < 0 {
        t.push('-');
        crate::text::decimal_u128_vec((0i128 - n as i128) as u128)
    } else {
        crate::text::decimal_u128_vec(n as u128)
    };
    crate::text::append_chars(&mut t, &digits);
    proof {
        if n < 0 {
            assert(t@ =~= int_text(n));
        } else {
            assert(t@ =~= int_text(n));
        }
    }
    JsonValue::Number(JsonNumber { text: chars_to_string(&t), channel: if n > 0 { 255 } else { 0 } })
}

/// Appends a member with the given key.
pub fn push_member(out: &mut Vec<(String, JsonValue)>, k: &str, v: JsonValue)
    ensures
        entries_view(final(out)@) == entries_view(old(out)@).push((k@, v@)),
{
    let key = chars_to_string(&str_chars(k));
    proof {
        lemma_entries_view_push(out@, (key, v));
    }
    out.push((key, v));
}

} // verus!
