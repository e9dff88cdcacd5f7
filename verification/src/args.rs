//! Reading tool arguments out of a call's JSON arguments, as the plugins
//! do: a key, or a camelCase key with a snake_case alternative; strings,
//! booleans, unsigned integers and lists of strings. Environment fallbacks
//! are read by the caller; turning their text into values is here.
use vstd::prelude::*;
use crate::text::{str_chars, chars_to_string, trim_seq, trim_vec, parse_u64, parse_u64_spec, all_digits};
use crate::json::{JsonValue, lookup, get_member};
use crate::figma_relay::either;
use crate::filesystem::{split_char, split_char_exec};
use crate::sidecar::strings_view;

verus! {

/// The argument under `key`, else under `alt` (`get(key).or_else(get(alt))`).
pub open spec fn arg2(args: JsonValue, key: Seq<char>, alt: Seq<char>) -> Option<JsonValue> {
    either(args, key, alt)
}

fn arg2_exec<'a>(args: &'a JsonValue, key: &str, alt: &str) -> (r: Option<&'a JsonValue>)
    ensures
        match r {
            Some(x) => arg2(*args, key@, alt@) == Some(*x),
            None => arg2(*args, key@, alt@) is None,
        },
{
    match get_member(args, key) {
        Some(x) => Some(x),
        None => get_member(args, alt),
    }
}

/// The text of an argument that is a string (`as_str`).
pub open spec fn as_text(v: Option<JsonValue>) -> Option<Seq<char>> {
    match v {
        Some(JsonValue::Str(s)) => Some(s@),
        _ => None,
    }
}

/// The value of an argument that is a boolean (`as_bool`).
pub open spec fn as_flag(v: Option<JsonValue>) -> Option<bool> {
    match v {
        Some(JsonValue::Bool(b)) => Some(b),
        _ => None,
    }
}

/// The value of an argument that is a non-negative integer that fits in
/// 64 bits (`as_u64`): a number written with decimal digits alone.
pub open spec fn as_count(v: Option<JsonValue>) -> Option<u64> {
    match v {
        Some(JsonValue::Number(n)) => if n.text@.len() > 0 && all_digits(n.text@) {
            parse_u64_spec(n.text@)
        } else {
            None
        },
        _ => None,
    }
}

fn text_of(v: Option<&JsonValue>) -> (r: Option<String>)
    ensures
        match r {
            Some(s) => as_text(match v { Some(x) => Some(*x), None => None }) == Some(s@),
            None => as_text(match v { Some(x) => Some(*x), None => None }) is None,
        },
{
    match v {
        Some(JsonValue::Str(s)) => Some(s.clone()),
        _ => None,
    }
}

fn flag_of(v: Option<&JsonValue>) -> (r: Option<bool>)
    ensures
        r == as_flag(match v { Some(x) => Some(*x), None => None }),
{
    match v {
        Some(JsonValue::Bool(b)) => Some(*b),
        _ => None,
    }
}

fn digits_only(t: &[char]) -> (b: bool)
    ensures
        b == (t@.len() > 0 && all_digits(t@)),
{
    let mut i: usize = 0;
    while i < t.len()
        invariant
            i <= t.len(),
            forall|k: int| 0 <= k < i ==> crate::text::is_digit(#[trigger] t@[k]),
        decreases t.len() - i,
    {
        if !('0' <= t[i] && t[i] <= '9') {
            assert(!crate::text::is_digit(t@[i as int]));
            return false;
        }
        i += 1;
    }
    t.len() > 0
}

fn count_of(v: Option<&JsonValue>) -> (r: Option<u64>)
    ensures
        r == as_count(match v { Some(x) => Some(*x), None => None }),
{
    match v {
        Some(JsonValue::Number(n)) => {
            let t = str_chars(n.text.as_str());
            if digits_only(&t) {
                parse_u64(&t)
            } else {
                None
            }
        },
        _ => None,
    }
}

/// A string argument.
pub fn str_arg(args: &JsonValue, key: &str) -> (r: Option<String>)
    ensures
        match r {
            Some(s) => as_text(lookup(*args, key@)) == Some(s@),
            None => as_text(lookup(*args, key@)) is None,
        },
{
    text_of(get_member(args, key))
}

/// A string argument under a camelCase key or its snake_case alternative.
pub fn str_arg2(args: &JsonValue, camel: &str, snake: &str) -> (r: Option<String>)
    ensures
        match r {
            Some(s) => as_text(arg2(*args, camel@, snake@)) == Some(s@),
            None => as_text(arg2(*args, camel@, snake@)) is None,
        },
{
    text_of(arg2_exec(args, camel, snake))
}

/// A boolean argument.
pub fn bool_arg(args: &JsonValue, key: &str) -> (r: Option<bool>)
    ensures
        r == as_flag(lookup(*args, key@)),
{
    flag_of(get_member(args, key))
}

/// A boolean argument under a camelCase key or its snake_case alternative.
pub fn bool_arg2(args: &JsonValue, camel: &str, snake: &str) -> (r: Option<bool>)
    ensures
        r == as_flag(arg2(*args, camel@, snake@)),
{
    flag_of(arg2_exec(args, camel, snake))
}

/// An unsigned integer argument.
pub fn u64_arg(args: &JsonValue, key: &str) -> (r: Option<u64>)
    ensures
        r == as_count(lookup(*args, key@)),
{
    count_of(get_member(args, key))
}

/// An unsigned integer argument under a camelCase key or its snake_case
/// alternative.
pub fn u64_arg2(args: &JsonValue, camel: &str, snake: &str) -> (r: Option<u64>)
    ensures
        r == as_count(arg2(*args, camel@, snake@)),
{
    count_of(arg2_exec(args, camel, snake))
}

/// The strings of a list, in order, other elements skipped.
pub open spec fn texts_of(s: Seq<JsonValue>) -> Seq<Seq<char>>
    decreases s.len(),
{
    if s.len() == 0 {
        Seq::empty()
    } else {
        match s.last() {
            JsonValue::Str(t) => texts_of(s.drop_last()).push(t@),
            _ => texts_of(s.drop_last()),
        }
    }
}

/// The strings of a list argument, where the argument is a list.
pub open spec fn str_list_spec(args: JsonValue, key: Seq<char>) -> Option<Seq<Seq<char>>> {
    match lookup(args, key) {
        Some(JsonValue::Array(a)) => Some(texts_of(a@)),
        _ => None,
    }
}

/// The strings of a list argument.
pub fn str_list_arg(args: &JsonValue, key: &str) -> (r: Option<Vec<String>>)
    ensures
        match r {
            Some(v) => str_list_spec(*args, key@) == Some(strings_view(v@)),
            None => str_list_spec(*args, key@) is None,
        },
{
    match get_member(args, key) {
        Some(JsonValue::Array(a)) => {
            let mut out: Vec<String> = Vec::new();
            let mut i: usize = 0;
            while i < a.len()
                invariant
                    i <= a.len(),
                    strings_view(out@) == texts_of(a@.take(i as int)),
                decreases a.len() - i,
            {
                assert(a@.take(i + 1).drop_last() =~= a@.take(i as int));
                if let JsonValue::Str(t) = &a[i] {
                    out.push(t.clone());
                    assert(strings_view(out@) =~= texts_of(a@.take(i as int)).push(t@));
                }
                i += 1;
            }
            assert(a@.take(a.len() as int) =~= a@);
            Some(out)
        },
        _ => None,
    }
}

/// The non-empty trimmed pieces of a comma-separated list.
pub open spec fn list_pieces(parts: Seq<Seq<char>>) -> Seq<Seq<char>>
    decreases parts.len(),
{
    if parts.len() == 0 {
        Seq::empty()
    } else if trim_seq(parts.last()).len() > 0 {
        list_pieces(parts.drop_last()).push(trim_seq(parts.last()))
    } else {
        list_pieces(parts.drop_last())
    }
}

/// Splits an environment value at commas, trimming each piece and dropping
/// empty ones.
pub fn split_list(v: &str) -> (r: Vec<String>)
    ensures
        strings_view(r@) == list_pieces(split_char(v@, ',')),
{
    let parts = split_char_exec(&str_chars(v), ',');
    let ghost ps = split_char(v@, ',');
    let mut out: Vec<String> = Vec::new();
    let mut i: usize = 0;
    while i < parts.len()
        invariant
            i <= parts.len(),
            crate::lines::vv(parts@) == ps,
            strings_view(out@) == list_pieces(ps.take(i as int)),
        decreases parts.len() - i,
    {
        assert(ps[i as int] == parts@[i as int]@);
        assert(ps.take(i + 1).drop_last() =~= ps.take(i as int));
        let t = trim_vec(&parts[i]);
        if t.len() > 0 {
            out.push(chars_to_string(&t));
            assert(strings_view(out@) =~= list_pieces(ps.take(i as int)).push(t@));
        }
        i += 1;
    }
    assert(ps.take(parts.len() as int) =~= ps);
    out
}

/// Parses an environment value as an unsigned integer (`str::parse`).
pub fn parse_count(v: &str) -> (r: Option<u64>)
    ensures
        r == parse_u64_spec(v@),
{
    parse_u64(&str_chars(v))
}

} // verus!
