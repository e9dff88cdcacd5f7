//! Pruning of a Figma node tree before it is handed to a language model:
//! vector primitives go, paints lose their variable bindings and image
//! references and get their colours as hexadecimal text, text styles keep a
//! few typographic fields, and the rest of a node is dropped.
use vstd::prelude::*;
use crate::text::{str_chars, chars_to_string, starts_with};
use crate::figma::{hex_color, hex_color_spec, is_hex_color_text};
use crate::json::{
    JsonValue, Json, json_view, items_view, entries_view, member, members_of, key_index,
    find_key, clone_json, key_is, lemma_key_index, lemma_items_view_push,
    lemma_entries_view_push,
};

verus! {

/// The colour channel that member `k` of a colour object holds: its
/// channel where it is a number, else `default` (`as_f64` and `unwrap_or`).
pub open spec fn channel_of(c: JsonValue, k: Seq<char>, default: u8) -> u8 {
    match member(members_of(c), k) {
        Some(JsonValue::Number(n)) => n.channel,
        _ => default,
    }
}

/// The hexadecimal text of a colour: a string that already starts with `#`
/// is kept; otherwise the channels `r`, `g`, `b` (0 where missing) and `a`
/// (opaque where missing) are written out.
pub open spec fn rgba_hex_spec(c: JsonValue) -> Seq<char> {
    if c is Str && starts_with(c->Str_0@, "#"@) {
        c->Str_0@
    } else {
        hex_color_spec(
            channel_of(c, "r"@, 0),
            channel_of(c, "g"@, 0),
            channel_of(c, "b"@, 0),
            channel_of(c, "a"@, 255),
        )
    }
}

fn channel(c: &JsonValue, k: &str, default: u8) -> (r: u8)
    ensures
        r == channel_of(*c, k@, default),
{
    match c {
        JsonValue::Object(e) => match find_key(e, k) {
            Some(i) => match &e[i].1 {
                JsonValue::Number(n) => n.channel,
                _ => default,
            },
            None => default,
        },
        _ => default,
    }
}

/// A colour as hexadecimal text (`#rrggbb`, or `#rrggbbaa` when not opaque).
pub fn rgba_to_hex(val: &JsonValue) -> (r: String)
    ensures
        r@ == rgba_hex_spec(*val),
{
    if let JsonValue::Str(s) = val {
        if is_hex_color_text(s.as_str()) {
            return s.clone();
        }
    }
    let r = channel(val, "r", 0);
    let g = channel(val, "g", 0);
    let b = channel(val, "b", 0);
    let a = channel(val, "a", 255);
    hex_color(r, g, b, a)
}

/// A member of a stroke or gradient stop: a colour becomes hexadecimal text.
pub open spec fn stroke_member(m: (String, JsonValue)) -> (Seq<char>, Json) {
    if m.0@ == "color"@ {
        (m.0@, Json::Str(rgba_hex_spec(m.1)))
    } else {
        (m.0@, json_view(m.1))
    }
}

/// The members of a stroke or gradient stop, without its variable bindings.
pub open spec fn stroke_entries(e: Seq<(String, JsonValue)>) -> Seq<(Seq<char>, Json)>
    decreases e.len(),
{
    if e.len() == 0 {
        Seq::empty()
    } else if e.last().0@ == "boundVariables"@ {
        stroke_entries(e.drop_last())
    } else {
        stroke_entries(e.drop_last()).push(stroke_member(e.last()))
    }
}

/// A member of a fill: a colour becomes hexadecimal text and each gradient
/// stop is cleaned as a stroke is.
pub open spec fn fill_member(m: (String, JsonValue)) -> (Seq<char>, Json) {
    if m.0@ == "color"@ {
        (m.0@, Json::Str(rgba_hex_spec(m.1)))
    } else if m.0@ == "gradientStops"@ && m.1 is Array {
        (m.0@, Json::Array(m.1->Array_0@.map_values(|s: JsonValue| stroke_spec(s))))
    } else {
        (m.0@, json_view(m.1))
    }
}

/// The members of a fill, without its variable bindings and image reference.
pub open spec fn fill_entries(e: Seq<(String, JsonValue)>) -> Seq<(Seq<char>, Json)>
    decreases e.len(),
{
    if e.len() == 0 {
        Seq::empty()
    } else if e.last().0@ == "boundVariables"@ || e.last().0@ == "imageRef"@ {
        fill_entries(e.drop_last())
    } else {
        fill_entries(e.drop_last()).push(fill_member(e.last()))
    }
}

/// A cleaned stroke or gradient stop. One that is not an object counts as
/// an empty one.
pub open spec fn stroke_spec(p: JsonValue) -> Json {
    Json::Object(stroke_entries(members_of(p)))
}

/// A cleaned paint: a fill, or else a stroke. A paint that is not an
/// object counts as an empty one.
pub open spec fn paint_spec(p: JsonValue, fill: bool) -> Json {
    if fill {
        Json::Object(fill_entries(members_of(p)))
    } else {
        stroke_spec(p)
    }
}

/// Member `k` copied as it is, where there is one.
pub open spec fn copy_member(e: Seq<(String, JsonValue)>, k: Seq<char>) -> Seq<(Seq<char>, Json)> {
    match member(e, k) {
        Some(x) => seq![(k, json_view(x))],
        None => Seq::empty(),
    }
}

/// Member `k`, a list of paints, cleaned, where it is an array.
pub open spec fn paints_member(e: Seq<(String, JsonValue)>, k: Seq<char>, fill: bool) -> Seq<(Seq<char>, Json)> {
    match member(e, k) {
        Some(JsonValue::Array(a)) => seq![(k, Json::Array(a@.map_values(|p: JsonValue| paint_spec(p, fill))))],
        _ => Seq::empty(),
    }
}

/// The typographic fields of a text style that are kept.
pub open spec fn style_fields(st: Seq<(String, JsonValue)>) -> Seq<(Seq<char>, Json)> {
    copy_member(st, "fontFamily"@) + copy_member(st, "fontStyle"@) + copy_member(st, "fontWeight"@)
        + copy_member(st, "fontSize"@) + copy_member(st, "textAlignHorizontal"@) + copy_member(
        st,
        "letterSpacing"@,
    ) + copy_member(st, "lineHeightPx"@)
}

/// The cleaned `style` member, where it is an object.
pub open spec fn style_member(e: Seq<(String, JsonValue)>) -> Seq<(Seq<char>, Json)> {
    match member(e, "style"@) {
        Some(JsonValue::Object(st)) => seq![("style"@, Json::Object(style_fields(st@)))],
        _ => Seq::empty(),
    }
}

/// Whether a node is a vector primitive.
pub open spec fn is_vector(e: Seq<(String, JsonValue)>) -> bool {
    match member(e, "type"@) {
        Some(JsonValue::Str(s)) => s@ == "VECTOR"@,
        _ => false,
    }
}

/// The members of a kept node, all but its children.
pub open spec fn node_fields(e: Seq<(String, JsonValue)>) -> Seq<(Seq<char>, Json)> {
    copy_member(e, "id"@) + copy_member(e, "name"@) + copy_member(e, "type"@) + paints_member(
        e,
        "fills"@,
        true,
    ) + paints_member(e, "strokes"@, false) + copy_member(e, "cornerRadius"@) + copy_member(
        e,
        "absoluteBoundingBox"@,
    ) + copy_member(e, "characters"@) + style_member(e)
}

/// A pruned node: none for a value that is not an object or for a vector
/// primitive; else its kept fields and, where it has an array of children,
/// the pruned children that are kept, in order.
pub open spec fn filter_node_spec(v: JsonValue) -> Option<Json>
    decreases v,
{
    match v {
        JsonValue::Object(o) => {
            let e = o@;
            if is_vector(e) {
                None
            } else {
                let ci = key_index(e, "children"@);
                if 0 <= ci < e.len() && e[ci].1 is Array {
                    proof {
                        assert(decreases_to!(v => v->Object_0));
                        vstd::std_specs::vec::axiom_vec_index_decreases(o, ci);
                        assert(decreases_to!(o@[ci] => o@[ci].1));
                        assert(decreases_to!(o@[ci].1 => o@[ci].1->Array_0));
                        vstd::std_specs::vec::axiom_vec_decreases_to_view(o@[ci].1->Array_0);
                    }
                    Some(
                        Json::Object(
                            node_fields(e).push(
                                ("children"@, Json::Array(filter_items(e[ci].1->Array_0@))),
                            ),
                        ),
                    )
                } else {
                    Some(Json::Object(node_fields(e)))
                }
            }
        },
        _ => None,
    }
}

/// The pruned nodes of a list that are kept, in order.
pub open spec fn filter_items(s: Seq<JsonValue>) -> Seq<Json>
    decreases s,
{
    if s.len() == 0 {
        Seq::empty()
    } else {
        match filter_node_spec(s.last()) {
            Some(x) => filter_items(s.drop_last()).push(x),
            None => filter_items(s.drop_last()),
        }
    }
}

fn key_string(k: &str) -> (s: String)
    ensures
        s@ == k@,
{
    chars_to_string(&str_chars(k))
}

fn clean_stroke(p: &JsonValue) -> (r: JsonValue)
    ensures
        r@ == paint_spec(*p, false),
{
    let mut out: Vec<(String, JsonValue)> = Vec::new();
    if let JsonValue::Object(e) = p {
        let mut i: usize = 0;
        while i < e.len()
            invariant
                i <= e.len(),
                entries_view(out@) == stroke_entries(e@.take(i as int)),
            decreases e.len() - i,
        {
            let key = &e[i].0;
            assert(e@.take(i + 1).drop_last() =~= e@.take(i as int));
            if !key_is(key, "boundVariables") {
                let val = if key_is(key, "color") {
                    JsonValue::Str(rgba_to_hex(&e[i].1))
                } else {
                    clone_json(&e[i].1)
                };
                proof {
                    lemma_entries_view_push(out@, (*key, val));
                }
                out.push((key.clone(), val));
            }
            i += 1;
        }
        assert(e@.take(e.len() as int) =~= e@);
    }
    JsonValue::Object(out)
}

fn clean_stops(a: &Vec<JsonValue>) -> (r: Vec<JsonValue>)
    ensures
        items_view(r@) == a@.map_values(|p: JsonValue| stroke_spec(p)),
{
    let mut out: Vec<JsonValue> = Vec::new();
    let mut i: usize = 0;
    while i < a.len()
        invariant
            i <= a.len(),
            items_view(out@) == a@.take(i as int).map_values(|p: JsonValue| stroke_spec(p)),
        decreases a.len() - i,
    {
        let c = clean_stroke(&a[i]);
        proof {
            lemma_items_view_push(out@, c);
            assert(a@.take(i + 1).map_values(|p: JsonValue| stroke_spec(p)) =~= a@.take(
                i as int,
            ).map_values(|p: JsonValue| stroke_spec(p)).push(stroke_spec(a@[i as int])));
        }
        out.push(c);
        i += 1;
    }
    assert(a@.take(a.len() as int) =~= a@);
    out
}

fn clean_paints(a: &Vec<JsonValue>, fill: bool) -> (r: Vec<JsonValue>)
    ensures
        items_view(r@) == a@.map_values(|p: JsonValue| paint_spec(p, fill)),
{
    let mut out: Vec<JsonValue> = Vec::new();
    let mut i: usize = 0;
    while i < a.len()
        invariant
            i <= a.len(),
            items_view(out@) == a@.take(i as int).map_values(|p: JsonValue| paint_spec(p, fill)),
        decreases a.len() - i,
    {
        let c = if fill {
            clean_fill(&a[i])
        } else {
            clean_stroke(&a[i])
        };
        proof {
            lemma_items_view_push(out@, c);
            assert(a@.take(i + 1).map_values(|p: JsonValue| paint_spec(p, fill)) =~= a@.take(
                i as int,
            ).map_values(|p: JsonValue| paint_spec(p, fill)).push(paint_spec(a@[i as int], fill)));
        }
        out.push(c);
        i += 1;
    }
    assert(a@.take(a.len() as int) =~= a@);
    out
}

fn clean_fill(p: &JsonValue) -> (r: JsonValue)
    ensures
        r@ == paint_spec(*p, true),
{
    let mut out: Vec<(String, JsonValue)> = Vec::new();
    if let JsonValue::Object(e) = p {
        let mut i: usize = 0;
        while i < e.len()
            invariant
                i <= e.len(),
                entries_view(out@) == fill_entries(e@.take(i as int)),
            decreases e.len() - i,
        {
            let key = &e[i].0;
            assert(e@.take(i + 1).drop_last() =~= e@.take(i as int));
            if !key_is(key, "boundVariables") && !key_is(key, "imageRef") {
                let val = if key_is(key, "color") {
                    JsonValue::Str(rgba_to_hex(&e[i].1))
                } else if key_is(key, "gradientStops") {
                    match &e[i].1 {
                        JsonValue::Array(stops) => JsonValue::Array(clean_stops(stops)),
                        other => clone_json(other),
                    }
                } else {
                    clone_json(&e[i].1)
                };
                proof {
                    lemma_entries_view_push(out@, (*key, val));
                }
                out.push((key.clone(), val));
            }
            i += 1;
        }
        assert(e@.take(e.len() as int) =~= e@);
    }
    JsonValue::Object(out)
}

fn push_copy(out: &mut Vec<(String, JsonValue)>, e: &Vec<(String, JsonValue)>, k: &str)
    ensures
        entries_view(final(out)@) == entries_view(old(out)@) + copy_member(e@, k@),
{
    proof {
        lemma_key_index(e@, k@);
    }
    match find_key(e, k) {
        Some(i) => {
            let val = clone_json(&e[i].1);
            let key = key_string(k);
            proof {
                lemma_entries_view_push(out@, (key, val));
            }
            out.push((key, val));
            assert(entries_view(final(out)@) =~= entries_view(old(out)@) + copy_member(e@, k@));
        },
        None => {
            assert(entries_view(old(out)@) + copy_member(e@, k@) =~= entries_view(old(out)@));
        },
    }
}

fn push_paints(out: &mut Vec<(String, JsonValue)>, e: &Vec<(String, JsonValue)>, k: &str, fill: bool)
    ensures
        entries_view(final(out)@) == entries_view(old(out)@) + paints_member(e@, k@, fill),
{
    proof {
        lemma_key_index(e@, k@);
    }
    if let Some(i) = find_key(e, k) {
        if let JsonValue::Array(a) = &e[i].1 {
            let val = JsonValue::Array(clean_paints(a, fill));
            let key = key_string(k);
            proof {
                lemma_entries_view_push(out@, (key, val));
            }
            out.push((key, val));
            assert(entries_view(final(out)@) =~= entries_view(old(out)@) + paints_member(e@, k@, fill));
            return;
        }
    }
    assert(entries_view(old(out)@) + paints_member(e@, k@, fill) =~= entries_view(old(out)@));
}

fn push_style(out: &mut Vec<(String, JsonValue)>, e: &Vec<(String, JsonValue)>)
    ensures
        entries_view(final(out)@) == entries_view(old(out)@) + style_member(e@),
{
    proof {
        lemma_key_index(e@, "style"@);
    }
    if let Some(i) = find_key(e, "style") {
        if let JsonValue::Object(st) = &e[i].1 {
            let mut clean: Vec<(String, JsonValue)> = Vec::new();
            push_copy(&mut clean, st, "fontFamily");
            push_copy(&mut clean, st, "fontStyle");
            push_copy(&mut clean, st, "fontWeight");
            push_copy(&mut clean, st, "fontSize");
            push_copy(&mut clean, st, "textAlignHorizontal");
            push_copy(&mut clean, st, "letterSpacing");
            push_copy(&mut clean, st, "lineHeightPx");
            assert(entries_view(clean@) =~= style_fields(st@));
            let val = JsonValue::Object(clean);
            let key = key_string("style");
            proof {
                lemma_entries_view_push(out@, (key, val));
            }
            out.push((key, val));
            assert(entries_view(final(out)@) =~= entries_view(old(out)@) + style_member(e@));
            return;
        }
    }
    assert(entries_view(old(out)@) + style_member(e@) =~= entries_view(old(out)@));
}

fn node_vector(e: &Vec<(String, JsonValue)>) -> (b: bool)
    ensures
        b == is_vector(e@),
{
    proof {
        lemma_key_index(e@, "type"@);
    }
    match find_key(e, "type") {
        Some(i) => match &e[i].1 {
            JsonValue::Str(s) => key_is(s, "VECTOR"),
            _ => false,
        },
        None => false,
    }
}

/// Prunes a Figma node for reading: `None` for a vector primitive (or a
/// value that is not an object), else the node with its identity, cleaned
/// paints, geometry, text, trimmed text style and pruned children.
pub fn filter_figma_node(node: &JsonValue) -> (r: Option<JsonValue>)
    ensures
        match r {
            Some(x) => filter_node_spec(*node) == Some(x@),
            None => filter_node_spec(*node) is None,
        },
    decreases node,
{
    match node {
        JsonValue::Object(e) => {
            if node_vector(e) {
                return None;
            }
            let mut out: Vec<(String, JsonValue)> = Vec::new();
            push_copy(&mut out, e, "id");
            push_copy(&mut out, e, "name");
            push_copy(&mut out, e, "type");
            push_paints(&mut out, e, "fills", true);
            push_paints(&mut out, e, "strokes", false);
            push_copy(&mut out, e, "cornerRadius");
            push_copy(&mut out, e, "absoluteBoundingBox");
            push_copy(&mut out, e, "characters");
            push_style(&mut out, e);
            assert(entries_view(out@) =~= node_fields(e@));
            proof {
                lemma_key_index(e@, "children"@);
            }
            if let Some(ci) = find_key(e, "children") {
                if let JsonValue::Array(cs) = &e[ci].1 {
                    let mut kids: Vec<JsonValue> = Vec::new();
                    let mut j: usize = 0;
                    while j < cs.len()
                        invariant
                            j <= cs.len(),
                            items_view(kids@) == filter_items(cs@.take(j as int)),
                            *node == JsonValue::Object(*e),
                            ci < e@.len(),
                            e@[ci as int].1 == JsonValue::Array(*cs),
                        decreases cs.len() - j,
                    {
                        proof {
                            assert(decreases_to!(*node => (*node)->Object_0));
                            vstd::std_specs::vec::axiom_vec_index_decreases(*e, ci as int);
                            assert(decreases_to!(e@[ci as int] => e@[ci as int].1));
                            assert(decreases_to!(e@[ci as int].1 => e@[ci as int].1->Array_0));
                            vstd::std_specs::vec::axiom_vec_index_decreases(*cs, j as int);
                            assert(cs@.take(j + 1).drop_last() =~= cs@.take(j as int));
                        }
                        match filter_figma_node(&cs[j]) {
                            Some(x) => {
                                proof {
                                    lemma_items_view_push(kids@, x);
                                }
                                kids.push(x);
                            },
                            None => {},
                        }
                        j += 1;
                    }
                    assert(cs@.take(cs.len() as int) =~= cs@);
                    let key = key_string("children");
                    let val = JsonValue::Array(kids);
                    proof {
                        lemma_entries_view_push(out@, (key, val));
                    }
                    out.push((key, val));
                    return Some(JsonValue::Object(out));
                }
            }
            Some(JsonValue::Object(out))
        },
        _ => None,
    }
}

} // verus!

verus! {

/// Whether a node of a pruned tree is free of vector primitives: none of
/// its `type` members is `VECTOR`, and every node in its `children` is
/// free of them too.
pub open spec fn vector_free(j: Json) -> bool
    decreases j,
{
    match j {
        Json::Object(e) => {
            proof {
                assert(decreases_to!(j => j->Object_0));
            }
            members_vector_free(e)
        },
        _ => true,
    }
}

/// Whether the members of a pruned node are free of vector primitives.
pub open spec fn members_vector_free(e: Seq<(Seq<char>, Json)>) -> bool
    decreases e,
{
    if e.len() == 0 {
        true
    } else {
        let m = e.last();
        proof {
            assert(decreases_to!(e => e[e.len() - 1]));
            assert(decreases_to!(e[e.len() - 1] => e[e.len() - 1].1));
        }
        &&& members_vector_free(e.drop_last())
        &&& (m.0 == "type"@ ==> m.1 != Json::Str("VECTOR"@))
        &&& (m.0 == "children"@ ==> match m.1 {
            Json::Array(cs) => {
                proof {
                    assert(decreases_to!(m.1 => m.1->Array_0));
                }
                nodes_vector_free(cs)
            },
            _ => true,
        })
    }
}

/// Whether every node of a list is free of vector primitives.
pub open spec fn nodes_vector_free(cs: Seq<Json>) -> bool
    decreases cs,
{
    if cs.len() == 0 {
        true
    } else {
        proof {
            assert(decreases_to!(cs => cs[cs.len() - 1]));
        }
        nodes_vector_free(cs.drop_last()) && vector_free(cs.last())
    }
}

proof fn lemma_members_concat(a: Seq<(Seq<char>, Json)>, b: Seq<(Seq<char>, Json)>)
    ensures
        members_vector_free(a + b) == (members_vector_free(a) && members_vector_free(b)),
    decreases b.len(),
{
    if b.len() == 0 {
        assert(a + b =~= a);
    } else {
        assert((a + b).drop_last() =~= a + b.drop_last());
        assert((a + b).last() == b.last());
        lemma_members_concat(a, b.drop_last());
    }
}

proof fn lemma_plain_member(k: Seq<char>, x: Json)
    requires
        k != "type"@,
        k != "children"@,
    ensures
        members_vector_free(seq![(k, x)]),
{
    assert(seq![(k, x)].drop_last() =~= Seq::<(Seq<char>, Json)>::empty());
    assert(members_vector_free(Seq::<(Seq<char>, Json)>::empty()));
}

proof fn lemma_node_fields_vector_free(e: Seq<(String, JsonValue)>)
    requires
        !is_vector(e),
    ensures
        members_vector_free(node_fields(e)),
{
    reveal_strlit("id");
    reveal_strlit("name");
    reveal_strlit("type");
    reveal_strlit("fills");
    reveal_strlit("strokes");
    reveal_strlit("cornerRadius");
    reveal_strlit("absoluteBoundingBox");
    reveal_strlit("characters");
    reveal_strlit("style");
    reveal_strlit("children");
    reveal_strlit("VECTOR");
    assert("id"@.len() != "type"@.len() && "id"@.len() != "children"@.len());
    assert("name"@[0] != "type"@[0] && "name"@.len() != "children"@.len());
    assert("fills"@.len() != "type"@.len() && "fills"@.len() != "children"@.len());
    assert("strokes"@.len() != "type"@.len() && "strokes"@.len() != "children"@.len());
    assert("cornerRadius"@.len() != "type"@.len() && "cornerRadius"@.len() != "children"@.len());
    assert("absoluteBoundingBox"@.len() != "type"@.len() && "absoluteBoundingBox"@.len() != "children"@.len());
    assert("characters"@.len() != "type"@.len() && "characters"@.len() != "children"@.len());
    assert("style"@.len() != "type"@.len() && "style"@.len() != "children"@.len());
    let empty = Seq::<(Seq<char>, Json)>::empty();
    assert(members_vector_free(empty));
    let id = copy_member(e, "id"@);
    let name = copy_member(e, "name"@);
    let ty = copy_member(e, "type"@);
    let fills = paints_member(e, "fills"@, true);
    let strokes = paints_member(e, "strokes"@, false);
    let radius = copy_member(e, "cornerRadius"@);
    let bbox = copy_member(e, "absoluteBoundingBox"@);
    let chars = copy_member(e, "characters"@);
    let style = style_member(e);
    if id.len() > 0 {
        lemma_plain_member("id"@, id[0].1);
        assert(id =~= seq![("id"@, id[0].1)]);
    }
    if name.len() > 0 {
        lemma_plain_member("name"@, name[0].1);
        assert(name =~= seq![("name"@, name[0].1)]);
    }
    if ty.len() > 0 {
        assert(ty.drop_last() =~= empty);
        assert(ty.last().1 != Json::Str("VECTOR"@));
    }
    if fills.len() > 0 {
        lemma_plain_member("fills"@, fills[0].1);
        assert(fills =~= seq![("fills"@, fills[0].1)]);
    }
    if strokes.len() > 0 {
        lemma_plain_member("strokes"@, strokes[0].1);
        assert(strokes =~= seq![("strokes"@, strokes[0].1)]);
    }
    if radius.len() > 0 {
        lemma_plain_member("cornerRadius"@, radius[0].1);
        assert(radius =~= seq![("cornerRadius"@, radius[0].1)]);
    }
    if bbox.len() > 0 {
        lemma_plain_member("absoluteBoundingBox"@, bbox[0].1);
        assert(bbox =~= seq![("absoluteBoundingBox"@, bbox[0].1)]);
    }
    if chars.len() > 0 {
        lemma_plain_member("characters"@, chars[0].1);
        assert(chars =~= seq![("characters"@, chars[0].1)]);
    }
    if style.len() > 0 {
        lemma_plain_member("style"@, style[0].1);
        assert(style =~= seq![("style"@, style[0].1)]);
    }
    lemma_members_concat(id, name);
    lemma_members_concat(id + name, ty);
    lemma_members_concat(id + name + ty, fills);
    lemma_members_concat(id + name + ty + fills, strokes);
    lemma_members_concat(id + name + ty + fills + strokes, radius);
    lemma_members_concat(id + name + ty + fills + strokes + radius, bbox);
    lemma_members_concat(id + name + ty + fills + strokes + radius + bbox, chars);
    lemma_members_concat(id + name + ty + fills + strokes + radius + bbox + chars, style);
}

proof fn lemma_items_vector_free(s: Seq<JsonValue>)
    ensures
        nodes_vector_free(filter_items(s)),
    decreases s,
{
    if s.len() > 0 {
        lemma_items_vector_free(s.drop_last());
        law_pruned_tree_has_no_vectors(s.last());
        let prefix = filter_items(s.drop_last());
        match filter_node_spec(s.last()) {
            Some(x) => {
                assert(prefix.push(x).drop_last() =~= prefix);
            },
            None => {},
        }
    }
}

/// Pruning leaves no vector primitive anywhere: a kept node is not of type
/// `VECTOR`, and neither is any node among its children at any depth.
pub proof fn law_pruned_tree_has_no_vectors(node: JsonValue)
    ensures
        filter_node_spec(node) matches Some(j) ==> vector_free(j),
    decreases node,
{
    match node {
        JsonValue::Object(o) => {
            let e = o@;
            if !is_vector(e) {
                lemma_node_fields_vector_free(e);
                let ci = key_index(e, "children"@);
                if 0 <= ci < e.len() && e[ci].1 is Array {
                    assert(decreases_to!(node => node->Object_0));
                    vstd::std_specs::vec::axiom_vec_index_decreases(o, ci);
                    assert(decreases_to!(o@[ci] => o@[ci].1));
                    assert(decreases_to!(o@[ci].1 => o@[ci].1->Array_0));
                    vstd::std_specs::vec::axiom_vec_decreases_to_view(o@[ci].1->Array_0);
                    let kids = e[ci].1->Array_0@;
                    lemma_items_vector_free(kids);
                    let out = node_fields(e).push(("children"@, Json::Array(filter_items(kids))));
                    assert(out.drop_last() =~= node_fields(e));
                }
            }
        },
        _ => {},
    }
}

} // verus!
