//! HTML to Markdown conversion used by the fetch plugin: a single pass over
//! the characters of the page that drops scripts and styles and renders
//! headings, links, lists and inline markup, followed by HTML entity
//! decoding and blank-line clean-up.
use vstd::prelude::*;
use crate::text::{
    append_chars, append_str, char_at_byte, chars_to_string, contains_seq, find_first, first_occ,
    is_whitespace, is_ws, lowercase_vec, occurs_at, str_chars, trim_bounds, trim_end_seq,
    trim_start_seq, lowercase_spec, unicode_lower, utf8_len, utf8_len_exec, byte_to_char,
    lemma_trim_end_take,
};
use crate::lines::{find_char, find_char_from, lemma_find_char_bounds, lemma_find_char_unique};

verus! {

/// Whether two character slices hold the same characters.
pub fn same_chars(a: &[char], b: &[char]) -> (r: bool)
    ensures
        r == (a@ == b@),
{
    if a.len() != b.len() {
        return false;
    }
    let mut i: usize = 0;
    while i < a.len()
        invariant
            i <= a.len(),
            a.len() == b.len(),
            forall|k: int| 0 <= k < i ==> a@[k] == b@[k],
        decreases a.len() - i,
    {
        if a[i] != b[i] {
            return false;
        }
        i += 1;
    }
    assert(a@ =~= b@);
    true
}

/// Whether the characters of `v` spell the word `w`.
pub fn is_word(v: &[char], w: &str) -> (r: bool)
    ensures
        r == (v@ == w@),
{
    let wv = str_chars(w);
    same_chars(v, &wv)
}

// ---------------------------------------------------------------------
// Line helpers on the output buffer
// ---------------------------------------------------------------------

/// `output` with a line break appended unless it is empty or already ends
/// with one.
pub open spec fn newline_spec(out: Seq<char>) -> Seq<char> {
    if out.len() > 0 && out.last() != '\n' {
        out.push('\n')
    } else {
        out
    }
}

/// `output` with its trailing whitespace replaced by one blank line, unless
/// nothing but whitespace is in it (then it is unchanged).
pub open spec fn blank_line_spec(out: Seq<char>) -> Seq<char> {
    if trim_end_seq(out).len() > 0 {
        trim_end_seq(out) + seq!['\n', '\n']
    } else {
        out
    }
}

pub fn newline_vec(out: &mut Vec<char>)
    ensures
        final(out)@ == newline_spec(old(out)@),
{
    if out.len() > 0 && out[out.len() - 1] != '\n' {
        out.push('\n');
    }
}

pub fn blank_line_vec(out: &mut Vec<char>)
    ensures
        final(out)@ == blank_line_spec(old(out)@),
{
    let mut end = out.len();
    while end > 0 && is_whitespace(out[end - 1])
        invariant
            end <= out.len(),
            forall|k: int| end <= k < out@.len() ==> is_ws(#[trigger] out@[k]),
        decreases end,
    {
        end -= 1;
    }
    proof {
        lemma_trim_end_take(out@, end as int);
        let u = out@.take(end as int);
        if u.len() > 0 {
            assert(u.last() == out@[end - 1]);
        }
        assert(trim_end_seq(u) == u);
    }
    if end > 0 {
        out.truncate(end);
        out.push('\n');
        out.push('\n');
    }
}

/// Appends a line break unless the text is empty or already ends with one.
pub fn ensure_newline(output: &mut String)
    ensures
        final(output)@ == newline_spec(old(output)@),
{
    let mut v = str_chars(output.as_str());
    newline_vec(&mut v);
    *output = chars_to_string(&v);
}

/// Replaces trailing whitespace by exactly one blank line, unless the text
/// holds nothing but whitespace.
pub fn ensure_blank_line(output: &mut String)
    ensures
        final(output)@ == blank_line_spec(old(output)@),
{
    let mut v = str_chars(output.as_str());
    blank_line_vec(&mut v);
    *output = chars_to_string(&v);
}

// ---------------------------------------------------------------------
// Attribute extraction
// ---------------------------------------------------------------------

/// Position of the first character that is whitespace or `>`, or the length.
pub open spec fn value_end(s: Seq<char>) -> int
    decreases s.len(),
{
    if s.len() == 0 {
        0
    } else if is_ws(s[0]) || s[0] == '>' {
        0
    } else {
        1 + value_end(s.drop_first())
    }
}

proof fn lemma_value_end_unique(s: Seq<char>, i: int)
    requires
        0 <= i <= s.len(),
        i < s.len() ==> (is_ws(s[i]) || s[i] == '>'),
        forall|k: int| 0 <= k < i ==> !(is_ws(#[trigger] s[k]) || s[k] == '>'),
    ensures
        value_end(s) == i,
    decreases s.len(),
{
    if s.len() > 0 && i > 0 {
        assert(!(is_ws(s[0]) || s[0] == '>'));
        assert forall|k: int| 0 <= k < i - 1 implies !(is_ws(#[trigger] s.drop_first()[k])
            || s.drop_first()[k] == '>') by {
            assert(s.drop_first()[k] == s[k + 1]);
        }
        lemma_value_end_unique(s.drop_first(), i - 1);
    }
}

/// The pattern searched for an attribute: its lower-cased name and `=`.
pub open spec fn attr_pattern(attr: Seq<char>) -> Seq<char> {
    lowercase_spec(attr).push('=')
}

/// Byte offset, in the lower-cased tag, just past the first `name=`.
pub open spec fn attr_value_byte(tag: Seq<char>, attr: Seq<char>) -> int {
    let lt = lowercase_spec(tag);
    let pat = attr_pattern(attr);
    (utf8_len(lt.take(first_occ(lt, pat))) + utf8_len(pat)) as int
}

/// Whether that byte offset, taken in the tag as written, falls on a
/// character boundary (lower-casing may change byte lengths).
pub open spec fn attr_slice_ok(tag: Seq<char>, attr: Seq<char>) -> bool {
    !contains_seq(lowercase_spec(tag), attr_pattern(attr)) || byte_to_char(
        tag,
        attr_value_byte(tag, attr),
    ) is Some
}

/// The value that follows `name=`: a quoted value up to its closing quote
/// (none if unterminated), or an unquoted one up to whitespace or `>`.
pub open spec fn attr_value_text(after: Seq<char>) -> Option<Seq<char>> {
    if after.len() == 0 {
        None
    } else if after[0] == '"' || after[0] == '\'' {
        let rest = after.drop_first();
        let k = find_char(rest, after[0]);
        if k < rest.len() {
            Some(rest.take(k))
        } else {
            None
        }
    } else {
        Some(after.take(value_end(after)))
    }
}

/// The value of attribute `attr` in the tag text `tag`, found case-blind.
pub open spec fn extract_attribute_spec(tag: Seq<char>, attr: Seq<char>) -> Option<Seq<char>> {
    if !contains_seq(lowercase_spec(tag), attr_pattern(attr)) {
        None
    } else {
        match byte_to_char(tag, attr_value_byte(tag, attr)) {
            Some(q) => attr_value_text(trim_start_seq(tag.skip(q as int))),
            None => None,
        }
    }
}

pub open spec fn opt_chars(o: Option<Vec<char>>) -> Option<Seq<char>> {
    match o {
        Some(v) => Some(v@),
        None => None,
    }
}

pub open spec fn opt_string(o: Option<String>) -> Option<Seq<char>> {
    match o {
        Some(s) => Some(s@),
        None => None,
    }
}

/// Finds `name=` case-blind: whether it occurs, and the character position
/// in `tag` where its value text starts, if that is a boundary.
fn locate_attribute(tag: &[char], attr: &[char]) -> (r: (bool, Option<usize>))
    ensures
        r.0 == contains_seq(lowercase_spec(tag@), attr_pattern(attr@)),
        r.0 ==> match r.1 {
            Some(q) => byte_to_char(tag@, attr_value_byte(tag@, attr@)) == Some(q as nat)
                && q <= tag.len(),
            None => byte_to_char(tag@, attr_value_byte(tag@, attr@)) is None,
        },
{
    let lt = lowercase_vec(tag);
    let mut pat = lowercase_vec(attr);
    pat.push('=');
    match find_first(&lt, &pat) {
        None => (false, None),
        Some(p) => {
            let head = crate::text::slice_vec(&lt, 0, p);
            assert(head@ =~= lt@.take(p as int));
            let b = utf8_len_exec(&head) + utf8_len_exec(&pat);
            (true, char_at_byte(tag, b))
        },
    }
}

/// Index of the first whitespace or `>` at or after `from`.
fn find_value_end(v: &[char], from: usize) -> (i: usize)
    requires
        from <= v.len(),
    ensures
        from <= i <= v.len(),
        i - from == value_end(v@.skip(from as int)),
{
    let mut i = from;
    while i < v.len() && !(is_whitespace(v[i]) || v[i] == '>')
        invariant
            from <= i <= v.len(),
            forall|k: int| from <= k < i ==> !(is_ws(#[trigger] v@[k]) || v@[k] == '>'),
        decreases v.len() - i,
    {
        i += 1;
    }
    proof {
        let t = v@.skip(from as int);
        assert forall|k: int| 0 <= k < i - from implies !(is_ws(#[trigger] t[k]) || t[k] == '>') by {
            assert(t[k] == v@[k + from]);
        }
        if i < v.len() {
            assert(t[i - from] == v@[i as int]);
        }
        lemma_value_end_unique(t, i - from);
    }
    i
}

fn attr_value_exec(after: &[char]) -> (r: Option<Vec<char>>)
    ensures
        opt_chars(r) == attr_value_text(after@),
{
    if after.len() == 0 {
        return None;
    }
    let quote = after[0];
    if quote == '"' || quote == '\'' {
        let k = find_char_from(after, quote, 1);
        assert(after@.drop_first() =~= after@.skip(1));
        if k < after.len() {
            let out = crate::text::slice_vec(after, 1, k);
            assert(out@ =~= after@.drop_first().take(k - 1));
            Some(out)
        } else {
            None
        }
    } else {
        let e = find_value_end(after, 0);
        assert(after@.skip(0) =~= after@);
        let out = crate::text::slice_vec(after, 0, e);
        assert(out@ =~= after@.take(e as int));
        Some(out)
    }
}

/// Whether the value of `attr` can be cut out of `tag` at a character
/// boundary (always so when lower-casing keeps byte lengths, as on ASCII).
pub fn attribute_slice_ok(tag: &str, attr: &str) -> (b: bool)
    ensures
        b == attr_slice_ok(tag@, attr@),
{
    let tv = str_chars(tag);
    let av = str_chars(attr);
    let (found, at) = locate_attribute(&tv, &av);
    !found || at.is_some()
}

/// The value of attribute `attr` in a tag's text, matched case-blind on the
/// attribute name: quoted values run to the closing quote, unquoted ones to
/// whitespace or `>`.
pub fn extract_attribute(tag: &str, attr: &str) -> (r: Option<String>)
    requires
        attr_slice_ok(tag@, attr@),
    ensures
        opt_string(r) == extract_attribute_spec(tag@, attr@),
{
    let tv = str_chars(tag);
    let av = str_chars(attr);
    let (found, at) = locate_attribute(&tv, &av);
    if !found {
        return None;
    }
    match at {
        None => None,
        Some(q) => {
            let rest = crate::text::slice_vec(&tv, q, tv.len());
            let (s, _e) = trim_bounds(&rest);
            let after = crate::text::slice_vec(&rest, s, rest.len());
            assert(rest@ =~= tv@.skip(q as int));
            assert(after@ =~= rest@.skip(s as int));
            match attr_value_exec(&after) {
                Some(v) => Some(chars_to_string(&v)),
                None => None,
            }
        },
    }
}

} // verus!

verus! {

// ---------------------------------------------------------------------
// HTML entities
// ---------------------------------------------------------------------

/// Reads an entity name after `&`: characters that are alphanumeric or `#`,
/// stopping at `;` (consumed, second component true), at any other
/// character or the end, or right after the name passes ten bytes.
/// The first component counts the name's characters.
pub open spec fn entity_scan(s: Seq<char>, used: nat) -> (nat, bool)
    decreases s.len(),
{
    if s.len() == 0 {
        (0, false)
    } else if s[0] == ';' {
        (0, true)
    } else if crate::text::unicode_alnum(s[0]) || s[0] == '#' {
        if used + crate::text::utf8_width(s[0]) > 10 {
            (1, false)
        } else {
            let r = entity_scan(s.drop_first(), used + crate::text::utf8_width(s[0]));
            ((r.0 + 1) as nat, r.1)
        }
    } else {
        (0, false)
    }
}

pub proof fn lemma_entity_scan_bounds(s: Seq<char>, used: nat)
    ensures
        entity_scan(s, used).0 <= s.len(),
        entity_scan(s, used).1 ==> entity_scan(s, used).0 < s.len() && s[entity_scan(
            s,
            used,
        ).0 as int] == ';',
    decreases s.len(),
{
    if s.len() > 0 && s[0] != ';' && (crate::text::unicode_alnum(s[0]) || s[0] == '#') && used
        + crate::text::utf8_width(s[0]) <= 10 {
        lemma_entity_scan_bounds(s.drop_first(), used + crate::text::utf8_width(s[0]));
    }
}

/// The text an entity name stands for, or the entity as written.
pub open spec fn entity_text(e: Seq<char>) -> Seq<char> {
    let literal = seq!['&'] + e + seq![';'];
    if e == "amp"@ {
        seq!['&']
    } else if e == "lt"@ {
        seq!['<']
    } else if e == "gt"@ {
        seq!['>']
    } else if e == "quot"@ {
        seq!['"']
    } else if e == "apos"@ {
        seq!['\'']
    } else if e == "nbsp"@ {
        seq![' ']
    } else if e == "copy"@ {
        seq!['\u{a9}']
    } else if e == "mdash"@ {
        seq!['\u{2014}']
    } else if e == "ndash"@ {
        seq!['\u{2013}']
    } else if e.len() >= 2 && e[0] == '#' && (e[1] == 'x' || e[1] == 'X') {
        match crate::text::parse_hex_u32_spec(e.skip(2)) {
            Some(code) => if crate::text::is_scalar(code) {
                seq![code as char]
            } else {
                literal
            },
            None => literal,
        }
    } else if e.len() >= 1 && e[0] == '#' {
        match crate::text::parse_u32_spec(e.skip(1)) {
            Some(code) => if crate::text::is_scalar(code) {
                seq![code as char]
            } else {
                literal
            },
            None => literal,
        }
    } else {
        literal
    }
}

/// `s` with its HTML entities decoded.
pub open spec fn decode_spec(s: Seq<char>) -> Seq<char>
    decreases s.len(),
{
    if s.len() == 0 {
        seq![]
    } else if s[0] != '&' {
        seq![s[0]] + decode_spec(s.drop_first())
    } else {
        let t = s.drop_first();
        let r = entity_scan(t, 0);
        proof {
            lemma_entity_scan_bounds(t, 0);
        }
        if r.1 {
            entity_text(t.take(r.0 as int)) + decode_spec(t.skip(r.0 as int + 1))
        } else {
            seq!['&'] + t.take(r.0 as int) + decode_spec(t.skip(r.0 as int))
        }
    }
}

/// Reads the entity name that starts at `from`.
fn scan_entity(s: &[char], from: usize) -> (r: (usize, bool))
    requires
        from <= s.len(),
    ensures
        r.0 == entity_scan(s@.skip(from as int), 0).0,
        r.1 == entity_scan(s@.skip(from as int), 0).1,
{
    let mut j = from;
    let mut used: usize = 0;
    let ghost t = s@.skip(from as int);
    assert(t.skip(0) =~= t);
    while j < s.len()
        invariant
            from <= j <= s.len(),
            t == s@.skip(from as int),
            used <= 10,
            entity_scan(t, 0).0 == (j - from) + entity_scan(s@.skip(j as int), used as nat).0,
            entity_scan(t, 0).1 == entity_scan(s@.skip(j as int), used as nat).1,
        decreases s.len() - j,
    {
        let c = s[j];
        let ghost u = s@.skip(j as int);
        assert(u[0] == c);
        assert(u.drop_first() =~= s@.skip(j + 1));
        if c == ';' {
            return (j - from, true);
        }
        if crate::text::is_alphanumeric(c) || c == '#' {
            let w = crate::text::char_width(c);
            if used + w > 10 {
                return (j - from + 1, false);
            }
            used = used + w;
            j = j + 1;
        } else {
            return (j - from, false);
        }
    }
    assert(s@.skip(j as int).len() == 0);
    (j - from, false)
}

fn push_literal_entity(out: &mut Vec<char>, e: &[char])
    ensures
        final(out)@ == old(out)@ + (seq!['&'] + e@ + seq![';']),
{
    out.push('&');
    append_chars(out, e);
    out.push(';');
    assert(old(out)@.push('&') + e@ + seq![';'] =~= old(out)@ + (seq!['&'] + e@ + seq![';']));
}

fn push_code_point(out: &mut Vec<char>, code: Option<u32>, e: &[char])
    ensures
        final(out)@ == old(out)@ + match code {
            Some(c) => if crate::text::is_scalar(c) {
                seq![c as char]
            } else {
                seq!['&'] + e@ + seq![';']
            },
            None => seq!['&'] + e@ + seq![';'],
        },
{
    match code {
        Some(c) => match crate::text::char_from_u32(c) {
            Some(ch) => {
                out.push(ch);
            },
            None => push_literal_entity(out, e),
        },
        None => push_literal_entity(out, e),
    }
}

fn push_entity(out: &mut Vec<char>, e: &[char])
    ensures
        final(out)@ == old(out)@ + entity_text(e@),
{
    let single: Option<char> = if is_word(e, "amp") {
        Some('&')
    } else if is_word(e, "lt") {
        Some('<')
    } else if is_word(e, "gt") {
        Some('>')
    } else if is_word(e, "quot") {
        Some('"')
    } else if is_word(e, "apos") {
        Some('\'')
    } else if is_word(e, "nbsp") {
        Some(' ')
    } else if is_word(e, "copy") {
        Some('\u{a9}')
    } else if is_word(e, "mdash") {
        Some('\u{2014}')
    } else if is_word(e, "ndash") {
        Some('\u{2013}')
    } else {
        None
    };
    match single {
        Some(c) => {
            out.push(c);
        },
        None => {
            if e.len() >= 2 && e[0] == '#' && (e[1] == 'x' || e[1] == 'X') {
                let digits = crate::text::slice_vec(e, 2, e.len());
                assert(digits@ =~= e@.skip(2));
                let code = crate::text::parse_hex_u32(&digits);
                push_code_point(out, code, e);
            } else if e.len() >= 1 && e[0] == '#' {
                let digits = crate::text::slice_vec(e, 1, e.len());
                assert(digits@ =~= e@.skip(1));
                let code = crate::text::parse_u32(&digits);
                push_code_point(out, code, e);
            } else {
                push_literal_entity(out, e);
            }
        },
    }
}

fn decode_vec(s: &[char]) -> (out: Vec<char>)
    ensures
        out@ == decode_spec(s@),
{
    let mut out: Vec<char> = Vec::new();
    let mut i: usize = 0;
    assert(s@.skip(0) =~= s@);
    while i < s.len()
        invariant
            i <= s.len(),
            out@ + decode_spec(s@.skip(i as int)) == decode_spec(s@),
        decreases s.len() - i,
    {
        let ghost u = s@.skip(i as int);
        let ghost before = out@;
        if s[i] != '&' {
            assert(u.drop_first() =~= s@.skip(i + 1));
            out.push(s[i]);
            assert(before + decode_spec(u) =~= out@ + decode_spec(s@.skip(i + 1)));
            i += 1;
        } else {
            let (k, semi) = scan_entity(s, i + 1);
            assert(u.drop_first() =~= s@.skip(i + 1));
            proof {
                lemma_entity_scan_bounds(s@.skip(i + 1), 0);
            }
            let e = crate::text::slice_vec(s, i + 1, i + 1 + k);
            assert(e@ =~= s@.skip(i + 1).take(k as int));
            if semi {
                push_entity(&mut out, &e);
                assert(s@.skip(i + 1).skip(k + 1) =~= s@.skip(i + 2 + k));
                assert(before + decode_spec(u) =~= out@ + decode_spec(s@.skip(i + 2 + k)));
                i = i + 2 + k;
            } else {
                out.push('&');
                append_chars(&mut out, &e);
                assert(s@.skip(i + 1).skip(k as int) =~= s@.skip(i + 1 + k));
                assert(before + decode_spec(u) =~= out@ + decode_spec(s@.skip(i + 1 + k)));
                i = i + 1 + k;
            }
        }
    }
    assert(s@.skip(i as int).len() == 0);
    assert(out@ + decode_spec(s@.skip(i as int)) =~= out@);
    out
}

/// Decodes the named entities `&amp; &lt; &gt; &quot; &apos; &nbsp; &copy;
/// &mdash; &ndash;` and numeric ones (`&#NN;`, `&#xHH;`); anything else is
/// kept as written.
pub fn decode_html_entities(input: &str) -> (r: String)
    ensures
        r@ == decode_spec(input@),
{
    let v = str_chars(input);
    let d = decode_vec(&v);
    chars_to_string(&d)
}

} // verus!

verus! {

// ---------------------------------------------------------------------
// Whitespace clean-up
// ---------------------------------------------------------------------

/// Trims each line and keeps one empty line of each run of empty lines;
/// `in_run` tells whether the line before `ls` was empty.
pub open spec fn clean_fold(ls: Seq<Seq<char>>, acc: Seq<Seq<char>>, in_run: bool) -> Seq<
    Seq<char>,
>
    decreases ls.len(),
{
    if ls.len() == 0 {
        acc
    } else {
        let t = crate::text::trim_seq(ls[0]);
        if t.len() == 0 {
            if in_run {
                clean_fold(ls.drop_first(), acc, true)
            } else {
                clean_fold(ls.drop_first(), acc.push(seq![]), true)
            }
        } else {
            clean_fold(ls.drop_first(), acc.push(t), false)
        }
    }
}

/// The text with each line trimmed, runs of empty lines reduced to one, and
/// the whole trimmed.
pub open spec fn clean_ws_spec(s: Seq<char>) -> Seq<char> {
    crate::text::trim_seq(
        crate::lines::join_seq(
            clean_fold(crate::lines::lines_seq(s), seq![], false),
            seq!['\n'],
        ),
    )
}

fn clean_vec(s: &[char]) -> (out: Vec<char>)
    ensures
        out@ == clean_ws_spec(s@),
{
    let ls = crate::lines::split_lines(s);
    let ghost lsv = crate::lines::vv(ls@);
    let mut acc: Vec<Vec<char>> = Vec::new();
    let mut in_run = false;
    let mut i: usize = 0;
    assert(lsv.skip(0) =~= lsv);
    assert(crate::lines::vv(acc@) =~= Seq::<Seq<char>>::empty());
    while i < ls.len()
        invariant
            i <= ls.len(),
            lsv == crate::lines::vv(ls@),
            lsv == crate::lines::lines_seq(s@),
            clean_fold(lsv, seq![], false) == clean_fold(
                lsv.skip(i as int),
                crate::lines::vv(acc@),
                in_run,
            ),
        decreases ls.len() - i,
    {
        let ghost rest = lsv.skip(i as int);
        assert(rest[0] == ls@[i as int]@);
        assert(rest.drop_first() =~= lsv.skip(i + 1));
        let t = crate::text::trim_vec(&ls[i]);
        if t.len() == 0 {
            if !in_run {
                let empty: Vec<char> = Vec::new();
                let ghost before = crate::lines::vv(acc@);
                acc.push(empty);
                assert(crate::lines::vv(acc@) =~= before.push(seq![]));
            }
            in_run = true;
        } else {
            let ghost before = crate::lines::vv(acc@);
            acc.push(t);
            assert(crate::lines::vv(acc@) =~= before.push(t@));
            in_run = false;
        }
        i += 1;
    }
    assert(lsv.skip(i as int).len() == 0);
    let sep = vec!['\n'];
    assert(sep@ =~= seq!['\n']);
    let joined = crate::lines::join_vecs(&acc, &sep);
    crate::text::trim_vec(&joined)
}

/// Trims every line, keeps at most one empty line in a row, and trims the
/// result.
pub fn clean_markdown_whitespace(input: &str) -> (r: String)
    ensures
        r@ == clean_ws_spec(input@),
{
    let v = str_chars(input);
    let c = clean_vec(&v);
    chars_to_string(&c)
}

} // verus!

verus! {

// ---------------------------------------------------------------------
// The conversion pass
// ---------------------------------------------------------------------

/// The state of the conversion after a prefix of the page: the Markdown
/// written so far, how deep inside skipped elements (`script`, `style`,
/// `svg`, `noscript`) the pass is, the targets of the open links, the kinds
/// of the open lists (`u` or `o`), the next number of each open ordered
/// list, and whether the pass could go on (it stops where an `href` cannot
/// be cut out of its tag).
pub struct MdState {
    pub out: Seq<char>,
    pub skip: nat,
    pub links: Seq<Option<Seq<char>>>,
    pub lists: Seq<char>,
    pub counters: Seq<nat>,
    pub ok: bool,
}

pub open spec fn md_init() -> MdState {
    MdState { out: seq![], skip: 0, links: seq![], lists: seq![], counters: seq![], ok: true }
}

pub open spec fn set_out(st: MdState, o: Seq<char>) -> MdState {
    MdState { out: o, skip: st.skip, links: st.links, lists: st.lists, counters: st.counters, ok: st.ok }
}

pub open spec fn set_skip(st: MdState, d: nat) -> MdState {
    MdState { out: st.out, skip: d, links: st.links, lists: st.lists, counters: st.counters, ok: st.ok }
}

pub open spec fn set_links(st: MdState, l: Seq<Option<Seq<char>>>) -> MdState {
    MdState { out: st.out, skip: st.skip, links: l, lists: st.lists, counters: st.counters, ok: st.ok }
}

pub open spec fn set_lists(st: MdState, l: Seq<char>) -> MdState {
    MdState { out: st.out, skip: st.skip, links: st.links, lists: l, counters: st.counters, ok: st.ok }
}

pub open spec fn set_counters(st: MdState, c: Seq<nat>) -> MdState {
    MdState { out: st.out, skip: st.skip, links: st.links, lists: st.lists, counters: c, ok: st.ok }
}

pub open spec fn stopped(st: MdState) -> MdState {
    MdState { out: st.out, skip: st.skip, links: st.links, lists: st.lists, counters: st.counters, ok: false }
}

/// `s` without its last element; empty stays empty (`Vec::pop`).
pub open spec fn pop_seq<A>(s: Seq<A>) -> Seq<A> {
    if s.len() > 0 {
        s.drop_last()
    } else {
        s
    }
}

/// Position of the first whitespace character, or the length.
pub open spec fn word_end(s: Seq<char>) -> int
    decreases s.len(),
{
    if s.len() == 0 {
        0
    } else if is_ws(s[0]) {
        0
    } else {
        1 + word_end(s.drop_first())
    }
}

/// The first whitespace-separated word (`split_whitespace().next()`), or
/// the empty text.
pub open spec fn first_word(s: Seq<char>) -> Seq<char> {
    let t = trim_start_seq(s);
    t.take(word_end(t))
}

/// The element name of a tag body: its first word without trailing `/`,
/// lower-cased.
pub open spec fn tag_name_spec(body: Seq<char>) -> Seq<char> {
    lowercase_spec(crate::filesystem::trim_end_char(first_word(body), '/'))
}

pub open spec fn is_skip_name(n: Seq<char>) -> bool {
    n == "script"@ || n == "style"@ || n == "svg"@ || n == "noscript"@
}

/// 1 to 6 for `h1` to `h6`, else 0.
pub open spec fn heading_level(n: Seq<char>) -> nat {
    if n == "h1"@ {
        1
    } else if n == "h2"@ {
        2
    } else if n == "h3"@ {
        3
    } else if n == "h4"@ {
        4
    } else if n == "h5"@ {
        5
    } else if n == "h6"@ {
        6
    } else {
        0
    }
}

pub open spec fn hashes(n: nat) -> Seq<char> {
    Seq::new(n, |_i: int| '#')
}

/// A link tag: `[` opens it and remembers its `href`; the closing tag writes
/// `](href)`, or `]` for a link without one.
pub open spec fn link_step(st: MdState, closing: bool, body: Seq<char>) -> MdState {
    if closing {
        if st.links.len() == 0 {
            st
        } else {
            let st2 = set_links(st, st.links.drop_last());
            match st.links.last() {
                Some(h) => set_out(st2, st.out + "]("@ + h + ")"@),
                None => set_out(st2, st.out.push(']')),
            }
        }
    } else if !attr_slice_ok(body, "href"@) {
        stopped(st)
    } else {
        set_out(set_links(st, st.links.push(extract_attribute_spec(body, "href"@))), st.out.push('['))
    }
}

/// An opening list item: a number in an ordered list (counting on), else a
/// bullet.
pub open spec fn li_open_step(st: MdState) -> MdState {
    let o = newline_spec(st.out);
    if st.lists.len() > 0 && st.lists.last() == 'o' {
        if st.counters.len() > 0 {
            let c = st.counters.last();
            set_counters(
                set_out(st, o + crate::text::decimal(c) + ". "@),
                st.counters.drop_last().push(c + 1),
            )
        } else {
            set_out(st, o + crate::text::decimal(1) + ". "@)
        }
    } else {
        set_out(st, o + "* "@)
    }
}

/// Lists, paragraphs, breaks, rules and inline markup.
pub open spec fn block_step(st: MdState, name: Seq<char>, closing: bool) -> MdState {
    let out = st.out;
    if name == "ul"@ {
        set_out(
            set_lists(st, if closing { pop_seq(st.lists) } else { st.lists.push('u') }),
            newline_spec(out),
        )
    } else if name == "ol"@ {
        if closing {
            set_out(set_counters(set_lists(st, pop_seq(st.lists)), pop_seq(st.counters)), newline_spec(out))
        } else {
            set_out(set_counters(set_lists(st, st.lists.push('o')), st.counters.push(1)), newline_spec(out))
        }
    } else if name == "li"@ {
        if closing {
            set_out(st, newline_spec(out))
        } else {
            li_open_step(st)
        }
    } else if name == "p"@ || name == "div"@ || name == "article"@ || name == "section"@ {
        if closing {
            set_out(st, blank_line_spec(out))
        } else {
            st
        }
    } else if name == "br"@ {
        set_out(st, out.push('\n'))
    } else if name == "hr"@ {
        set_out(st, blank_line_spec(out) + "---\n\n"@)
    } else if name == "strong"@ || name == "b"@ {
        set_out(st, out + "**"@)
    } else if name == "em"@ || name == "i"@ {
        set_out(st, out.push('*'))
    } else if name == "code"@ {
        set_out(st, out.push('`'))
    } else if name == "pre"@ {
        set_out(st, blank_line_spec(out) + "```\n"@)
    } else if name == "blockquote"@ {
        if closing {
            set_out(st, blank_line_spec(out))
        } else {
            set_out(st, blank_line_spec(out) + "> "@)
        }
    } else {
        st
    }
}

/// A tag outside skipped elements.
pub open spec fn element_step(st: MdState, name: Seq<char>, closing: bool, body: Seq<char>) -> MdState {
    let lvl = heading_level(name);
    if lvl > 0 {
        let o = blank_line_spec(st.out);
        set_out(st, if closing { o } else { o + hashes(lvl) + seq![' '] })
    } else if name == "a"@ {
        link_step(st, closing, body)
    } else {
        block_step(st, name, closing)
    }
}

/// One tag, given by the text between `<` and `>`.
pub open spec fn tag_step(st: MdState, tag: Seq<char>) -> MdState {
    let t = crate::text::trim_seq(tag);
    if t.len() == 0 {
        st
    } else {
        let closing = t[0] == '/';
        let body = if closing { t.drop_first() } else { t };
        let name = tag_name_spec(body);
        if is_skip_name(name) {
            if closing {
                set_skip(st, if st.skip > 0 { (st.skip - 1) as nat } else { 0 })
            } else if t.last() != '/' {
                set_skip(st, st.skip + 1)
            } else {
                st
            }
        } else if st.skip > 0 {
            st
        } else {
            element_step(st, name, closing, body)
        }
    }
}

/// Runs the conversion over the rest `s` of the page.
pub open spec fn md_run(s: Seq<char>, st: MdState) -> MdState
    decreases s.len(),
{
    if s.len() == 0 || !st.ok {
        st
    } else if s[0] == '<' {
        let rest = s.drop_first();
        let k = find_char(rest, '>');
        proof {
            lemma_find_char_bounds(rest, '>');
        }
        let next = if k < rest.len() { rest.skip(k + 1) } else { seq![] };
        md_run(next, tag_step(st, rest.take(k)))
    } else if st.skip == 0 {
        md_run(s.drop_first(), set_out(st, st.out.push(s[0])))
    } else {
        md_run(s.drop_first(), st)
    }
}

/// Whether the conversion of `html` runs to its end.
pub open spec fn markdown_defined(html: Seq<char>) -> bool {
    md_run(html, md_init()).ok
}

/// The Markdown for `html`: the pass, then entity decoding, then
/// whitespace clean-up.
pub open spec fn html_to_markdown_spec(html: Seq<char>) -> Seq<char> {
    clean_ws_spec(decode_spec(md_run(html, md_init()).out))
}

} // verus!

verus! {

pub open spec fn links_view(v: Seq<Option<Vec<char>>>) -> Seq<Option<Seq<char>>> {
    Seq::new(v.len(), |i: int| opt_chars(v[i]))
}

pub open spec fn counters_view(v: Seq<usize>) -> Seq<nat> {
    Seq::new(v.len(), |i: int| v[i] as nat)
}

/// The executable state of the conversion pass.
struct MdBuilder {
    out: Vec<char>,
    skip: usize,
    links: Vec<Option<Vec<char>>>,
    lists: Vec<char>,
    counters: Vec<usize>,
}

impl MdBuilder {
    spec fn state(&self) -> MdState {
        MdState {
            out: self.out@,
            skip: self.skip as nat,
            links: links_view(self.links@),
            lists: self.lists@,
            counters: counters_view(self.counters@),
            ok: true,
        }
    }

    /// The depth and every list number are at most `n`.
    spec fn bounded(&self, n: int) -> bool {
        &&& self.skip <= n
        &&& forall|k: int| 0 <= k < self.counters@.len() ==> #[trigger] self.counters@[k] <= n
    }
}

fn word_end_from(v: &[char], from: usize) -> (i: usize)
    requires
        from <= v.len(),
    ensures
        from <= i <= v.len(),
        i - from == word_end(v@.skip(from as int)),
{
    let mut i = from;
    while i < v.len() && !is_whitespace(v[i])
        invariant
            from <= i <= v.len(),
            forall|k: int| from <= k < i ==> !is_ws(#[trigger] v@[k]),
        decreases v.len() - i,
    {
        i += 1;
    }
    proof {
        let t = v@.skip(from as int);
        lemma_word_end_unique(t, i - from);
    }
    i
}

proof fn lemma_word_end_unique(s: Seq<char>, i: int)
    requires
        0 <= i <= s.len(),
        i < s.len() ==> is_ws(s[i]),
        forall|k: int| 0 <= k < i ==> !is_ws(#[trigger] s[k]),
    ensures
        word_end(s) == i,
    decreases s.len(),
{
    if s.len() > 0 && i > 0 {
        assert(!is_ws(s[0]));
        assert forall|k: int| 0 <= k < i - 1 implies !is_ws(#[trigger] s.drop_first()[k]) by {
            assert(s.drop_first()[k] == s[k + 1]);
        }
        lemma_word_end_unique(s.drop_first(), i - 1);
    }
}

fn tag_name(body: &[char]) -> (n: Vec<char>)
    ensures
        n@ == tag_name_spec(body@),
{
    let (s, _e) = trim_bounds(body);
    let e = word_end_from(body, s);
    let w = crate::text::slice_vec(body, s, e);
    assert(w@ =~= body@.skip(s as int).take(e - s));
    let w2 = crate::filesystem::trim_end_char_exec(&w, '/');
    lowercase_vec(&w2)
}

fn is_skip_word(n: &[char]) -> (r: bool)
    ensures
        r == is_skip_name(n@),
{
    is_word(n, "script") || is_word(n, "style") || is_word(n, "svg") || is_word(n, "noscript")
}

fn heading_of(n: &[char]) -> (r: usize)
    ensures
        r == heading_level(n@),
{
    if is_word(n, "h1") {
        1
    } else if is_word(n, "h2") {
        2
    } else if is_word(n, "h3") {
        3
    } else if is_word(n, "h4") {
        4
    } else if is_word(n, "h5") {
        5
    } else if is_word(n, "h6") {
        6
    } else {
        0
    }
}

fn push_hashes(out: &mut Vec<char>, n: usize)
    ensures
        final(out)@ == old(out)@ + hashes(n as nat),
{
    let mut i: usize = 0;
    while i < n
        invariant
            i <= n,
            out@ == old(out)@ + hashes(i as nat),
        decreases n - i,
    {
        out.push('#');
        assert(old(out)@ + hashes(i as nat) + seq!['#'] =~= old(out)@ + hashes((i + 1) as nat));
        i += 1;
    }
}

} // verus!

verus! {

impl MdBuilder {
    fn new() -> (b: Self)
        ensures
            b.state() == md_init(),
            b.bounded(0),
    {
        let b = MdBuilder {
            out: Vec::new(),
            skip: 0,
            links: Vec::new(),
            lists: Vec::new(),
            counters: Vec::new(),
        };
        assert(b.state().links =~= Seq::<Option<Seq<char>>>::empty());
        assert(b.state().counters =~= Seq::<nat>::empty());
        b
    }

    fn link_tag(&mut self, closing: bool, body: &[char]) -> (ok: bool)
        ensures
            ok == link_step(old(self).state(), closing, body@).ok,
            ok ==> final(self).state() == link_step(old(self).state(), closing, body@),
            final(self).skip == old(self).skip,
            final(self).counters@ == old(self).counters@,
    {
        let ghost st = self.state();
        if closing {
            let ghost lv = self.links@;
            let top = self.links.pop();
            proof {
                if lv.len() > 0 {
                    assert(links_view(self.links@) =~= links_view(lv).drop_last());
                    assert(links_view(lv).last() == opt_chars(lv.last()));
                }
            }
            match top {
                None => {},
                Some(Some(h)) => {
                    append_str(&mut self.out, "](");
                    append_chars(&mut self.out, &h);
                    append_str(&mut self.out, ")");
                },
                Some(None) => {
                    self.out.push(']');
                },
            }
            true
        } else {
            let bs = chars_to_string(body);
            if !attribute_slice_ok(bs.as_str(), "href") {
                return false;
            }
            let href = extract_attribute(bs.as_str(), "href");
            let hv: Option<Vec<char>> = match href {
                Some(s) => Some(str_chars(s.as_str())),
                None => None,
            };
            let ghost lv = self.links@;
            self.links.push(hv);
            assert(links_view(self.links@) =~= links_view(lv).push(opt_chars(hv)));
            self.out.push('[');
            true
        }
    }

    fn li_open(&mut self, bound: usize)
        requires
            old(self).bounded(bound as int),
            bound < usize::MAX,
        ensures
            final(self).state() == li_open_step(old(self).state()),
            final(self).bounded(bound + 1),
            final(self).skip == old(self).skip,
    {
        let ghost st = self.state();
        newline_vec(&mut self.out);
        if self.lists.len() > 0 && self.lists[self.lists.len() - 1] == 'o' {
            if self.counters.len() > 0 {
                let last = self.counters.len() - 1;
                let c = self.counters[last];
                assert(self.counters@[last as int] <= bound);
                let d = crate::text::decimal_vec(c as u64);
                append_chars(&mut self.out, &d);
                append_str(&mut self.out, ". ");
                let ghost cv = self.counters@;
                self.counters.set(last, c + 1);
                assert(counters_view(self.counters@) =~= counters_view(cv).drop_last().push(
                    (c + 1) as nat,
                ));
                assert(counters_view(cv).last() == c as nat);
            } else {
                let d = crate::text::decimal_vec(1);
                append_chars(&mut self.out, &d);
                append_str(&mut self.out, ". ");
            }
        } else {
            append_str(&mut self.out, "* ");
        }
    }

    fn block_tag(&mut self, name: &[char], closing: bool, bound: usize)
        requires
            old(self).bounded(bound as int),
            bound < usize::MAX,
        ensures
            final(self).state() == block_step(old(self).state(), name@, closing),
            final(self).bounded(bound + 1),
            final(self).skip == old(self).skip,
    {
        if is_word(name, "ul") {
            if closing {
                self.lists.pop();
            } else {
                self.lists.push('u');
            }
            newline_vec(&mut self.out);
        } else if is_word(name, "ol") {
            let ghost cv = self.counters@;
            if closing {
                self.lists.pop();
                self.counters.pop();
                proof {
                    if cv.len() > 0 {
                        assert(counters_view(self.counters@) =~= counters_view(cv).drop_last());
                    }
                }
            } else {
                self.lists.push('o');
                self.counters.push(1);
                assert(counters_view(self.counters@) =~= counters_view(cv).push(1));
            }
            newline_vec(&mut self.out);
        } else if is_word(name, "li") {
            if closing {
                newline_vec(&mut self.out);
            } else {
                self.li_open(bound);
            }
        } else if is_word(name, "p") || is_word(name, "div") || is_word(name, "article")
            || is_word(name, "section") {
            if closing {
                blank_line_vec(&mut self.out);
            }
        } else if is_word(name, "br") {
            self.out.push('\n');
        } else if is_word(name, "hr") {
            blank_line_vec(&mut self.out);
            append_str(&mut self.out, "---\n\n");
        } else if is_word(name, "strong") || is_word(name, "b") {
            append_str(&mut self.out, "**");
        } else if is_word(name, "em") || is_word(name, "i") {
            self.out.push('*');
        } else if is_word(name, "code") {
            self.out.push('`');
        } else if is_word(name, "pre") {
            blank_line_vec(&mut self.out);
            append_str(&mut self.out, "```\n");
        } else if is_word(name, "blockquote") {
            blank_line_vec(&mut self.out);
            if !closing {
                append_str(&mut self.out, "> ");
            }
        }
    }
}

} // verus!

verus! {

impl MdBuilder {
    fn apply_tag(&mut self, tag: &[char], bound: usize) -> (ok: bool)
        requires
            old(self).bounded(bound as int),
            bound < usize::MAX,
        ensures
            ok == tag_step(old(self).state(), tag@).ok,
            ok ==> final(self).state() == tag_step(old(self).state(), tag@),
            ok ==> final(self).bounded(bound + 1),
    {
        let ghost st = self.state();
        let (s, e) = trim_bounds(tag);
        if s == e {
            return true;
        }
        let t = crate::text::slice_vec(tag, s, e);
        let closing = t[0] == '/';
        let bstart: usize = if closing { 1 } else { 0 };
        let body = crate::text::slice_vec(&t, bstart, t.len());
        assert(closing ==> body@ =~= t@.drop_first());
        assert(!closing ==> body@ =~= t@);
        let name = tag_name(&body);
        if is_skip_word(&name) {
            if closing {
                if self.skip > 0 {
                    self.skip = self.skip - 1;
                }
            } else if t[t.len() - 1] != '/' {
                self.skip = self.skip + 1;
            }
            return true;
        }
        if self.skip > 0 {
            return true;
        }
        let lvl = heading_of(&name);
        if lvl > 0 {
            blank_line_vec(&mut self.out);
            if !closing {
                let ghost o = self.out@;
                push_hashes(&mut self.out, lvl);
                self.out.push(' ');
                assert(self.out@ =~= o + hashes(lvl as nat) + seq![' ']);
            }
            return true;
        }
        if is_word(&name, "a") {
            return self.link_tag(closing, &body);
        }
        self.block_tag(&name, closing, bound);
        true
    }
}

/// The conversion pass over a whole page; `None` when it stops at an
/// `href` that cannot be cut out of its tag.
fn markdown_pass(html: &[char]) -> (r: Option<Vec<char>>)
    ensures
        match r {
            Some(o) => markdown_defined(html@) && o@ == md_run(html@, md_init()).out,
            None => !markdown_defined(html@),
        },
{
    let mut b = MdBuilder::new();
    let mut i: usize = 0;
    assert(html@.skip(0) =~= html@);
    while i < html.len()
        invariant
            i <= html.len(),
            md_run(html@, md_init()) == md_run(html@.skip(i as int), b.state()),
            b.bounded(i as int),
        decreases html.len() - i,
    {
        let ghost s = html@.skip(i as int);
        let ghost st = b.state();
        assert(s[0] == html@[i as int]);
        if html[i] == '<' {
            let j = find_char_from(html, '>', i + 1);
            let tag = crate::text::slice_vec(html, i + 1, j);
            let next: usize = if j < html.len() { j + 1 } else { html.len() };
            proof {
                let rest = s.drop_first();
                assert(rest =~= html@.skip(i + 1));
                let k = find_char(rest, '>');
                assert(k == j - (i + 1));
                assert(tag@ =~= rest.take(k));
                if k < rest.len() {
                    assert(rest.skip(k + 1) =~= html@.skip(next as int));
                } else {
                    assert(html@.skip(next as int) =~= Seq::<char>::empty());
                }
            }
            let ok = b.apply_tag(&tag, i);
            if !ok {
                proof {
                    let st2 = tag_step(st, tag@);
                    assert(!st2.ok);
                    assert(md_run(html@.skip(next as int), st2) == st2);
                }
                return None;
            }
            i = next;
        } else {
            assert(s.drop_first() =~= html@.skip(i + 1));
            if b.skip == 0 {
                b.out.push(html[i]);
            }
            i += 1;
        }
    }
    assert(html@.skip(i as int).len() == 0);
    Some(b.out)
}

/// Converts an HTML page to Markdown: drops `script`, `style`, `svg` and
/// `noscript` elements, renders headings, links, lists, emphasis, code,
/// rules and quotes, decodes entities and tidies blank lines.
pub fn html_to_markdown(html: &str) -> (r: String)
    requires
        markdown_defined(html@),
    ensures
        r@ == html_to_markdown_spec(html@),
{
    let v = str_chars(html);
    match markdown_pass(&v) {
        Some(o) => {
            let d = decode_vec(&o);
            let c = clean_vec(&d);
            chars_to_string(&c)
        },
        None => String::new(),
    }
}

/// Whether `html_to_markdown` can convert the page: false only where an
/// `href` whose tag changes byte lengths under lower-casing cannot be cut
/// out at a character boundary.
pub fn markdown_convertible(html: &str) -> (b: bool)
    ensures
        b == markdown_defined(html@),
{
    let v = str_chars(html);
    markdown_pass(&v).is_some()
}

/// `html_to_markdown` where the page can be converted, `None` elsewhere.
pub fn html_to_markdown_checked(html: &str) -> (r: Option<String>)
    ensures
        match r {
            Some(s) => markdown_defined(html@) && s@ == html_to_markdown_spec(html@),
            None => !markdown_defined(html@),
        },
{
    if markdown_convertible(html) {
        Some(html_to_markdown(html))
    } else {
        None
    }
}

} // verus!

verus! {

proof fn lemma_run_plain(s: Seq<char>, st: MdState)
    requires
        forall|k: int| 0 <= k < s.len() ==> s[k] != '<',
        st.skip == 0,
        st.ok,
    ensures
        md_run(s, st) == set_out(st, st.out + s),
    decreases s.len(),
{
    if s.len() == 0 {
        assert(st.out + s =~= st.out);
    } else {
        let st2 = set_out(st, st.out.push(s[0]));
        assert forall|k: int| 0 <= k < s.drop_first().len() implies s.drop_first()[k] != '<' by {
            assert(s.drop_first()[k] == s[k + 1]);
        }
        lemma_run_plain(s.drop_first(), st2);
        assert(st.out.push(s[0]) + s.drop_first() =~= st.out + s);
    }
}

proof fn lemma_decode_plain(s: Seq<char>)
    requires
        forall|k: int| 0 <= k < s.len() ==> s[k] != '&',
    ensures
        decode_spec(s) == s,
    decreases s.len(),
{
    if s.len() > 0 {
        assert forall|k: int| 0 <= k < s.drop_first().len() implies s.drop_first()[k] != '&' by {
            assert(s.drop_first()[k] == s[k + 1]);
        }
        lemma_decode_plain(s.drop_first());
        assert(seq![s[0]] + s.drop_first() =~= s);
    }
}

/// Text with no tag and no entity is only tidied: the Markdown of such a
/// page is the page with its lines trimmed and empty lines collapsed.
pub proof fn law_plain_text_only_tidied(html: Seq<char>)
    requires
        forall|k: int| 0 <= k < html.len() ==> html[k] != '<' && html[k] != '&',
    ensures
        markdown_defined(html),
        html_to_markdown_spec(html) == clean_ws_spec(html),
{
    lemma_run_plain(html, md_init());
    assert(seq![] + html =~= html);
    lemma_decode_plain(html);
}

/// Text without `&` is left unchanged by entity decoding.
pub proof fn law_decoding_keeps_plain_text(s: Seq<char>)
    requires
        forall|k: int| 0 <= k < s.len() ==> s[k] != '&',
    ensures
        decode_spec(s) == s,
{
    lemma_decode_plain(s);
}

/// The tidied Markdown never starts or ends with whitespace.
pub proof fn law_tidied_text_is_trimmed(s: Seq<char>)
    ensures
        crate::text::trim_seq(clean_ws_spec(s)) == clean_ws_spec(s),
{
    crate::text::lemma_trim_idempotent(
        crate::lines::join_seq(clean_fold(crate::lines::lines_seq(s), seq![], false), seq!['\n']),
    );
}

} // verus!

verus! {

/// A name made of lower-case ASCII letters.
pub open spec fn lower_word(w: Seq<char>) -> bool {
    w.len() > 0 && forall|k: int| 0 <= k < w.len() ==> 'a' <= #[trigger] w[k] && w[k] <= 'z'
}

proof fn lemma_lower_word_name(w: Seq<char>)
    requires
        lower_word(w),
    ensures
        crate::text::trim_seq(w) == w,
        first_word(w) == w,
        tag_name_spec(w) == w,
        find_char(w, '>') == w.len(),
{
    assert(!is_ws(w[0]));
    assert(trim_start_seq(w) == w);
    assert(!is_ws(w.last()));
    assert(trim_end_seq(w) == w);
    assert forall|k: int| 0 <= k < w.len() implies !is_ws(#[trigger] w[k]) by {}
    lemma_word_end_unique(w, w.len() as int);
    assert(w.take(w.len() as int) =~= w);
    assert(crate::filesystem::trim_end_char(w, '/') == w);
    assert(crate::text::all_ascii(w)) by {
        assert forall|k: int| 0 <= k < w.len() implies (#[trigger] w[k] as u32) < 128 by {}
    }
    assert(crate::text::ascii_lower_seq(w) =~= w);
    lemma_find_char_unique(w, '>', w.len() as int);
}

proof fn lemma_skip_name_lower(w: Seq<char>)
    requires
        is_skip_name(w),
    ensures
        lower_word(w),
{
    reveal_strlit("script");
    reveal_strlit("style");
    reveal_strlit("svg");
    reveal_strlit("noscript");
}

proof fn lemma_run_skipped(body: Seq<char>, rest: Seq<char>, st: MdState)
    requires
        forall|k: int| 0 <= k < body.len() ==> body[k] != '<',
        st.skip > 0,
        st.ok,
    ensures
        md_run(body + rest, st) == md_run(rest, st),
    decreases body.len(),
{
    if body.len() > 0 {
        assert((body + rest).drop_first() =~= body.drop_first() + rest);
        assert forall|k: int| 0 <= k < body.drop_first().len() implies body.drop_first()[k] != '<' by {
            assert(body.drop_first()[k] == body[k + 1]);
        }
        lemma_run_skipped(body.drop_first(), rest, st);
    } else {
        assert(body + rest =~= rest);
    }
}

/// The content of a `script`, `style`, `svg` or `noscript` element without
/// nested tags never reaches the Markdown: the conversion goes on after the
/// element as if it had not been there.
pub proof fn law_skipped_element_dropped(w: Seq<char>, body: Seq<char>, rest: Seq<char>, st: MdState)
    requires
        is_skip_name(w),
        forall|k: int| 0 <= k < body.len() ==> body[k] != '<',
        st.skip == 0,
        st.ok,
    ensures
        md_run(seq!['<'] + w + seq!['>'] + body + seq!['<', '/'] + w + seq!['>'] + rest, st) == md_run(rest, st),
{
    lemma_skip_name_lower(w);
    lemma_lower_word_name(w);
    let tail = body + seq!['<', '/'] + w + seq!['>'] + rest;
    let s = seq!['<'] + w + seq!['>'] + tail;
    assert(seq!['<'] + w + seq!['>'] + body + seq!['<', '/'] + w + seq!['>'] + rest =~= s);
    // the opening tag
    let r1 = s.drop_first();
    assert(r1 =~= w + (seq!['>'] + tail));
    lemma_find_char_bounds(r1, '>');
    assert forall|k: int| 0 <= k < w.len() implies r1[k] != '>' by {
        assert(r1[k] == w[k]);
    }
    assert(r1[w.len() as int] == '>');
    lemma_find_char_unique(r1, '>', w.len() as int);
    assert(r1.take(w.len() as int) =~= w);
    assert(r1.skip(w.len() as int + 1) =~= tail);
    let st1 = tag_step(st, w);
    assert(st1 == set_skip(st, 1));
    assert(md_run(s, st) == md_run(tail, st1));
    // the body
    let close = seq!['<', '/'] + w + seq!['>'] + rest;
    assert(tail =~= body + close);
    lemma_run_skipped(body, close, st1);
    // the closing tag
    let r2 = close.drop_first();
    let cw = seq!['/'] + w;
    assert(r2 =~= cw + (seq!['>'] + rest));
    assert forall|k: int| 0 <= k < cw.len() implies r2[k] != '>' by {
        assert(r2[k] == cw[k]);
        if k > 0 {
            assert(cw[k] == w[k - 1]);
        }
    }
    assert(r2[cw.len() as int] == '>');
    lemma_find_char_unique(r2, '>', cw.len() as int);
    assert(r2.take(cw.len() as int) =~= cw);
    assert(r2.skip(cw.len() as int + 1) =~= rest);
    assert(!is_ws(cw[0]));
    assert(trim_start_seq(cw) == cw);
    assert(cw.last() == w.last());
    assert(!is_ws(cw.last()));
    assert(trim_end_seq(cw) == cw);
    assert(cw.drop_first() =~= w);
    let st2 = tag_step(st1, cw);
    assert(st2 == set_skip(st1, 0));
    assert(st2 == st);
}

} // verus!

verus! {

proof fn lemma_trim_end_last(s: Seq<char>)
    ensures
        trim_end_seq(s).len() > 0 ==> !crate::text::is_ws(trim_end_seq(s).last()),
    decreases s.len(),
{
    if s.len() > 0 && crate::text::is_ws(s.last()) {
        lemma_trim_end_last(s.drop_last());
    }
}

/// Lines that are each trimmed, with no two empty lines in a row, come
/// through the tidying fold unchanged.
proof fn lemma_fold_keeps_tidy_lines(ls: Seq<Seq<char>>, acc: Seq<Seq<char>>, in_run: bool)
    requires
        forall|i: int| 0 <= i < ls.len() ==> crate::text::trim_seq(#[trigger] ls[i]) == ls[i],
        forall|i: int| 0 < i < ls.len() && ls[i - 1].len() == 0 ==> (#[trigger] ls[i]).len() > 0,
        in_run && ls.len() > 0 ==> ls[0].len() > 0,
    ensures
        clean_fold(ls, acc, in_run) == acc + ls,
    decreases ls.len(),
{
    if ls.len() == 0 {
        assert(acc + ls =~= acc);
    } else {
        let rest = ls.drop_first();
        assert(crate::text::trim_seq(ls[0]) == ls[0]);
        assert forall|i: int| 0 <= i < rest.len() implies crate::text::trim_seq(#[trigger] rest[i]) == rest[i] by {
            assert(rest[i] == ls[i + 1]);
        }
        assert forall|i: int| 0 < i < rest.len() && rest[i - 1].len() == 0 implies (#[trigger] rest[i]).len() > 0 by {
            assert(rest[i] == ls[i + 1]);
            assert(rest[i - 1] == ls[i]);
        }
        if ls[0].len() == 0 {
            if rest.len() > 0 {
                assert(rest[0] == ls[1]);
            }
            lemma_fold_keeps_tidy_lines(rest, acc.push(seq![]), true);
            assert(ls[0] =~= Seq::<char>::empty());
        } else {
            lemma_fold_keeps_tidy_lines(rest, acc.push(ls[0]), false);
        }
        assert(acc.push(ls[0]) + rest =~= acc + ls);
    }
}

proof fn lemma_join_cons(a: Seq<char>, r: Seq<Seq<char>>, sep: Seq<char>)
    ensures
        crate::lines::join_seq(seq![a] + r, sep) == (if r.len() == 0 {
            a
        } else {
            a + sep + crate::lines::join_seq(r, sep)
        }),
    decreases r.len(),
{
    let x = seq![a] + r;
    if r.len() == 0 {
        assert(x =~= seq![a]);
    } else if r.len() == 1 {
        assert(x.drop_last() =~= seq![a]);
        assert(x.last() == r[0]);
        assert(crate::lines::join_seq(seq![a], sep) == a);
        assert(crate::lines::join_seq(r, sep) == r[0]);
        assert(crate::lines::join_seq(x, sep) == crate::lines::join_seq(x.drop_last(), sep) + sep + x.last());
    } else {
        lemma_join_cons(a, r.drop_last(), sep);
        assert(x.drop_last() =~= seq![a] + r.drop_last());
        assert(x.last() == r.last());
        assert(crate::lines::join_seq(x, sep) == crate::lines::join_seq(x.drop_last(), sep) + sep + x.last());
        assert(crate::lines::join_seq(r, sep) == crate::lines::join_seq(r.drop_last(), sep) + sep + r.last());
        assert(a + sep + crate::lines::join_seq(r.drop_last(), sep) + sep + r.last() =~= a + sep + (
        crate::lines::join_seq(r.drop_last(), sep) + sep + r.last()));
    }
}

proof fn lemma_lines_nonempty(s: Seq<char>)
    requires
        s.len() > 0,
    ensures
        crate::lines::lines_seq(s).len() > 0,
{
}

/// Joining the lines of a text without carriage returns that does not end
/// in a line break gives the text back.
proof fn lemma_join_lines(s: Seq<char>)
    requires
        forall|k: int| 0 <= k < s.len() ==> s[k] != '\r',
        s.len() == 0 || s.last() != '\n',
    ensures
        crate::lines::join_seq(crate::lines::lines_seq(s), seq!['\n']) == s,
    decreases s.len(),
{
    if s.len() > 0 {
        let i = find_char(s, '\n');
        lemma_find_char_bounds(s, '\n');
        if i < s.len() {
            let head = s.take(i);
            let rest = s.skip(i + 1);
            assert(i + 1 < s.len()) by {
                if i + 1 == s.len() {
                    assert(s.last() == s[i]);
                }
            }
            assert(crate::lines::strip_cr(head) == head) by {
                if head.len() > 0 {
                    assert(head.last() == s[i - 1]);
                }
            }
            assert(rest.last() == s.last());
            lemma_join_lines(rest);
            lemma_lines_nonempty(rest);
            lemma_join_cons(head, crate::lines::lines_seq(rest), seq!['\n']);
            assert(head + seq!['\n'] + rest =~= s);
        }
    }
}

/// Already tidy text comes back unchanged: a text with no tag, entity or
/// carriage return, with no whitespace at either end, whose lines are each
/// trimmed and which holds no three line breaks in a row is its own
/// Markdown.
pub proof fn law_tidy_text_unchanged(s: Seq<char>)
    requires
        forall|k: int| 0 <= k < s.len() ==> s[k] != '<' && s[k] != '&' && s[k] != '\r',
        crate::text::trim_seq(s) == s,
        forall|i: int|
            0 <= i < crate::lines::lines_seq(s).len() ==> crate::text::trim_seq(
                #[trigger] crate::lines::lines_seq(s)[i],
            ) == crate::lines::lines_seq(s)[i],
        no_triple_newline(s),
    ensures
        markdown_defined(s),
        html_to_markdown_spec(s) == s,
{
    law_plain_text_only_tidied(s);
    let ls = crate::lines::lines_seq(s);
    let nl = seq!['\n'];
    lemma_trim_end_last(trim_start_seq(s));
    crate::text::lemma_trim_start_head(s);
    crate::text::lemma_trim_end_prefix(trim_start_seq(s));
    lemma_join_lines(s);
    lemma_lines_no_newline(s);
    if ls.len() > 1 {
        let a = ls[0];
        let r = ls.drop_first();
        assert(ls =~= seq![a] + r);
        lemma_join_cons(a, r, nl);
        if a.len() == 0 {
            assert(s[0] == '\n');
        }
        if ls.last().len() == 0 {
            assert(s == crate::lines::join_seq(ls.drop_last(), nl) + nl + ls.last());
            assert(s.last() == '\n');
        }
    }
    lemma_no_triple_tidy(ls);
    assert forall|i: int| 0 < i < ls.len() && ls[i - 1].len() == 0 implies (#[trigger] ls[i]).len() > 0 by {
        if i == ls.len() - 1 {
            assert(ls.last() == ls[i]);
        }
    }
    lemma_fold_keeps_tidy_lines(ls, seq![], false);
    assert(Seq::<Seq<char>>::empty() + ls =~= ls);
}

} // verus!

verus! {

/// A line without line breaks.
pub open spec fn no_newline(l: Seq<char>) -> bool {
    forall|k: int| 0 <= k < l.len() ==> l[k] != '\n'
}

/// Lines as the tidied Markdown has them: each without line breaks and
/// trimmed, and no two empty lines in a row.
pub open spec fn tidy_lines(g: Seq<Seq<char>>) -> bool {
    &&& forall|i: int| 0 <= i < g.len() ==> crate::text::trim_seq(#[trigger] g[i]) == g[i] && no_newline(g[i])
    &&& forall|i: int| 0 < i < g.len() && g[i - 1].len() == 0 ==> (#[trigger] g[i]).len() > 0
}

/// Three line breaks in a row start at `k`.
pub open spec fn newline_run_at(r: Seq<char>, k: int) -> bool {
    r[k] == '\n' && r[k + 1] == '\n' && r[k + 2] == '\n'
}

/// Text with no three line breaks in a row.
pub open spec fn no_triple_newline(r: Seq<char>) -> bool {
    forall|k: int| 0 <= k && k + 2 < r.len() ==> !#[trigger] newline_run_at(r, k)
}

/// Lines without line breaks, joined, end in a line break only where the
/// last line is empty.
proof fn lemma_join_ends_newline(g: Seq<Seq<char>>)
    requires
        g.len() > 0,
        forall|i: int| 0 <= i < g.len() ==> no_newline(#[trigger] g[i]),
        crate::lines::join_seq(g, seq!['\n']).len() > 0,
        crate::lines::join_seq(g, seq!['\n']).last() == '\n',
    ensures
        g.last().len() == 0,
{
    let l = g.last();
    assert(no_newline(g[g.len() - 1]));
    let j = crate::lines::join_seq(g, seq!['\n']);
    if l.len() > 0 {
        if g.len() == 1 {
            assert(j == g[0]);
        } else {
            let p = crate::lines::join_seq(g.drop_last(), seq!['\n']);
            assert(j == p + seq!['\n'] + l);
            assert(j[j.len() - 1] == l[l.len() - 1]);
        }
    }
}

/// Lines without line breaks and with no two empty lines in a row, joined
/// by line breaks, hold no three line breaks in a row.
proof fn lemma_join_no_triple(g: Seq<Seq<char>>)
    requires
        forall|i: int| 0 <= i < g.len() ==> no_newline(#[trigger] g[i]),
        forall|i: int| 0 < i < g.len() && g[i - 1].len() == 0 ==> (#[trigger] g[i]).len() > 0,
    ensures
        no_triple_newline(crate::lines::join_seq(g, seq!['\n'])),
    decreases g.len(),
{
    let nl = seq!['\n'];
    let j = crate::lines::join_seq(g, nl);
    if g.len() <= 1 {
        assert forall|k: int| 0 <= k && k + 2 < j.len() implies !#[trigger] newline_run_at(j, k) by {
            if g.len() == 1 {
                assert(j == g[0]);
                assert(no_newline(g[0]));
            }
        }
    } else {
        let p = g.drop_last();
        let l = g.last();
        assert forall|i: int| 0 <= i < p.len() implies no_newline(#[trigger] p[i]) by {
            assert(p[i] == g[i]);
        }
        assert forall|i: int| 0 < i < p.len() && p[i - 1].len() == 0 implies (#[trigger] p[i]).len() > 0 by {
            assert(p[i - 1] == g[i - 1]);
            assert(p[i] == g[i]);
        }
        lemma_join_no_triple(p);
        let jp = crate::lines::join_seq(p, nl);
        assert(j == jp + nl + l);
        assert(no_newline(g[g.len() - 1]));
        assert forall|k: int| 0 <= k && k + 2 < j.len() implies !#[trigger] newline_run_at(j, k) by {
            if newline_run_at(j, k) {
                if k + 2 < jp.len() {
                    assert(newline_run_at(jp, k));
                } else if k + 2 > jp.len() {
                    assert(j[k + 2] == l[k + 2 - jp.len() - 1]);
                } else {
                    assert(jp.last() == j[k + 1]);
                    lemma_join_ends_newline(p);
                    if p.len() == 1 {
                        assert(jp == p[0]);
                    } else {
                        let q = p.drop_last();
                        let jq = crate::lines::join_seq(q, nl);
                        assert(jp == jq + nl + p.last());
                        assert(jq.last() == j[k]);
                        assert forall|i: int| 0 <= i < q.len() implies no_newline(#[trigger] q[i]) by {
                            assert(q[i] == g[i]);
                        }
                        lemma_join_ends_newline(q);
                        assert(q.last() == g[g.len() - 3]);
                        assert(p.last() == g[g.len() - 2]);
                    }
                }
            }
        }
    }
}

/// Lines without line breaks, the first not empty where there are more,
/// whose join holds no three line breaks in a row, have no two empty lines
/// in a row before the last.
proof fn lemma_no_triple_tidy(g: Seq<Seq<char>>)
    requires
        forall|i: int| 0 <= i < g.len() ==> no_newline(#[trigger] g[i]),
        no_triple_newline(crate::lines::join_seq(g, seq!['\n'])),
        g.len() > 1 ==> g[0].len() > 0,
    ensures
        forall|i: int| 0 < i < g.len() - 1 && g[i - 1].len() == 0 ==> (#[trigger] g[i]).len() > 0,
    decreases g.len(),
{
    if g.len() > 2 {
        let nl = seq!['\n'];
        let j = crate::lines::join_seq(g, nl);
        let p = g.drop_last();
        let l = g.last();
        let jp = crate::lines::join_seq(p, nl);
        assert(j == jp + nl + l);
        assert forall|i: int| 0 <= i < p.len() implies no_newline(#[trigger] p[i]) by {
            assert(p[i] == g[i]);
        }
        assert forall|k: int| 0 <= k && k + 2 < jp.len() implies !#[trigger] newline_run_at(jp, k) by {
            if newline_run_at(jp, k) {
                assert(newline_run_at(j, k));
            }
        }
        assert(p[0] == g[0]);
        lemma_no_triple_tidy(p);
        let n = g.len() as int;
        assert forall|i: int| 0 < i < g.len() - 1 && g[i - 1].len() == 0 implies (#[trigger] g[i]).len() > 0 by {
            if i < n - 2 {
                assert(p[i - 1] == g[i - 1]);
                assert(p[i] == g[i]);
            } else if g[i].len() == 0 {
                let q = p.drop_last();
                let jq = crate::lines::join_seq(q, nl);
                assert(p.last() == g[n - 2]);
                assert(jp == jq + nl + p.last());
                assert(q.last() == g[n - 3]);
                if q.len() == 1 {
                    assert(q[0] == g[0]);
                } else {
                    let qq = q.drop_last();
                    assert(jq == crate::lines::join_seq(qq, nl) + nl + q.last());
                    let k = jq.len() - 1;
                    assert(j[k] == jq[k]);
                    assert(j[k + 1] == '\n');
                    assert(j[k + 2] == '\n');
                    assert(newline_run_at(j, k));
                }
            }
        }
    }
}

proof fn lemma_trim_start_suffix(s: Seq<char>)
    ensures
        exists|k: int| 0 <= k <= s.len() && trim_start_seq(s) == s.skip(k),
    decreases s.len(),
{
    if s.len() > 0 && crate::text::is_ws(s[0]) {
        lemma_trim_start_suffix(s.drop_first());
        let k = choose|k: int| 0 <= k <= s.drop_first().len() && trim_start_seq(s.drop_first()) == s.drop_first().skip(k);
        assert(s.drop_first().skip(k) =~= s.skip(k + 1));
    } else {
        assert(s.skip(0) =~= s);
    }
}

proof fn lemma_trim_keeps_no_newline(s: Seq<char>)
    requires
        no_newline(s),
    ensures
        no_newline(crate::text::trim_seq(s)),
{
    lemma_trim_start_suffix(s);
    let t = trim_start_seq(s);
    let k = choose|k: int| 0 <= k <= s.len() && t == s.skip(k);
    crate::text::lemma_trim_end_prefix(t);
    let u = trim_end_seq(t);
    assert forall|j: int| 0 <= j < u.len() implies u[j] != '\n' by {
        assert(u[j] == t[j]);
        assert(t[j] == s[j + k]);
    }
}

proof fn lemma_trimmed_ends(a: Seq<char>)
    requires
        crate::text::trim_seq(a) == a,
        a.len() > 0,
    ensures
        !crate::text::is_ws(a[0]),
        !crate::text::is_ws(a.last()),
{
    let t = trim_start_seq(a);
    crate::text::lemma_trim_start_head(a);
    crate::text::lemma_trim_end_prefix(t);
    assert(a[0] == t[0]);
    lemma_trim_end_last(t);
}

proof fn lemma_lines_no_newline(s: Seq<char>)
    ensures
        forall|i: int| 0 <= i < crate::lines::lines_seq(s).len() ==> no_newline(#[trigger] crate::lines::lines_seq(s)[i]),
    decreases s.len(),
{
    if s.len() > 0 {
        let i = find_char(s, '\n');
        lemma_find_char_bounds(s, '\n');
        if i < s.len() {
            lemma_lines_no_newline(s.skip(i + 1));
            let head = crate::lines::strip_cr(s.take(i));
            let ls = crate::lines::lines_seq(s);
            assert forall|j: int| 0 <= j < ls.len() implies no_newline(#[trigger] ls[j]) by {
                if j == 0 {
                    assert(ls[0] == head);
                    assert forall|k: int| 0 <= k < head.len() implies head[k] != '\n' by {
                        assert(head[k] == s[k]);
                    }
                } else {
                    assert(ls[j] == crate::lines::lines_seq(s.skip(i + 1))[j - 1]);
                }
            }
        } else {
            let ls = crate::lines::lines_seq(s);
            assert(ls[0] == s);
        }
    }
}

proof fn lemma_fold_tidy(ls: Seq<Seq<char>>, acc: Seq<Seq<char>>, in_run: bool)
    requires
        tidy_lines(acc),
        forall|i: int| 0 <= i < ls.len() ==> no_newline(#[trigger] ls[i]),
        in_run ==> acc.len() > 0 && acc.last().len() == 0,
        !in_run && acc.len() > 0 ==> acc.last().len() > 0,
    ensures
        tidy_lines(clean_fold(ls, acc, in_run)),
    decreases ls.len(),
{
    if ls.len() > 0 {
        let t = crate::text::trim_seq(ls[0]);
        crate::text::lemma_trim_idempotent(ls[0]);
        lemma_trim_keeps_no_newline(ls[0]);
        let rest = ls.drop_first();
        assert forall|i: int| 0 <= i < rest.len() implies no_newline(#[trigger] rest[i]) by {
            assert(rest[i] == ls[i + 1]);
        }
        if t.len() == 0 {
            if in_run {
                lemma_fold_tidy(rest, acc, true);
            } else {
                let e: Seq<char> = seq![];
                let next = acc.push(e);
                assert(crate::text::trim_seq(e) == e) by {
                    assert(trim_start_seq(e) == e);
                }
                assert(tidy_lines(next)) by {
                    assert forall|i: int| 0 <= i < next.len() implies crate::text::trim_seq(#[trigger] next[i]) == next[i] && no_newline(next[i]) by {
                        if i < acc.len() {
                            assert(next[i] == acc[i]);
                        }
                    }
                    assert forall|i: int| 0 < i < next.len() && next[i - 1].len() == 0 implies (#[trigger] next[i]).len() > 0 by {
                        if i < acc.len() {
                            assert(next[i] == acc[i]);
                            assert(next[i - 1] == acc[i - 1]);
                        } else {
                            assert(next[i - 1] == acc.last());
                        }
                    }
                }
                lemma_fold_tidy(rest, next, true);
            }
        } else {
            let next = acc.push(t);
            assert(tidy_lines(next)) by {
                assert forall|i: int| 0 <= i < next.len() implies crate::text::trim_seq(#[trigger] next[i]) == next[i] && no_newline(next[i]) by {
                    if i < acc.len() {
                        assert(next[i] == acc[i]);
                    }
                }
                assert forall|i: int| 0 < i < next.len() && next[i - 1].len() == 0 implies (#[trigger] next[i]).len() > 0 by {
                    if i < acc.len() {
                        assert(next[i] == acc[i]);
                        assert(next[i - 1] == acc[i - 1]);
                    }
                }
            }
            lemma_fold_tidy(rest, next, false);
        }
    }
}

/// The lines of joined tidy lines whose last line is not empty are those
/// lines.
proof fn lemma_lines_of_join(h: Seq<Seq<char>>)
    requires
        tidy_lines(h),
        h.len() > 0 ==> h.last().len() > 0,
    ensures
        crate::lines::lines_seq(crate::lines::join_seq(h, seq!['\n'])) == h,
    decreases h.len(),
{
    if h.len() > 0 {
        let a = h[0];
        let r = h.drop_first();
        assert(h =~= seq![a] + r);
        lemma_join_cons(a, r, seq!['\n']);
        assert(no_newline(a));
        if r.len() == 0 {
            lemma_find_char_unique(a, '\n', a.len() as int);
        } else {
            assert(tidy_lines(r)) by {
                assert forall|i: int| 0 <= i < r.len() implies crate::text::trim_seq(#[trigger] r[i]) == r[i] && no_newline(r[i]) by {
                    assert(r[i] == h[i + 1]);
                }
                assert forall|i: int| 0 < i < r.len() && r[i - 1].len() == 0 implies (#[trigger] r[i]).len() > 0 by {
                    assert(r[i] == h[i + 1]);
                    assert(r[i - 1] == h[i]);
                }
            }
            assert(r.last() == h.last());
            lemma_lines_of_join(r);
            let j = crate::lines::join_seq(r, seq!['\n']);
            let s = a + seq!['\n'] + j;
            lemma_find_char_unique(s, '\n', a.len() as int);
            assert(s.take(a.len() as int) =~= a);
            assert(s.skip(a.len() as int + 1) =~= j);
            assert(crate::lines::strip_cr(a) == a) by {
                if a.len() > 0 {
                    lemma_trimmed_ends(a);
                }
            }
            assert(seq![a] + r =~= h);
        }
    }
}

proof fn lemma_tidy_sub(g: Seq<Seq<char>>, a: int, b: int)
    requires
        tidy_lines(g),
        0 <= a <= b <= g.len(),
    ensures
        tidy_lines(g.subrange(a, b)),
{
    let h = g.subrange(a, b);
    assert forall|i: int| 0 <= i < h.len() implies crate::text::trim_seq(#[trigger] h[i]) == h[i] && no_newline(h[i]) by {
        assert(h[i] == g[i + a]);
    }
    assert forall|i: int| 0 < i < h.len() && h[i - 1].len() == 0 implies (#[trigger] h[i]).len() > 0 by {
        assert(h[i] == g[i + a]);
        assert(h[i - 1] == g[i - 1 + a]);
    }
}

/// Trimming the join of tidy lines drops an empty first line and an empty
/// last line, and nothing else.
#[verifier::spinoff_prover]
#[verifier::rlimit(40)]
proof fn lemma_trim_join(g: Seq<Seq<char>>) -> (h: Seq<Seq<char>>)
    requires
        tidy_lines(g),
    ensures
        tidy_lines(h),
        h.len() > 0 ==> h[0].len() > 0 && h.last().len() > 0,
        crate::text::trim_seq(crate::lines::join_seq(g, seq!['\n'])) == crate::lines::join_seq(h, seq!['\n']),
{
    let nl = seq!['\n'];
    let s = crate::lines::join_seq(g, nl);
    let a: int = if g.len() > 0 && g[0].len() == 0 { 1 } else { 0 };
    let b: int = if g.len() > a && g.last().len() == 0 { g.len() - 1 } else { g.len() as int };
    let h = g.subrange(a, b);
    lemma_tidy_sub(g, a, b);
    if h.len() > 0 {
        assert(h[0] == g[a]);
        if a == 1 {
            assert(g[1].len() > 0);
        }
        assert(h.last() == g[b - 1]);
        if b == g.len() - 1 && b - 1 >= 1 {
            assert(g[b].len() == 0);
        }
    }
    let j = crate::lines::join_seq(h, nl);
    // The join of g is an optional break, the join of h, and an optional break.
    let pre: Seq<char> = if a == 1 && h.len() > 0 { nl } else { seq![] };
    let post: Seq<char> = if b < g.len() && h.len() > 0 { nl } else { seq![] };
    let mid = g.subrange(a, g.len() as int);
    assert(crate::lines::join_seq(mid, nl) == j + post) by {
        if b < g.len() {
            if h.len() > 0 {
                assert(mid.drop_last() =~= h);
                assert(mid.last() == g.last());
                assert(g.last() =~= Seq::<char>::empty());
                assert(j + nl + Seq::<char>::empty() =~= j + nl);
            } else {
                assert(mid =~= seq![g.last()]);
                assert(g.last() =~= Seq::<char>::empty());
                assert(j =~= Seq::<char>::empty());
                assert(j + post =~= Seq::<char>::empty());
            }
        } else {
            assert(mid =~= h);
            assert(j + post =~= j);
        }
    }
    assert(s == pre + (j + post) || (h.len() == 0 && s.len() == 0) || (h.len() == 0 && (forall|k: int| 0 <= k < s.len() ==> s[k] == '\n'))) by {
        if a == 1 {
            assert(g =~= seq![g[0]] + mid);
            lemma_join_cons(g[0], mid, nl);
            assert(g[0] =~= Seq::<char>::empty());
            if mid.len() > 0 {
                if h.len() > 0 {
                    assert(s =~= pre + (j + post));
                } else {
                    assert(s =~= Seq::<char>::empty() + nl + (j + post));
                    assert(j + post =~= Seq::<char>::empty());
                    assert(s =~= nl);
                }
            } else {
                assert(s =~= Seq::<char>::empty());
            }
        } else {
            assert(mid =~= g);
            assert(s =~= pre + (j + post));
        }
    }
    // Trimming removes exactly the optional breaks.
    if h.len() > 0 {
        assert(s == pre + (j + post));
        let jp = j + post;
        assert(h =~= seq![h[0]] + h.drop_first());
        lemma_join_cons(h[0], h.drop_first(), nl);
        lemma_trimmed_ends(h[0]);
        assert(j[0] == h[0][0]);
        assert(jp[0] == j[0]);
        assert forall|k: int| 0 <= k < pre.len() implies crate::text::is_ws(#[trigger] s[k]) by {
            assert(s[k] == '\n');
        }
        crate::text::lemma_trim_start_skip(s, pre.len() as int);
        assert(s.skip(pre.len() as int) =~= jp);
        assert(trim_start_seq(jp) == jp);
        assert forall|k: int| j.len() <= k < jp.len() implies crate::text::is_ws(#[trigger] jp[k]) by {
            assert(jp[k] == '\n');
        }
        crate::text::lemma_trim_end_take(jp, j.len() as int);
        assert(jp.take(j.len() as int) =~= j);
        lemma_trimmed_ends(h.last());
        if h.len() == 1 {
            assert(j == h[0]);
        } else {
            assert(j == crate::lines::join_seq(h.drop_last(), nl) + nl + h.last());
        }
        assert(j.last() == h.last().last());
        assert(trim_end_seq(j) == j);
    } else {
        assert(j =~= Seq::<char>::empty());
        assert forall|k: int| 0 <= k < s.len() implies crate::text::is_ws(#[trigger] s[k]) by {
            assert(s[k] == '\n');
        }
        crate::text::lemma_trim_start_skip(s, s.len() as int);
        assert(s.skip(s.len() as int) =~= Seq::<char>::empty());
    }
    h
}

/// The Markdown is tidy: it is its lines joined by line breaks, every line
/// is trimmed (no whitespace at either end), no two lines in a row are
/// empty, the whole text is trimmed, and it holds no three line breaks in
/// a row.
pub proof fn law_markdown_lines_tidy(html: Seq<char>)
    ensures
        ({
            let r = html_to_markdown_spec(html);
            let ls = crate::lines::lines_seq(r);
            &&& crate::lines::join_seq(ls, seq!['\n']) == r
            &&& forall|i: int| 0 <= i < ls.len() ==> crate::text::trim_seq(#[trigger] ls[i]) == ls[i]
            &&& forall|i: int| 0 < i < ls.len() && ls[i - 1].len() == 0 ==> (#[trigger] ls[i]).len() > 0
            &&& crate::text::trim_seq(r) == r
            &&& no_triple_newline(r)
        }),
{
    let x = decode_spec(md_run(html, md_init()).out);
    law_tidied_text_is_trimmed(x);
    let ls0 = crate::lines::lines_seq(x);
    lemma_lines_no_newline(x);
    let e: Seq<Seq<char>> = seq![];
    lemma_fold_tidy(ls0, e, false);
    let g = clean_fold(ls0, e, false);
    let h = lemma_trim_join(g);
    lemma_lines_of_join(h);
    lemma_join_no_triple(h);
    assert(html_to_markdown_spec(html) == crate::lines::join_seq(h, seq!['\n']));
}

} // verus!

verus! {

/// Whether every `<` of `a` (as the conversion pass meets them) is closed
/// by a `>` inside `a`, so that the pass ends its reading of `a` at its end.
pub open spec fn tags_closed(a: Seq<char>) -> bool
    decreases a.len(),
{
    if a.len() == 0 {
        true
    } else if a[0] == '<' {
        let rest = a.drop_first();
        let k = find_char(rest, '>');
        proof {
            lemma_find_char_bounds(rest, '>');
        }
        k < rest.len() && tags_closed(rest.skip(k + 1))
    } else {
        tags_closed(a.drop_first())
    }
}

/// The pass over `a` then `x` is the pass over `a`, continued over `x`,
/// where `a` closes its tags.
proof fn lemma_run_concat(a: Seq<char>, x: Seq<char>, st: MdState)
    requires
        tags_closed(a),
    ensures
        md_run(a + x, st) == md_run(x, md_run(a, st)),
    decreases a.len(),
{
    if a.len() == 0 {
        assert(a + x =~= x);
    } else if !st.ok {
        assert((a + x).len() > 0);
    } else if a[0] == '<' {
        let rest = a.drop_first();
        let k = find_char(rest, '>');
        lemma_find_char_bounds(rest, '>');
        let ax = a + x;
        let rx = ax.drop_first();
        assert(rx =~= rest + x);
        assert forall|j: int| 0 <= j < k implies rx[j] != '>' by {
            assert(rx[j] == rest[j]);
        }
        assert(rx[k] == rest[k]);
        crate::lines::lemma_find_char_unique(rx, '>', k);
        assert(rx.take(k) =~= rest.take(k));
        assert(rx.skip(k + 1) =~= rest.skip(k + 1) + x);
        lemma_run_concat(rest.skip(k + 1), x, tag_step(st, rest.take(k)));
    } else {
        let ax = a + x;
        assert(ax.drop_first() =~= a.drop_first() + x);
        assert(ax[0] == a[0]);
        if st.skip == 0 {
            lemma_run_concat(a.drop_first(), x, set_out(st, st.out.push(a[0])));
        } else {
            lemma_run_concat(a.drop_first(), x, st);
        }
    }
}

/// A `script`, `style`, `svg` or `noscript` element without nested tags
/// vanishes without trace after any prefix that closes its tags and leaves
/// no such element open: the page converts as if the element were not
/// there.
pub proof fn law_skipped_element_vanishes(a: Seq<char>, w: Seq<char>, body: Seq<char>, b: Seq<char>)
    requires
        is_skip_name(w),
        forall|k: int| 0 <= k < body.len() ==> body[k] != '<',
        tags_closed(a),
        md_run(a, md_init()).skip == 0,
    ensures
        ({
            let page = a + (seq!['<'] + w + seq!['>'] + body + seq!['<', '/'] + w + seq!['>']) + b;
            &&& markdown_defined(page) == markdown_defined(a + b)
            &&& html_to_markdown_spec(page) == html_to_markdown_spec(a + b)
        }),
{
    let elem = seq!['<'] + w + seq!['>'] + body + seq!['<', '/'] + w + seq!['>'];
    let page = a + elem + b;
    assert(page =~= a + (elem + b));
    lemma_run_concat(a, elem + b, md_init());
    lemma_run_concat(a, b, md_init());
    let st = md_run(a, md_init());
    if st.ok {
        law_skipped_element_dropped(w, body, b, st);
    } else {
        assert((elem + b).len() > 0);
    }
}

} // verus!

verus! {

/// Text without `<` closes all its tags, having none.
proof fn lemma_tags_closed_plain(a: Seq<char>)
    requires
        forall|k: int| 0 <= k < a.len() ==> a[k] != '<',
    ensures
        tags_closed(a),
    decreases a.len(),
{
    if a.len() > 0 {
        assert forall|k: int| 0 <= k < a.drop_first().len() implies a.drop_first()[k] != '<' by {
            assert(a.drop_first()[k] == a[k + 1]);
        }
        lemma_tags_closed_plain(a.drop_first());
    }
}

/// The element name of the tag body `h` followed by a digit from 1 to 6 is
/// that body, a heading whose level is the digit.
proof fn lemma_heading_name(d: char)
    requires
        '1' <= d <= '6',
    ensures
        tag_name_spec(seq!['h', d]) == seq!['h', d],
        !is_skip_name(seq!['h', d]),
        heading_level(seq!['h', d]) == d as int - '0' as int,
{
    let b = seq!['h', d];
    assert(trim_start_seq(b) == b);
    assert(word_end(b.drop_first().drop_first()) == 0);
    assert(b.drop_first().drop_first() =~= Seq::<char>::empty());
    assert(word_end(b.drop_first()) == 1);
    assert(word_end(b) == 2);
    assert(b.take(2) =~= b);
    assert(first_word(b) == b);
    assert(crate::filesystem::trim_end_char(b, '/') == b);
    assert(crate::text::all_ascii(b)) by {
        assert forall|k: int| 0 <= k < b.len() implies (#[trigger] b[k] as u32) < 128 by {
            if k == 0 {
                assert(b[0] == 'h');
            } else {
                assert(b[1] == d);
            }
        }
    }
    assert(crate::text::ascii_lower_seq(b) =~= b) by {
        assert(crate::text::ascii_lower(b[0]) == b[0]);
        assert(crate::text::ascii_lower(b[1]) == b[1]);
    }
    reveal_strlit("script");
    reveal_strlit("style");
    reveal_strlit("svg");
    reveal_strlit("noscript");
    reveal_strlit("h1");
    reveal_strlit("h2");
    reveal_strlit("h3");
    reveal_strlit("h4");
    reveal_strlit("h5");
    reveal_strlit("h6");
    if d == '1' {
        assert(b =~= "h1"@);
    } else if d == '2' {
        assert(b =~= "h2"@);
        assert(b != "h1"@);
    } else if d == '3' {
        assert(b =~= "h3"@);
        assert(b != "h1"@ && b != "h2"@);
    } else if d == '4' {
        assert(b =~= "h4"@);
        assert(b != "h1"@ && b != "h2"@ && b != "h3"@);
    } else if d == '5' {
        assert(b =~= "h5"@);
        assert(b != "h1"@ && b != "h2"@ && b != "h3"@ && b != "h4"@);
    } else {
        assert(b =~= "h6"@);
        assert(b != "h1"@ && b != "h2"@ && b != "h3"@ && b != "h4"@ && b != "h5"@);
    }
}

/// A single trimmed line followed by a blank line tidies to the line.
proof fn lemma_clean_one_line(l: Seq<char>)
    requires
        l.len() > 0,
        forall|k: int| 0 <= k < l.len() ==> l[k] != '\n',
        !is_ws(l[0]),
        !is_ws(l.last()),
    ensures
        clean_ws_spec(l + seq!['\n', '\n']) == l,
{
    let s = l + seq!['\n', '\n'];
    let i = l.len() as int;
    assert forall|k: int| 0 <= k < i implies s[k] != '\n' by {
        assert(s[k] == l[k]);
    }
    crate::lines::lemma_find_char_unique(s, '\n', i);
    assert(s.take(i) =~= l);
    assert(crate::lines::strip_cr(l) == l);
    let s2 = s.skip(i + 1);
    assert(s2 =~= seq!['\n']);
    crate::lines::lemma_find_char_unique(s2, '\n', 0);
    assert(s2.take(0) =~= Seq::<char>::empty());
    assert(s2.skip(1) =~= Seq::<char>::empty());
    let e = Seq::<char>::empty();
    assert(crate::lines::strip_cr(e) == e);
    assert(crate::lines::lines_seq(s2.skip(1)) == Seq::<Seq<char>>::empty());
    assert(crate::lines::lines_seq(s2) == seq![crate::lines::strip_cr(s2.take(0))] + crate::lines::lines_seq(s2.skip(1)));
    assert(crate::lines::lines_seq(s2) =~= seq![e]);
    let ls = crate::lines::lines_seq(s);
    assert(ls =~= seq![l, e]);
    assert(crate::text::trim_seq(l) == l);
    assert(crate::text::trim_seq(e) == e);
    let acc1 = Seq::<Seq<char>>::empty().push(l);
    assert(ls.drop_first() =~= seq![e]);
    assert(seq![e].drop_first() =~= Seq::<Seq<char>>::empty());
    assert(seq![e][0] == e);
    assert(clean_fold(Seq::<Seq<char>>::empty(), acc1.push(e), true) == acc1.push(e));
    assert(clean_fold(seq![e], acc1, false) == clean_fold(seq![e].drop_first(), acc1.push(seq![]), true));
    assert(clean_fold(seq![e], acc1, false) == acc1.push(e));
    let g = acc1.push(e);
    assert(clean_fold(ls, seq![], false) == g);
    assert(g.drop_last() =~= seq![l]);
    assert(g.len() == 2);
    assert(g.last() == e);
    assert(crate::lines::join_seq(g.drop_last(), seq!['\n']) == l);
    assert(crate::lines::join_seq(g, seq!['\n']) == crate::lines::join_seq(g.drop_last(), seq!['\n']) + seq!['\n'] + g.last());
    assert(crate::lines::join_seq(g, seq!['\n']) =~= l + seq!['\n'] + e);
    let j = l + seq!['\n'];
    assert(l + seq!['\n'] + e =~= j);
    assert(trim_start_seq(j) == j);
    assert(j.drop_last() =~= l);
    assert(trim_end_seq(j) == trim_end_seq(l));
}

/// A heading element `<hN>` (N from 1 to 6) around plain text converts to
/// N `#` characters, a space and the text: the level written is the digit
/// in the tag name.
pub proof fn law_heading_level_matches_tag(d: char, t: Seq<char>)
    requires
        '1' <= d <= '6',
        t.len() > 0,
        forall|k: int| 0 <= k < t.len() ==> t[k] != '<' && t[k] != '&' && t[k] != '\n',
        !is_ws(t.last()),
    ensures
        ({
            let page = seq!['<', 'h', d, '>'] + t + seq!['<', '/', 'h', d, '>'];
            &&& markdown_defined(page)
            &&& html_to_markdown_spec(page) == Seq::new((d as int - '0' as int) as nat, |_i: int| '#')
                + seq![' '] + t
        }),
{
    let open_tag = seq!['<', 'h', d, '>'];
    let close_tag = seq!['<', '/', 'h', d, '>'];
    let page = open_tag + t + close_tag;
    let n = (d as int - '0' as int) as nat;
    lemma_heading_name(d);
    // The opening tag.
    let r1 = open_tag.drop_first();
    crate::lines::lemma_find_char_unique(r1, '>', 2);
    assert(r1.take(2) =~= seq!['h', d]);
    assert(r1.skip(3) =~= Seq::<char>::empty());
    let hn = seq!['h', d];
    assert(crate::text::trim_seq(hn) == hn);
    assert(blank_line_spec(Seq::<char>::empty()) == Seq::<char>::empty());
    let st1 = set_out(md_init(), hashes(n) + seq![' ']);
    assert(hashes(n).len() == n);
    assert(Seq::<char>::empty() + hashes(n) + seq![' '] =~= hashes(n) + seq![' ']);
    assert(tag_step(md_init(), hn) == st1);
    assert(tags_closed(r1.skip(3)));
    assert(tags_closed(open_tag));
    assert(md_run(open_tag, md_init()) == md_run(r1.skip(3), st1));
    assert(md_run(open_tag, md_init()) == st1);
    assert(page =~= open_tag + (t + close_tag));
    lemma_run_concat(open_tag, t + close_tag, md_init());
    // The text.
    lemma_tags_closed_plain(t);
    lemma_run_concat(t, close_tag, st1);
    lemma_run_plain(t, st1);
    let out2 = hashes(n) + seq![' '] + t;
    let st2 = set_out(st1, out2);
    // The closing tag.
    let r2 = close_tag.drop_first();
    crate::lines::lemma_find_char_unique(r2, '>', 3);
    let slash_hn = seq!['/', 'h', d];
    assert(r2.take(3) =~= slash_hn);
    assert(r2.skip(4) =~= Seq::<char>::empty());
    assert(crate::text::trim_seq(slash_hn) == slash_hn);
    assert(slash_hn.drop_first() =~= hn);
    assert(out2.last() == t.last());
    assert(trim_end_seq(out2) == out2);
    let out3 = out2 + seq!['\n', '\n'];
    let st3 = set_out(st2, out3);
    assert(tag_step(st2, slash_hn) == st3);
    assert(md_run(close_tag, st2) == md_run(r2.skip(4), st3));
    assert(md_run(page, md_init()) == st3);
    // Entities and whitespace.
    assert forall|k: int| 0 <= k < out3.len() implies out3[k] != '&' by {
        if k < n {
            assert(out3[k] == '#');
        } else if k == n {
            assert(out3[k] == ' ');
        } else if k < n + 1 + t.len() {
            assert(out3[k] == t[k - n - 1]);
        } else {
            assert(out3[k] == '\n');
        }
    }
    lemma_decode_plain(out3);
    assert forall|k: int| 0 <= k < out2.len() implies out2[k] != '\n' by {
        if k < n {
            assert(out2[k] == '#');
        } else if k == n {
            assert(out2[k] == ' ');
        } else {
            assert(out2[k] == t[k - n - 1]);
        }
    }
    if n > 0 {
        assert(out2[0] == '#');
    }
    lemma_clean_one_line(out2);
    assert(hashes(n) =~= Seq::new(n, |_i: int| '#'));
}

} // verus!
