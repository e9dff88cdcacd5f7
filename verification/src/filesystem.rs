//! Path handling of the filesystem plugin: lexical normalisation of `/`
//! separated paths and the sandboxing of requested paths inside an allowed
//! root directory.
use vstd::prelude::*;
use crate::text::{
    append_chars, append_str, ascii_lower_seq, ascii_lower_vec, chars_to_string, contains_exec,
    contains_seq, occurs_at_exec, slice_vec, starts_with, starts_with_exec, str_chars, trim_vec,
    trim_seq,
};
use crate::lines::{find_char, find_char_from, lemma_find_char_bounds};

verus! {

/// One component of a path, as `std::path::Component` names them on Unix
/// (`.` components are dropped when a path is read).
#[derive(Debug, Clone)]
pub enum Comp {
    RootDir,
    ParentDir,
    Normal(Vec<char>),
}

/// The mathematical view of a path component.
pub enum SpecComp {
    RootDir,
    ParentDir,
    Normal(Seq<char>),
}

impl View for Comp {
    type V = SpecComp;

    open spec fn view(&self) -> SpecComp {
        match self {
            Comp::RootDir => SpecComp::RootDir,
            Comp::ParentDir => SpecComp::ParentDir,
            Comp::Normal(n) => SpecComp::Normal(n@),
        }
    }
}

/// The views of a vector of components.
pub open spec fn comps_view(v: Seq<Comp>) -> Seq<SpecComp> {
    v.map_values(|c: Comp| c@)
}

/// Splits `s` at every `c` (`str::split`).
pub open spec fn split_char(s: Seq<char>, c: char) -> Seq<Seq<char>>
    decreases s.len(),
{
    let i = find_char(s, c);
    if i >= s.len() {
        seq![s]
    } else {
        proof {
            lemma_find_char_bounds(s, c);
        }
        seq![s.take(i)] + split_char(s.skip(i + 1), c)
    }
}

/// The components named by the `/`-separated parts of a path: empty parts
/// and `.` are dropped, `..` is a parent reference.
pub open spec fn parts_to_comps(parts: Seq<Seq<char>>) -> Seq<SpecComp>
    decreases parts.len(),
{
    if parts.len() == 0 {
        seq![]
    } else {
        let p = parts[0];
        let rest = parts_to_comps(parts.drop_first());
        if p.len() == 0 || p == "."@ {
            rest
        } else if p == ".."@ {
            seq![SpecComp::ParentDir] + rest
        } else {
            seq![SpecComp::Normal(p)] + rest
        }
    }
}

/// The components of a path string (`Path::components`, Unix rules).
pub open spec fn parse_path(s: Seq<char>) -> Seq<SpecComp> {
    let head: Seq<SpecComp> = if s.len() > 0 && s[0] == '/' {
        seq![SpecComp::RootDir]
    } else {
        seq![]
    };
    head + parts_to_comps(split_char(s, '/'))
}

/// One step of lexical normalisation: a parent reference removes a
/// preceding normal component, is dropped right after the root, and is
/// kept otherwise.
pub open spec fn norm_push(acc: Seq<SpecComp>, c: SpecComp) -> Seq<SpecComp> {
    match c {
        SpecComp::ParentDir => if acc.len() > 0 && acc.last() is Normal {
            acc.drop_last()
        } else if acc.len() > 0 && acc.last() is RootDir {
            acc
        } else {
            acc.push(SpecComp::ParentDir)
        },
        _ => acc.push(c),
    }
}

/// Lexical normalisation of a component sequence.
pub open spec fn norm_fold(cs: Seq<SpecComp>) -> Seq<SpecComp>
    decreases cs.len(),
{
    if cs.len() == 0 {
        seq![]
    } else {
        norm_push(norm_fold(cs.drop_last()), cs.last())
    }
}

/// The text of one non-root component.
pub open spec fn comp_text(c: SpecComp) -> Seq<char> {
    match c {
        SpecComp::Normal(n) => n,
        _ => ".."@,
    }
}

/// Joins the texts of components with `/`.
pub open spec fn join_comps(cs: Seq<SpecComp>) -> Seq<char>
    decreases cs.len(),
{
    if cs.len() == 0 {
        seq![]
    } else if cs.len() == 1 {
        comp_text(cs[0])
    } else {
        join_comps(cs.drop_last()) + "/"@ + comp_text(cs.last())
    }
}

/// The path string that a `PathBuf` built from these components holds.
pub open spec fn render(cs: Seq<SpecComp>) -> Seq<char> {
    if cs.len() > 0 && cs[0] is RootDir {
        "/"@ + join_comps(cs.drop_first())
    } else {
        join_comps(cs)
    }
}

/// The normalised components of a path string.
pub open spec fn norm_comps(s: Seq<char>) -> Seq<SpecComp> {
    norm_fold(parse_path(s))
}

/// Lexical normalisation of a path string (`normalize_path`).
pub open spec fn normalize_spec(s: Seq<char>) -> Seq<char> {
    render(norm_comps(s))
}

/// Whether `p` is a prefix of `s`, component by component (`Path::starts_with`).
pub open spec fn comps_prefix(s: Seq<SpecComp>, p: Seq<SpecComp>) -> bool {
    p.len() <= s.len() && s.take(p.len() as int) == p
}

} // verus!

verus! {

proof fn lemma_parts_cons(p: Seq<char>, q: Seq<Seq<char>>)
    ensures
        parts_to_comps(seq![p] + q) == (if p.len() == 0 || p == "."@ {
            parts_to_comps(q)
        } else if p == ".."@ {
            seq![SpecComp::ParentDir] + parts_to_comps(q)
        } else {
            seq![SpecComp::Normal(p)] + parts_to_comps(q)
        }),
{
    assert((seq![p] + q).drop_first() =~= q);
    assert((seq![p] + q)[0] == p);
}

fn eq_lit(v: &[char], s: &str) -> (b: bool)
    ensures
        b == (v@ == s@),
{
    let c = str_chars(s);
    let r = c.len() == v.len() && occurs_at_exec(v, &c, 0);
    proof {
        if r || v@ == c@ {
            assert(v@.subrange(0, c@.len() as int) =~= v@);
        }
    }
    r
}

fn copy_comp(c: &Comp) -> (r: Comp)
    ensures
        r@ == c@,
{
    match c {
        Comp::RootDir => Comp::RootDir,
        Comp::ParentDir => Comp::ParentDir,
        Comp::Normal(n) => {
            let m = slice_vec(n, 0, n.len());
            assert(m@ =~= n@);
            Comp::Normal(m)
        },
    }
}

/// The components of the path `v` (`Path::components`, Unix rules).
pub fn parse_path_exec(v: &[char]) -> (out: Vec<Comp>)
    ensures
        comps_view(out@) == parse_path(v@),
{
    let mut out: Vec<Comp> = Vec::new();
    if v.len() > 0 && v[0] == '/' {
        out.push(Comp::RootDir);
    }
    let ghost head = comps_view(out@);
    let mut pos: usize = 0;
    assert(v@.skip(0) =~= v@);
    assert(head + parts_to_comps(split_char(v@, '/')) =~= parse_path(v@));
    loop
        invariant
            pos <= v.len(),
            parse_path(v@) == comps_view(out@) + parts_to_comps(split_char(v@.skip(pos as int), '/')),
        decreases v.len() - pos,
    {
        let i = find_char_from(v, '/', pos);
        let ghost rest = v@.skip(pos as int);
        let ghost before = comps_view(out@);
        let seg = slice_vec(v, pos, i);
        proof {
            assert(seg@ =~= rest.take(i - pos));
            if i < v.len() {
                assert(rest.skip(i - pos + 1) =~= v@.skip(i + 1));
                assert(split_char(rest, '/') == seq![rest.take(i - pos)] + split_char(v@.skip(i + 1), '/'));
            } else {
                assert(rest.take(i - pos) =~= rest);
                assert(split_char(rest, '/') == seq![rest]);
                assert(split_char(rest, '/') == seq![rest] + Seq::<Seq<char>>::empty());
                assert(parts_to_comps(Seq::<Seq<char>>::empty()) == Seq::<SpecComp>::empty());
            }
            lemma_parts_cons(seg@, if i < v.len() { split_char(v@.skip(i + 1), '/') } else { Seq::empty() });
        }
        if seg.len() == 0 || eq_lit(&seg, ".") {
        } else if eq_lit(&seg, "..") {
            out.push(Comp::ParentDir);
        } else {
            out.push(Comp::Normal(seg));
        }
        proof {
            assert(comps_view(out@) =~= before + (if seg@.len() == 0 || seg@ == "."@ {
                Seq::<SpecComp>::empty()
            } else if seg@ == ".."@ {
                seq![SpecComp::ParentDir]
            } else {
                seq![SpecComp::Normal(seg@)]
            }));
        }
        if i >= v.len() {
            assert(comps_view(out@) + Seq::<SpecComp>::empty() =~= comps_view(out@));
            return out;
        }
        pos = i + 1;
    }
}

/// Lexical normalisation of a component sequence.
pub fn norm_fold_exec(cs: &Vec<Comp>) -> (out: Vec<Comp>)
    ensures
        comps_view(out@) == norm_fold(comps_view(cs@)),
{
    let mut out: Vec<Comp> = Vec::new();
    let mut k: usize = 0;
    while k < cs.len()
        invariant
            k <= cs.len(),
            comps_view(out@) == norm_fold(comps_view(cs@).take(k as int)),
        decreases cs.len() - k,
    {
        let ghost pre = comps_view(out@);
        proof {
            assert(comps_view(cs@).take(k + 1).drop_last() =~= comps_view(cs@).take(k as int));
            assert(comps_view(cs@).take(k + 1).last() == cs@[k as int]@);
        }
        match &cs[k] {
            Comp::ParentDir => {
                let n = out.len();
                if n > 0 && matches!(out[n - 1], Comp::Normal(_)) {
                    out.pop();
                    assert(comps_view(out@) =~= pre.drop_last());
                } else if n > 0 && matches!(out[n - 1], Comp::RootDir) {
                } else {
                    out.push(Comp::ParentDir);
                    assert(comps_view(out@) =~= pre.push(SpecComp::ParentDir));
                }
            },
            c => {
                out.push(copy_comp(c));
                assert(comps_view(out@) =~= pre.push(cs@[k as int]@));
            },
        }
        k += 1;
    }
    assert(comps_view(cs@).take(cs.len() as int) =~= comps_view(cs@));
    out
}

fn comp_text_exec(c: &Comp) -> (out: Vec<char>)
    requires
        !(c@ is RootDir),
    ensures
        out@ == comp_text(c@),
{
    match c {
        Comp::Normal(n) => slice_vec(n, 0, n.len()),
        _ => str_chars(".."),
    }
}

fn join_comps_exec(cs: &Vec<Comp>, from: usize) -> (out: Vec<char>)
    requires
        from <= cs.len(),
        forall|k: int| from <= k < cs.len() ==> !(cs@[k]@ is RootDir),
    ensures
        out@ == join_comps(comps_view(cs@).skip(from as int)),
{
    let mut out: Vec<char> = Vec::new();
    let mut k = from;
    while k < cs.len()
        invariant
            from <= k <= cs.len(),
            forall|m: int| from <= m < cs.len() ==> !(cs@[m]@ is RootDir),
            out@ == join_comps(comps_view(cs@).subrange(from as int, k as int)),
        decreases cs.len() - k,
    {
        proof {
            let s = comps_view(cs@).subrange(from as int, k + 1);
            assert(s.drop_last() =~= comps_view(cs@).subrange(from as int, k as int));
            assert(s.last() == cs@[k as int]@);
        }
        if k > from {
            append_str(&mut out, "/");
        }
        let t = comp_text_exec(&cs[k]);
        append_chars(&mut out, &t);
        k += 1;
    }
    assert(comps_view(cs@).subrange(from as int, cs.len() as int) =~= comps_view(cs@).skip(from as int));
    out
}

/// Well-formed component sequences: the root only comes first.
pub open spec fn root_first(cs: Seq<SpecComp>) -> bool {
    forall|k: int| 0 < k < cs.len() ==> !(#[trigger] cs[k] is RootDir)
}

/// The path string of a component sequence whose root, if any, comes first.
pub fn render_exec(cs: &Vec<Comp>) -> (out: Vec<char>)
    requires
        root_first(comps_view(cs@)),
    ensures
        out@ == render(comps_view(cs@)),
{
    if cs.len() > 0 && matches!(cs[0], Comp::RootDir) {
        assert forall|k: int| 1 <= k < cs.len() implies !(cs@[k]@ is RootDir) by {
            assert(comps_view(cs@)[k] == cs@[k]@);
        }
        let mut out = str_chars("/");
        let tail = join_comps_exec(cs, 1);
        append_chars(&mut out, &tail);
        assert(comps_view(cs@).skip(1) =~= comps_view(cs@).drop_first());
        out
    } else {
        assert forall|k: int| 0 <= k < cs.len() implies !(cs@[k]@ is RootDir) by {
            assert(comps_view(cs@)[k] == cs@[k]@);
            if k == 0 {
                assert(!(cs@[0]@ is RootDir));
            }
        }
        let out = join_comps_exec(cs, 0);
        assert(comps_view(cs@).skip(0) =~= comps_view(cs@));
        out
    }
}

proof fn lemma_parts_no_root(ps: Seq<Seq<char>>)
    ensures
        forall|k: int| 0 <= k < parts_to_comps(ps).len() ==> !(#[trigger] parts_to_comps(ps)[k] is RootDir),
    decreases ps.len(),
{
    if ps.len() > 0 {
        lemma_parts_no_root(ps.drop_first());
    }
}

proof fn lemma_parse_root_first(s: Seq<char>)
    ensures
        root_first(parse_path(s)),
{
    lemma_parts_no_root(split_char(s, '/'));
    let p = parse_path(s);
    let t = parts_to_comps(split_char(s, '/'));
    assert forall|k: int| 0 < k < p.len() implies !(#[trigger] p[k] is RootDir) by {
        if s.len() > 0 && s[0] == '/' {
            assert(p[k] == t[k - 1]);
        } else {
            assert(p[k] == t[k]);
        }
    }
}

proof fn lemma_norm_root_first(cs: Seq<SpecComp>)
    requires
        root_first(cs),
    ensures
        root_first(norm_fold(cs)),
        norm_fold(cs).len() > 0 && norm_fold(cs)[0] is RootDir ==> cs.len() > 0 && cs[0] is RootDir,
    decreases cs.len(),
{
    if cs.len() > 0 {
        let pre = cs.drop_last();
        assert(root_first(pre));
        lemma_norm_root_first(pre);
        let acc = norm_fold(pre);
        let r = norm_fold(cs);
        if cs.len() > 1 {
            assert(!(cs.last() is RootDir));
        }
        assert forall|k: int| 0 < k < r.len() implies !(#[trigger] r[k] is RootDir) by {
            if k < acc.len() {
                assert(r[k] == acc[k]);
            } else {
                if cs.len() == 1 {
                    assert(acc.len() == 0);
                }
            }
        }
        if r.len() > 0 && r[0] is RootDir {
            if acc.len() > 0 {
                assert(r[0] == acc[0]);
            }
        }
    }
}

/// Lexical normalisation of a path: `.` components vanish and `..` removes
/// the component before it (at the root it is dropped; at the start of a
/// relative path it stays).
pub fn normalize_path(path: &str) -> (out: String)
    ensures
        out@ == normalize_spec(path@),
{
    let v = str_chars(path);
    let n = normalize_comps(&v);
    let r = render_exec(&n);
    chars_to_string(&r)
}

/// The normalised components of the path `v`.
pub fn normalize_comps(v: &[char]) -> (out: Vec<Comp>)
    ensures
        comps_view(out@) == norm_comps(v@),
        root_first(comps_view(out@)),
{
    let parsed = parse_path_exec(v);
    proof {
        lemma_parse_root_first(v@);
        lemma_norm_root_first(parse_path(v@));
    }
    norm_fold_exec(&parsed)
}

} // verus!

verus! {

/// Backslashes turned into forward slashes (`normalize_separators`).
pub open spec fn replace_backslashes(s: Seq<char>) -> Seq<char> {
    s.map_values(|c: char| if c == '\\' { '/' } else { c })
}

/// `s` with every trailing `c` removed (`trim_end_matches(c)`).
pub open spec fn trim_end_char(s: Seq<char>, c: char) -> Seq<char>
    decreases s.len(),
{
    if s.len() > 0 && s.last() == c {
        trim_end_char(s.drop_last(), c)
    } else {
        s
    }
}

/// `s` with every leading `c` removed (`trim_start_matches(c)`).
pub open spec fn trim_start_char(s: Seq<char>, c: char) -> Seq<char>
    decreases s.len(),
{
    if s.len() > 0 && s[0] == c {
        trim_start_char(s.drop_first(), c)
    } else {
        s
    }
}

/// `s` with every leading `./` removed (`trim_start_matches("./")`).
pub open spec fn trim_start_dot_slash(s: Seq<char>) -> Seq<char>
    decreases s.len(),
{
    if starts_with(s, "./"@) {
        proof {
            reveal_strlit("./");
        }
        trim_start_dot_slash(s.skip(2))
    } else {
        s
    }
}

/// `PathBuf::join` on Unix: an absolute right side replaces the left side;
/// otherwise a `/` is put between them unless the left side is empty or
/// already ends with one.
pub open spec fn path_join(a: Seq<char>, b: Seq<char>) -> Seq<char> {
    if b.len() > 0 && b[0] == '/' {
        b
    } else if a.len() == 0 || a.last() == '/' {
        a + b
    } else {
        a + "/"@ + b
    }
}

/// The allowed root as the sandbox compares against it: separators
/// normalised and trailing slashes removed.
pub open spec fn root_trimmed(root: Seq<char>) -> Seq<char> {
    trim_end_char(replace_backslashes(root), '/')
}

/// The part of a cleaned request below the root, or `None` when the request
/// names an absolute location outside of it.
pub open spec fn relative_part(clean: Seq<char>, rt: Seq<char>) -> Option<Seq<char>> {
    if ascii_lower_seq(clean) == ascii_lower_seq(rt) {
        Some(seq![])
    } else if starts_with(ascii_lower_seq(clean), ascii_lower_seq(rt) + "/"@) {
        Some(clean.skip(rt.len() as int + 1))
    } else if contains_seq(clean, ":/"@) || starts_with(clean, "//"@) {
        None
    } else {
        Some(trim_start_char(trim_start_dot_slash(clean), '/'))
    }
}

/// The error for a request that names a location outside the root.
pub open spec fn outside_message(input: Seq<char>, root: Seq<char>) -> Seq<char> {
    "Access denied: path '"@ + input + "' is outside allowed directory '"@ + root + "'"@
}

/// The error for a request that climbs out of the root.
pub open spec fn escape_message(input: Seq<char>) -> Seq<char> {
    "Access denied: path '"@ + input + "' escapes allowed directory"@
}

/// The view of an optional string slice.
pub open spec fn opt_str_view(o: Option<&str>) -> Option<Seq<char>> {
    match o {
        Some(s) => Some(s@),
        None => None,
    }
}

/// What `resolve_path_with_root` returns.
pub open spec fn resolve_spec(input: Seq<char>, root: Option<Seq<char>>) -> Result<Seq<char>, Seq<char>> {
    let clean = replace_backslashes(trim_seq(input));
    match root {
        Some(r) => {
            let rt = root_trimmed(r);
            match relative_part(clean, rt) {
                None => Err(outside_message(input, r)),
                Some(rel) => {
                    let full = if rel.len() == 0 {
                        rt
                    } else {
                        path_join(rt, rel)
                    };
                    if comps_prefix(norm_comps(full), norm_comps(rt)) {
                        Ok(normalize_spec(full))
                    } else {
                        Err(escape_message(input))
                    }
                },
            }
        },
        None => {
            let c = if starts_with(clean, "./"@) {
                clean.skip(2)
            } else {
                clean
            };
            Ok(normalize_spec(c))
        },
    }
}

fn replace_backslashes_exec(v: &[char]) -> (out: Vec<char>)
    ensures
        out@ == replace_backslashes(v@),
{
    let mut out: Vec<char> = Vec::new();
    let mut i: usize = 0;
    while i < v.len()
        invariant
            i <= v.len(),
            out@ == replace_backslashes(v@.take(i as int)),
        decreases v.len() - i,
    {
        let c = if v[i] == '\\' { '/' } else { v[i] };
        out.push(c);
        assert(replace_backslashes(v@.take(i as int)).push(c) =~= replace_backslashes(v@.take(i + 1)));
        i += 1;
    }
    assert(v@.take(v.len() as int) =~= v@);
    out
}

/// A path with its backslashes turned into forward slashes.
pub fn normalize_separators(p: &str) -> (r: String)
    ensures
        r@ == replace_backslashes(p@),
{
    chars_to_string(&replace_backslashes_exec(&str_chars(p)))
}

pub fn trim_end_char_exec(v: &[char], c: char) -> (out: Vec<char>)
    ensures
        out@ == trim_end_char(v@, c),
{
    let mut end = v.len();
    assert(v@.take(v.len() as int) =~= v@);
    while end > 0 && v[end - 1] == c
        invariant
            end <= v.len(),
            trim_end_char(v@, c) == trim_end_char(v@.take(end as int), c),
        decreases end,
    {
        assert(v@.take(end as int).drop_last() =~= v@.take(end - 1));
        end -= 1;
    }
    assert(v@.take(v.len() as int) =~= v@);
    let out = slice_vec(v, 0, end);
    assert(out@ =~= v@.take(end as int));
    out
}

fn trim_start_char_exec(v: &[char], c: char) -> (out: Vec<char>)
    ensures
        out@ == trim_start_char(v@, c),
{
    let mut i: usize = 0;
    assert(v@.skip(0) =~= v@);
    while i < v.len() && v[i] == c
        invariant
            i <= v.len(),
            trim_start_char(v@, c) == trim_start_char(v@.skip(i as int), c),
        decreases v.len() - i,
    {
        assert(v@.skip(i as int).drop_first() =~= v@.skip(i + 1));
        i += 1;
    }
    let out = slice_vec(v, i, v.len());
    assert(out@ =~= v@.skip(i as int));
    out
}

fn trim_start_dot_slash_exec(v: &[char]) -> (out: Vec<char>)
    ensures
        out@ == trim_start_dot_slash(v@),
{
    let ds = str_chars("./");
    let mut i: usize = 0;
    assert(v@.skip(0) =~= v@);
    loop
        invariant
            i <= v.len(),
            ds@ == "./"@,
            trim_start_dot_slash(v@) == trim_start_dot_slash(v@.skip(i as int)),
        decreases v.len() - i,
    {
        let rest = slice_vec(v, i, v.len());
        assert(rest@ =~= v@.skip(i as int));
        if starts_with_exec(&rest, &ds) {
            proof {
                reveal_strlit("./");
                assert(rest@.skip(2) =~= v@.skip(i + 2));
            }
            i = i + 2;
        } else {
            return rest;
        }
    }
}

fn path_join_exec(a: &[char], b: &[char]) -> (out: Vec<char>)
    ensures
        out@ == path_join(a@, b@),
{
    if b.len() > 0 && b[0] == '/' {
        slice_vec(b, 0, b.len())
    } else {
        let mut out = slice_vec(a, 0, a.len());
        if !(a.len() == 0 || a[a.len() - 1] == '/') {
            append_str(&mut out, "/");
        }
        append_chars(&mut out, b);
        out
    }
}

/// `PathBuf::join` on `/`-separated paths (see `path_join`).
pub fn path_join_pub(a: &[char], b: &[char]) -> (out: Vec<char>)
    ensures
        out@ == path_join(a@, b@),
{
    path_join_exec(a, b)
}

fn comps_prefix_exec(s: &Vec<Comp>, p: &Vec<Comp>) -> (b: bool)
    ensures
        b == comps_prefix(comps_view(s@), comps_view(p@)),
{
    if p.len() > s.len() {
        return false;
    }
    let mut k: usize = 0;
    while k < p.len()
        invariant
            k <= p.len() <= s.len(),
            forall|m: int| 0 <= m < k ==> s@[m]@ == p@[m]@,
        decreases p.len() - k,
    {
        let same = match (&s[k], &p[k]) {
            (Comp::RootDir, Comp::RootDir) => true,
            (Comp::ParentDir, Comp::ParentDir) => true,
            (Comp::Normal(x), Comp::Normal(y)) => {
                x.len() == y.len() && occurs_at_exec(x, y, 0)
            },
            _ => false,
        };
        proof {
            if let (Comp::Normal(x), Comp::Normal(y)) = (s@[k as int], p@[k as int]) {
                if same || x@ == y@ {
                    assert(x@.subrange(0, y@.len() as int) =~= x@);
                }
            }
        }
        if !same {
            assert(comps_view(s@).take(p.len() as int)[k as int] != comps_view(p@)[k as int]);
            return false;
        }
        k += 1;
    }
    assert(comps_view(s@).take(p.len() as int) =~= comps_view(p@));
    true
}

/// Resolves a requested path against an optional allowed root. With a root,
/// the request is read relative to it (a leading copy of the root itself is
/// accepted, compared without ASCII case), absolute requests elsewhere are
/// refused, and a result that climbs above the root is refused; the result
/// is normalised. Without a root the request is only normalised.
pub fn resolve_path_with_root(relative_or_abs: &str, allowed_root: Option<&str>) -> (r: Result<String, String>)
    ensures
        match r {
            Ok(p) => resolve_spec(relative_or_abs@, opt_str_view(allowed_root)) == Ok::<Seq<char>, Seq<char>>(p@),
            Err(e) => resolve_spec(relative_or_abs@, opt_str_view(allowed_root)) == Err::<Seq<char>, Seq<char>>(e@),
        },
{
    let input = str_chars(relative_or_abs);
    let trimmed = trim_vec(&input);
    let clean = replace_backslashes_exec(&trimmed);
    match allowed_root {
        Some(root) => {
            let root_v = str_chars(root);
            let rr = replace_backslashes_exec(&root_v);
            let rt = trim_end_char_exec(&rr, '/');
            let lc = ascii_lower_vec(&clean);
            let lr = ascii_lower_vec(&rt);
            let mut lr_slash = slice_vec(&lr, 0, lr.len());
            append_str(&mut lr_slash, "/");
            assert(lr_slash@ =~= ascii_lower_seq(rt@) + "/"@);
            let same = lc.len() == lr.len() && occurs_at_exec(&lc, &lr, 0);
            proof {
                if same || lc@ == lr@ {
                    assert(lc@.subrange(0, lr@.len() as int) =~= lc@);
                }
            }
            let rel: Vec<char> = if same {
                Vec::new()
            } else if starts_with_exec(&lc, &lr_slash) {
                assert(ascii_lower_seq(clean@).len() == clean@.len());
                slice_vec(&clean, rt.len() + 1, clean.len())
            } else if contains_exec(&clean, &str_chars(":/")) || starts_with_exec(&clean, &str_chars("//")) {
                let mut msg = str_chars("Access denied: path '");
                append_str(&mut msg, relative_or_abs);
                append_str(&mut msg, "' is outside allowed directory '");
                append_str(&mut msg, root);
                append_str(&mut msg, "'");
                return Err(chars_to_string(&msg));
            } else {
                let a = trim_start_dot_slash_exec(&clean);
                trim_start_char_exec(&a, '/')
            };
            proof {
                if !same && starts_with(ascii_lower_seq(clean@), ascii_lower_seq(rt@) + "/"@) {
                    assert(rel@ =~= clean@.skip(rt@.len() as int + 1));
                }
                assert(relative_part(clean@, rt@) == Some(rel@));
            }
            let full = if rel.len() == 0 {
                slice_vec(&rt, 0, rt.len())
            } else {
                path_join_exec(&rt, &rel)
            };
            assert(rel.len() == 0 ==> full@ =~= rt@);
            let nfull = normalize_comps(&full);
            let nroot = normalize_comps(&rt);
            if !comps_prefix_exec(&nfull, &nroot) {
                let mut msg = str_chars("Access denied: path '");
                append_str(&mut msg, relative_or_abs);
                append_str(&mut msg, "' escapes allowed directory");
                return Err(chars_to_string(&msg));
            }
            let out = render_exec(&nfull);
            Ok(chars_to_string(&out))
        },
        None => {
            let ds = str_chars("./");
            let c = if starts_with_exec(&clean, &ds) {
                proof {
                    reveal_strlit("./");
                }
                slice_vec(&clean, 2, clean.len())
            } else {
                slice_vec(&clean, 0, clean.len())
            };
            proof {
                reveal_strlit("./");
                if starts_with(clean@, "./"@) {
                    assert(c@ =~= clean@.skip(2));
                } else {
                    assert(c@ =~= clean@);
                }
            }
            let n = normalize_comps(&c);
            let out = render_exec(&n);
            Ok(chars_to_string(&out))
        },
    }
}

} // verus!

verus! {

/// Resolves a requested path against the allowed directory that the host
/// configured (`ALLOWED_DIR`, read by the caller), as
/// `resolve_path_with_root` does.
pub fn resolve_path(relative_or_abs: &str, allowed_dir: Option<&str>) -> (r: Result<String, String>)
    ensures
        match r {
            Ok(p) => resolve_spec(relative_or_abs@, opt_str_view(allowed_dir)) == Ok::<Seq<char>, Seq<char>>(p@),
            Err(e) => resolve_spec(relative_or_abs@, opt_str_view(allowed_dir)) == Err::<Seq<char>, Seq<char>>(e@),
        },
{
    resolve_path_with_root(relative_or_abs, allowed_dir)
}

/// A name that a `Normal` component can carry.
pub open spec fn valid_name(s: Seq<char>) -> bool {
    s.len() > 0 && !s.contains('/') && s != "."@ && s != ".."@
}

/// Components as paths are read: the root only first, every name valid.
pub open spec fn wf_comps(cs: Seq<SpecComp>) -> bool {
    &&& root_first(cs)
    &&& forall|k: int| 0 <= k < cs.len() ==> (#[trigger] cs[k] matches SpecComp::Normal(n) ==> valid_name(n))
}

/// Normalised components: parent references only at the front of a
/// relative path.
pub open spec fn canonical(cs: Seq<SpecComp>) -> bool {
    &&& wf_comps(cs)
    &&& forall|k: int| 0 < k < cs.len() ==> (#[trigger] cs[k] is ParentDir ==> cs[k - 1] is ParentDir)
}

proof fn lemma_find_char_concat(a: Seq<char>, b: Seq<char>, c: char)
    requires
        !a.contains(c),
    ensures
        find_char(a + b, c) == a.len() + find_char(b, c),
    decreases a.len(),
{
    if a.len() > 0 {
        assert((a + b)[0] == a[0]);
        assert(a[0] != c);
        assert((a + b).drop_first() =~= a.drop_first() + b);
        assert(!a.drop_first().contains(c)) by {
            if a.drop_first().contains(c) {
                let k = choose|k: int| 0 <= k < a.drop_first().len() && a.drop_first()[k] == c;
                assert(a[k + 1] == c);
            }
        }
        lemma_find_char_concat(a.drop_first(), b, c);
    } else {
        assert(a + b =~= b);
    }
}

proof fn lemma_split_sep(s1: Seq<char>, s2: Seq<char>)
    ensures
        split_char(s1 + "/"@ + s2, '/') == split_char(s1, '/') + split_char(s2, '/'),
    decreases s1.len(),
{
    reveal_strlit("/");
    let t = s1 + "/"@ + s2;
    let i = find_char(s1, '/');
    lemma_find_char_bounds(s1, '/');
    if i >= s1.len() {
        assert(!s1.contains('/')) by {
            if s1.contains('/') {
                let k = choose|k: int| 0 <= k < s1.len() && s1[k] == '/';
            }
        }
        assert(t =~= s1 + ("/"@ + s2));
        lemma_find_char_concat(s1, "/"@ + s2, '/');
        assert(find_char("/"@ + s2, '/') == 0);
        assert(t.take(s1.len() as int) =~= s1);
        assert(t.skip(s1.len() as int + 1) =~= s2);
        assert(split_char(s1, '/') == seq![s1]);
    } else {
        let head = s1.take(i);
        assert(!head.contains('/')) by {
            if head.contains('/') {
                let k = choose|k: int| 0 <= k < head.len() && head[k] == '/';
                assert(s1[k] == '/');
            }
        }
        assert(s1 =~= head + s1.skip(i));
        assert(t =~= head + (s1.skip(i) + "/"@ + s2));
        lemma_find_char_concat(head, s1.skip(i) + "/"@ + s2, '/');
        lemma_find_char_concat(head, s1.skip(i), '/');
        assert(find_char(s1.skip(i), '/') == 0);
        assert(find_char(s1.skip(i) + "/"@ + s2, '/') == 0);
        assert(t.take(i) =~= head);
        assert(t.skip(i + 1) =~= s1.skip(i + 1) + "/"@ + s2);
        lemma_split_sep(s1.skip(i + 1), s2);
        assert(split_char(s1, '/') == seq![head] + split_char(s1.skip(i + 1), '/'));
        assert(split_char(t, '/') =~= split_char(s1, '/') + split_char(s2, '/'));
    }
}

proof fn lemma_split_no_sep(s: Seq<char>)
    requires
        !s.contains('/'),
    ensures
        split_char(s, '/') == seq![s],
{
    lemma_find_char_bounds(s, '/');
    if find_char(s, '/') < s.len() {
        assert(s[find_char(s, '/')] == '/');
    }
}

proof fn lemma_parts_concat(a: Seq<Seq<char>>, b: Seq<Seq<char>>)
    ensures
        parts_to_comps(a + b) == parts_to_comps(a) + parts_to_comps(b),
    decreases a.len(),
{
    if a.len() == 0 {
        assert(a + b =~= b);
    } else {
        assert((a + b)[0] == a[0]);
        assert((a + b).drop_first() =~= a.drop_first() + b);
        lemma_parts_concat(a.drop_first(), b);
    }
}

proof fn lemma_comp_text_parts(c: SpecComp)
    requires
        !(c is RootDir),
        c matches SpecComp::Normal(n) ==> valid_name(n),
    ensures
        parts_to_comps(seq![comp_text(c)]) == seq![c],
        !comp_text(c).contains('/'),
        comp_text(c).len() > 0,
{
    reveal_strlit("..");
    reveal_strlit(".");
    assert(seq![comp_text(c)].drop_first() =~= Seq::<Seq<char>>::empty());
    assert(parts_to_comps(Seq::<Seq<char>>::empty()) =~= Seq::<SpecComp>::empty());
    assert(seq![c] + Seq::<SpecComp>::empty() =~= seq![c]);
    match c {
        SpecComp::ParentDir => {
            assert(comp_text(c) == ".."@);
            assert(comp_text(c) != "."@) by {
                assert(".."@.len() != "."@.len());
            }
            assert(!comp_text(c).contains('/')) by {
                if comp_text(c).contains('/') {
                    let k = choose|k: int| 0 <= k < comp_text(c).len() && comp_text(c)[k] == '/';
                }
            }
        },
        _ => {},
    }
}

proof fn lemma_join_parse(cs: Seq<SpecComp>)
    requires
        cs.len() > 0,
        forall|k: int| 0 <= k < cs.len() ==> !(#[trigger] cs[k] is RootDir),
        forall|k: int| 0 <= k < cs.len() ==> (#[trigger] cs[k] matches SpecComp::Normal(n) ==> valid_name(n)),
    ensures
        parts_to_comps(split_char(join_comps(cs), '/')) == cs,
        join_comps(cs).len() > 0 && join_comps(cs)[0] != '/',
    decreases cs.len(),
{
    lemma_comp_text_parts(cs[0]);
    if cs.len() == 1 {
        lemma_split_no_sep(comp_text(cs[0]));
        assert(seq![cs[0]] =~= cs);
        assert(comp_text(cs[0])[0] != '/') by {
            if comp_text(cs[0])[0] == '/' {
                assert(comp_text(cs[0]).contains('/'));
            }
        }
    } else {
        let pre = cs.drop_last();
        lemma_join_parse(pre);
        lemma_comp_text_parts(cs.last());
        lemma_split_sep(join_comps(pre), comp_text(cs.last()));
        lemma_split_no_sep(comp_text(cs.last()));
        lemma_parts_concat(split_char(join_comps(pre), '/'), seq![comp_text(cs.last())]);
        assert(pre + seq![cs.last()] =~= cs);
        assert(join_comps(cs) == join_comps(pre) + "/"@ + comp_text(cs.last()));
        assert(join_comps(cs)[0] == join_comps(pre)[0]);
    }
}

/// Reading back a rendered well-formed component sequence gives it again.
proof fn lemma_parse_render(cs: Seq<SpecComp>)
    requires
        wf_comps(cs),
    ensures
        parse_path(render(cs)) == cs,
{
    reveal_strlit("/");
    if cs.len() > 0 && cs[0] is RootDir {
        let rest = cs.drop_first();
        let j = join_comps(rest);
        assert(render(cs) == "/"@ + j);
        assert("/"@ + j =~= Seq::<char>::empty() + "/"@ + j);
        lemma_split_sep(Seq::<char>::empty(), j);
        lemma_split_no_sep(Seq::<char>::empty());
        lemma_parts_concat(seq![Seq::<char>::empty()], split_char(j, '/'));
        assert(parts_to_comps(seq![Seq::<char>::empty()]) == Seq::<SpecComp>::empty()) by {
            assert(seq![Seq::<char>::empty()].drop_first() =~= Seq::<Seq<char>>::empty());
            assert(parts_to_comps(Seq::<Seq<char>>::empty()) =~= Seq::<SpecComp>::empty());
        }
        if rest.len() > 0 {
            assert forall|k: int| 0 <= k < rest.len() implies !(#[trigger] rest[k] is RootDir) by {
                assert(rest[k] == cs[k + 1]);
            }
            assert forall|k: int| 0 <= k < rest.len() implies (#[trigger] rest[k] matches SpecComp::Normal(n) ==> valid_name(n)) by {
                assert(rest[k] == cs[k + 1]);
            }
            lemma_join_parse(rest);
        } else {
            assert(j == Seq::<char>::empty());
            lemma_split_no_sep(j);
            assert(parts_to_comps(split_char(j, '/')) == Seq::<SpecComp>::empty()) by {
                assert(seq![Seq::<char>::empty()].drop_first() =~= Seq::<Seq<char>>::empty());
                assert(parts_to_comps(Seq::<Seq<char>>::empty()) =~= Seq::<SpecComp>::empty());
            }
        }
        assert(("/"@ + j)[0] == '/');
        assert(seq![SpecComp::RootDir] + rest =~= cs);
    } else if cs.len() > 0 {
        assert forall|k: int| 0 <= k < cs.len() implies !(#[trigger] cs[k] is RootDir) by {
        }
        lemma_join_parse(cs);
        assert(Seq::<SpecComp>::empty() + cs =~= cs);
    } else {
        lemma_split_no_sep(Seq::<char>::empty());
        assert(seq![Seq::<char>::empty()].drop_first() =~= Seq::<Seq<char>>::empty());
        assert(parts_to_comps(Seq::<Seq<char>>::empty()) =~= Seq::<SpecComp>::empty());
        assert(render(cs) =~= Seq::<char>::empty());
        assert(parse_path(render(cs)) =~= cs);
    }
}

proof fn lemma_split_parts_no_sep(s: Seq<char>)
    ensures
        forall|k: int| 0 <= k < split_char(s, '/').len() ==> !(#[trigger] split_char(s, '/')[k]).contains('/'),
    decreases s.len(),
{
    let i = find_char(s, '/');
    lemma_find_char_bounds(s, '/');
    if i >= s.len() {
        assert(!s.contains('/')) by {
            if s.contains('/') {
                let k = choose|k: int| 0 <= k < s.len() && s[k] == '/';
            }
        }
    } else {
        lemma_split_parts_no_sep(s.skip(i + 1));
        let sp = split_char(s, '/');
        assert forall|k: int| 0 <= k < sp.len() implies !(#[trigger] sp[k]).contains('/') by {
            if k == 0 {
                if s.take(i).contains('/') {
                    let m = choose|m: int| 0 <= m < s.take(i).len() && s.take(i)[m] == '/';
                    assert(s[m] == '/');
                }
            } else {
                assert(sp[k] == split_char(s.skip(i + 1), '/')[k - 1]);
            }
        }
    }
}

proof fn lemma_parts_wf(ps: Seq<Seq<char>>)
    requires
        forall|k: int| 0 <= k < ps.len() ==> !(#[trigger] ps[k]).contains('/'),
    ensures
        wf_comps(parts_to_comps(ps)),
        forall|k: int| 0 <= k < parts_to_comps(ps).len() ==> !(#[trigger] parts_to_comps(ps)[k] is RootDir),
    decreases ps.len(),
{
    if ps.len() > 0 {
        let rest = ps.drop_first();
        assert forall|k: int| 0 <= k < rest.len() implies !(#[trigger] rest[k]).contains('/') by {
            assert(rest[k] == ps[k + 1]);
        }
        lemma_parts_wf(rest);
        let r = parts_to_comps(rest);
        let out = parts_to_comps(ps);
        assert forall|k: int| 0 <= k < out.len() implies (#[trigger] out[k] matches SpecComp::Normal(n) ==> valid_name(n)) && !(out[k] is RootDir) by {
            if out.len() > r.len() && k > 0 {
                assert(out[k] == r[k - 1]);
            } else if out.len() == r.len() {
                assert(out[k] == r[k]);
            }
        }
    }
}

proof fn lemma_parse_wf(s: Seq<char>)
    ensures
        wf_comps(parse_path(s)),
{
    lemma_split_parts_no_sep(s);
    lemma_parts_wf(split_char(s, '/'));
    lemma_parse_root_first(s);
    let t = parts_to_comps(split_char(s, '/'));
    let p = parse_path(s);
    assert forall|k: int| 0 <= k < p.len() implies (#[trigger] p[k] matches SpecComp::Normal(n) ==> valid_name(n)) by {
        if s.len() > 0 && s[0] == '/' {
            if k > 0 {
                assert(p[k] == t[k - 1]);
            }
        } else {
            assert(p[k] == t[k]);
        }
    }
}

proof fn lemma_norm_canonical(cs: Seq<SpecComp>)
    requires
        wf_comps(cs),
    ensures
        canonical(norm_fold(cs)),
    decreases cs.len(),
{
    lemma_norm_root_first(cs);
    if cs.len() > 0 {
        let pre = cs.drop_last();
        assert(wf_comps(pre)) by {
            assert forall|k: int| 0 <= k < pre.len() implies (#[trigger] pre[k] matches SpecComp::Normal(n) ==> valid_name(n)) by {
                assert(pre[k] == cs[k]);
            }
        }
        lemma_norm_canonical(pre);
        let acc = norm_fold(pre);
        let r = norm_fold(cs);
        assert(cs.last() == cs[cs.len() - 1]);
        assert forall|k: int| 0 <= k < r.len() implies (#[trigger] r[k] matches SpecComp::Normal(n) ==> valid_name(n)) by {
            if k < acc.len() {
                assert(r[k] == acc[k]);
            }
        }
        assert forall|k: int| 0 < k < r.len() && #[trigger] r[k] is ParentDir implies r[k - 1] is ParentDir by {
            if k < acc.len() {
                assert(r[k] == acc[k]);
                assert(r[k - 1] == acc[k - 1]);
            } else if r.len() == acc.len() + 1 && k == acc.len() {
                assert(r[k - 1] == acc[k - 1]);
            } else if k < acc.len() - 1 {
                assert(r[k] == acc[k]);
                assert(r[k - 1] == acc[k - 1]);
            }
        }
    }
}

proof fn lemma_norm_fixed(cs: Seq<SpecComp>)
    requires
        canonical(cs),
    ensures
        norm_fold(cs) == cs,
    decreases cs.len(),
{
    if cs.len() > 0 {
        let pre = cs.drop_last();
        assert(canonical(pre)) by {
            assert forall|k: int| 0 <= k < pre.len() implies (#[trigger] pre[k] matches SpecComp::Normal(n) ==> valid_name(n)) by {
                assert(pre[k] == cs[k]);
            }
            assert forall|k: int| 0 < k < pre.len() && #[trigger] pre[k] is ParentDir implies pre[k - 1] is ParentDir by {
                assert(pre[k] == cs[k]);
                assert(pre[k - 1] == cs[k - 1]);
            }
        }
        lemma_norm_fixed(pre);
        assert(cs.last() == cs[cs.len() - 1]);
        if cs.last() is ParentDir && cs.len() > 1 {
            assert(pre.last() == cs[cs.len() - 2]);
        }
        assert(pre.push(cs.last()) =~= cs);
    }
}

/// The root stays first through normalisation.
proof fn lemma_norm_keeps_root(cs: Seq<SpecComp>)
    requires
        cs.len() > 0,
        cs[0] is RootDir,
    ensures
        norm_fold(cs).len() > 0,
        norm_fold(cs)[0] is RootDir,
    decreases cs.len(),
{
    if cs.len() > 1 {
        let pre = cs.drop_last();
        assert(pre[0] == cs[0]);
        lemma_norm_keeps_root(pre);
        let acc = norm_fold(pre);
        let r = norm_push(acc, cs.last());
        if acc.len() == 1 {
            assert(acc.last() is RootDir);
        }
        assert(r.len() > 0 && r[0] == acc[0]);
    } else {
        assert(cs.drop_last() =~= Seq::<SpecComp>::empty());
        assert(norm_fold(cs.drop_last()) =~= Seq::<SpecComp>::empty());
        assert(cs.last() == cs[0]);
        assert(norm_fold(cs) == Seq::<SpecComp>::empty().push(cs[0]));
    }
}

/// In a canonical sequence every parent reference is preceded only by
/// parent references.
proof fn lemma_parents_lead(cs: Seq<SpecComp>, k: int)
    requires
        canonical(cs),
        0 <= k < cs.len(),
        cs[k] is ParentDir,
    ensures
        forall|j: int| 0 <= j <= k ==> #[trigger] cs[j] is ParentDir,
    decreases k,
{
    if k > 0 {
        assert(cs[k - 1] is ParentDir);
        lemma_parents_lead(cs, k - 1);
    }
}

/// The shape of a normalised path (a purely lexical operation): its
/// components are the normalised ones; it has no `.` component and every
/// name is a plain name; parent references (`..`) come only before all
/// other components; a path with a root has none; and the result has a
/// root exactly when the input does.
pub proof fn law_normalized_shape(s: Seq<char>)
    ensures
        parse_path(normalize_spec(s)) == norm_comps(s),
        forall|k: int| 0 <= k < norm_comps(s).len() ==> (#[trigger] norm_comps(s)[k] matches SpecComp::Normal(n) ==> valid_name(n)),
        forall|j: int, k: int| 0 <= j < k < norm_comps(s).len() && #[trigger] norm_comps(s)[k] is ParentDir ==> #[trigger] norm_comps(s)[j] is ParentDir,
        (s.len() > 0 && s[0] == '/') ==> forall|k: int| 0 <= k < norm_comps(s).len() ==> !(#[trigger] norm_comps(s)[k] is ParentDir),
        (norm_comps(s).len() > 0 && norm_comps(s)[0] is RootDir) == (s.len() > 0 && s[0] == '/'),
{
    let n = norm_comps(s);
    let p = parse_path(s);
    lemma_parse_wf(s);
    lemma_norm_canonical(p);
    lemma_parse_render(n);
    lemma_norm_root_first(p);
    assert forall|j: int, k: int| 0 <= j < k < n.len() && #[trigger] n[k] is ParentDir implies #[trigger] n[j] is ParentDir by {
        lemma_parents_lead(n, k);
    }
    if s.len() > 0 && s[0] == '/' {
        assert(p[0] is RootDir);
        lemma_norm_keeps_root(p);
        assert forall|k: int| 0 <= k < n.len() implies !(#[trigger] n[k] is ParentDir) by {
            if n[k] is ParentDir {
                lemma_parents_lead(n, k);
                assert(n[0] is ParentDir);
            }
        }
    } else {
        if n.len() > 0 && n[0] is RootDir {
            assert(p.len() > 0 && p[0] is RootDir);
            lemma_parts_no_root(split_char(s, '/'));
            assert(p == parts_to_comps(split_char(s, '/')));
            assert(p[0] == parts_to_comps(split_char(s, '/'))[0]);
        }
    }
}

/// Normalising a normalised path changes nothing.
pub proof fn law_normalize_idempotent(s: Seq<char>)
    ensures
        normalize_spec(normalize_spec(s)) == normalize_spec(s),
{
    let n = norm_comps(s);
    lemma_parse_wf(s);
    lemma_norm_canonical(parse_path(s));
    lemma_parse_render(n);
    lemma_norm_fixed(n);
}

/// A path that the sandbox resolves against a root lies inside it: its
/// components begin with those of the (normalised) root.
pub proof fn law_resolved_path_inside_root(input: Seq<char>, root: Seq<char>)
    requires
        resolve_spec(input, Some(root)) is Ok,
    ensures
        comps_prefix(
            parse_path(resolve_spec(input, Some(root))->Ok_0),
            parse_path(normalize_spec(root_trimmed(root))),
        ),
{
    let clean = replace_backslashes(trim_seq(input));
    let rt = root_trimmed(root);
    let rel = relative_part(clean, rt)->0;
    let full = if rel.len() == 0 {
        rt
    } else {
        path_join(rt, rel)
    };
    lemma_parse_wf(full);
    lemma_norm_canonical(parse_path(full));
    lemma_parse_render(norm_comps(full));
    lemma_parse_wf(rt);
    lemma_norm_canonical(parse_path(rt));
    lemma_parse_render(norm_comps(rt));
}

} // verus!

verus! {

/// Splits at every `c`, as `str::split(c)` does.
pub fn split_char_exec(v: &[char], c: char) -> (out: Vec<Vec<char>>)
    ensures
        crate::lines::vv(out@) == split_char(v@, c),
{
    let mut out: Vec<Vec<char>> = Vec::new();
    let mut pos: usize = 0;
    assert(v@.skip(0) =~= v@);
    assert(crate::lines::vv(out@) + split_char(v@, c) =~= split_char(v@, c));
    loop
        invariant
            pos <= v.len(),
            split_char(v@, c) == crate::lines::vv(out@) + split_char(v@.skip(pos as int), c),
        decreases v.len() - pos,
    {
        let i = find_char_from(v, c, pos);
        let ghost rest = v@.skip(pos as int);
        let ghost before = crate::lines::vv(out@);
        let piece = slice_vec(v, pos, i);
        assert(piece@ =~= rest.take(i - pos));
        out.push(piece);
        assert(crate::lines::vv(out@) =~= before.push(piece@));
        if i >= v.len() {
            assert(rest.take(i - pos) =~= rest);
            assert(split_char(rest, c) == seq![rest]);
            assert(crate::lines::vv(out@) =~= before + split_char(rest, c));
            return out;
        }
        assert(rest.skip(i - pos + 1) =~= v@.skip(i + 1));
        assert(split_char(rest, c) == seq![rest.take(i - pos)] + split_char(v@.skip(i + 1), c));
        assert(before + split_char(rest, c) =~= crate::lines::vv(out@) + split_char(v@.skip(i + 1), c));
        pos = i + 1;
    }
}

} // verus!
