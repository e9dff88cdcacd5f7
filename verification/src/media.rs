//! Media downloader plugin logic: output directories, site names of URLs,
//! the choice of a cookie file, and the reading of downloader responses.
use vstd::prelude::*;
use crate::command::{binary_outcome, binary_result, CmdExecResponse};
use crate::filesystem::{opt_str_view, path_join};
use crate::lines::{find_char, lemma_find_char_bounds};
use crate::text::{
    append_chars, append_str, chars_to_string, contains_exec, contains_seq, ends_with,
    ends_with_exec, lowercase_vec, occurs_at_exec, slice_vec, starts_with, starts_with_exec,
    str_chars, trim_seq, trim_vec,
};

verus! {

/// Runs-result reading of the downloader tools: the trimmed output when the
/// program succeeded, else an error naming it.
pub fn run_binary(program: &str, response: &CmdExecResponse) -> (r: Result<String, String>)
    ensures
        match r {
            Ok(s) => binary_outcome(program@, response.success, response.stdout@, response.stderr@) == Ok::<Seq<char>, Seq<char>>(s@),
            Err(e) => binary_outcome(program@, response.success, response.stdout@, response.stderr@) == Err::<Seq<char>, Seq<char>>(e@),
        },
{
    binary_result(program, response)
}

/// The directory a tool writes to: the requested one (default `.`), placed
/// under the configured allowed root when it is relative.
pub open spec fn resolve_dir_spec(dir_param: Option<Seq<char>>, allowed_root: Option<Seq<char>>) -> Seq<char> {
    let raw = match dir_param {
        Some(d) => d,
        None => "."@,
    };
    match allowed_root {
        Some(root) => path_join(root, raw),
        None => raw,
    }
}

/// Resolves an output directory against the configured allowed root
/// (`allowed_dir`, read by the caller).
pub fn resolve_dir(dir_param: Option<&str>, allowed_root: Option<&str>) -> (out: String)
    ensures
        out@ == resolve_dir_spec(opt_str_view(dir_param), opt_str_view(allowed_root)),
{
    let raw = match dir_param {
        Some(d) => str_chars(d),
        None => str_chars("."),
    };
    match allowed_root {
        Some(root) => {
            let r = str_chars(root);
            let j = crate::filesystem::path_join_pub(&r, &raw);
            chars_to_string(&j)
        },
        None => chars_to_string(&raw),
    }
}

/// Position of the first character of `s` that is one of `/ ? # :`, or `s.len()`.
pub open spec fn host_end(s: Seq<char>) -> int
    decreases s.len(),
{
    if s.len() == 0 {
        0
    } else if s[0] == '/' || s[0] == '?' || s[0] == '#' || s[0] == ':' {
        0
    } else {
        1 + host_end(s.drop_first())
    }
}

proof fn lemma_host_end(s: Seq<char>)
    ensures
        0 <= host_end(s) <= s.len(),
        forall|k: int| 0 <= k < host_end(s) ==> !(s[k] == '/' || s[k] == '?' || s[k] == '#' || s[k] == ':'),
        host_end(s) < s.len() ==> (s[host_end(s)] == '/' || s[host_end(s)] == '?' || s[host_end(s)] == '#' || s[host_end(s)] == ':'),
    decreases s.len(),
{
    if s.len() > 0 && !(s[0] == '/' || s[0] == '?' || s[0] == '#' || s[0] == ':') {
        lemma_host_end(s.drop_first());
        assert forall|k: int| 0 <= k < host_end(s) implies !(s[k] == '/' || s[k] == '?' || s[k] == '#' || s[k] == ':') by {
            if k > 0 {
                assert(s[k] == s.drop_first()[k - 1]);
            }
        }
    }
}

/// `s` with every leading `www.` removed (`trim_start_matches("www.")`).
pub open spec fn trim_www(s: Seq<char>) -> Seq<char>
    decreases s.len(),
{
    if starts_with(s, "www."@) && "www."@.len() > 0 {
        trim_www(s.skip("www."@.len() as int))
    } else {
        s
    }
}

/// The host of a URL: scheme removed, cut at the first `/ ? # :`,
/// lower-cased, leading `www.` removed.
pub open spec fn url_domain(url: Seq<char>) -> Seq<char> {
    let without = scheme_stripped(url);
    trim_www(crate::text::lowercase_spec(without.take(host_end(without))))
}

/// A trimmed URL without its `https://` or `http://`.
pub open spec fn scheme_stripped(url: Seq<char>) -> Seq<char> {
    let t = trim_seq(url);
    if starts_with(t, "https://"@) {
        t.skip("https://"@.len() as int)
    } else if starts_with(t, "http://"@) {
        t.skip("http://"@.len() as int)
    } else {
        t
    }
}

/// What follows the host in a URL (path, query, fragment or port).
pub open spec fn url_rest(url: Seq<char>) -> Seq<char> {
    let without = scheme_stripped(url);
    without.skip(host_end(without))
}

/// The domain the media tools file a URL under: its host, except that
/// YouTube Shorts links (`youtube.com/shorts/...`) go under `youtu.be`.
pub open spec fn media_domain(url: Seq<char>) -> Seq<char> {
    if url_domain(url) == "youtube.com"@ && starts_with(url_rest(url), "/shorts/"@) {
        "youtu.be"@
    } else {
        url_domain(url)
    }
}

/// The first dot-separated label of a domain.
pub open spec fn first_label(d: Seq<char>) -> Seq<char> {
    d.take(find_char(d, '.'))
}

/// The site name of a domain, as the media downloaders file cookies under:
/// YouTube and Twitter/X hosts are recognised, others go by their first label.
pub open spec fn media_stem(d: Seq<char>) -> Seq<char> {
    if contains_seq(d, "youtu.be"@) || contains_seq(d, "youtube"@) {
        "youtube"@
    } else if contains_seq(d, "twitter"@) || d == "x.com"@ {
        "twitter"@
    } else {
        first_label(d)
    }
}

fn host_end_exec(v: &[char]) -> (i: usize)
    ensures
        i as int == host_end(v@),
{
    let mut i: usize = 0;
    assert(v@.skip(0) =~= v@);
    while i < v.len() && !(v[i] == '/' || v[i] == '?' || v[i] == '#' || v[i] == ':')
        invariant
            i <= v.len(),
            host_end(v@) == i + host_end(v@.skip(i as int)),
        decreases v.len() - i,
    {
        assert(v@.skip(i as int).drop_first() =~= v@.skip(i + 1));
        i += 1;
    }
    if i < v.len() {
        assert(v@.skip(i as int)[0] == v@[i as int]);
    } else {
        assert(v@.skip(i as int).len() == 0);
    }
    i
}

fn trim_www_exec(v: &[char]) -> (out: Vec<char>)
    ensures
        out@ == trim_www(v@),
{
    let w = str_chars("www.");
    let mut i: usize = 0;
    assert(v@.skip(0) =~= v@);
    proof {
        reveal_strlit("www.");
    }
    loop
        invariant
            i <= v.len(),
            w@ == "www."@,
            w@.len() == 4,
            trim_www(v@) == trim_www(v@.skip(i as int)),
        decreases v.len() - i,
    {
        let rest = slice_vec(v, i, v.len());
        assert(rest@ =~= v@.skip(i as int));
        if starts_with_exec(&rest, &w) {
            assert(rest@.skip(4) =~= v@.skip(i + 4));
            i = i + 4;
        } else {
            return rest;
        }
    }
}

fn scheme_stripped_exec(url: &str) -> (out: Vec<char>)
    ensures
        out@ == scheme_stripped(url@),
{
    let v = str_chars(url);
    let t = trim_vec(&v);
    let https = str_chars("https://");
    let http = str_chars("http://");
    let without = if starts_with_exec(&t, &https) {
        slice_vec(&t, https.len(), t.len())
    } else if starts_with_exec(&t, &http) {
        slice_vec(&t, http.len(), t.len())
    } else {
        slice_vec(&t, 0, t.len())
    };
    assert(!starts_with(t@, "https://"@) && !starts_with(t@, "http://"@) ==> without@ =~= t@);
    assert(starts_with(t@, "https://"@) ==> without@ =~= t@.skip("https://"@.len() as int));
    assert(!starts_with(t@, "https://"@) && starts_with(t@, "http://"@) ==> without@ =~= t@.skip("http://"@.len() as int));
    without
}

/// The host of a URL as a vector.
pub fn url_domain_exec(url: &str) -> (out: Vec<char>)
    ensures
        out@ == url_domain(url@),
{
    let without = scheme_stripped_exec(url);
    let e = host_end_exec(&without);
    proof {
        lemma_host_end(without@);
    }
    let host = slice_vec(&without, 0, e);
    assert(host@ =~= without@.take(e as int));
    let lower = lowercase_vec(&host);
    trim_www_exec(&lower)
}

/// The domain the media tools file a URL under, as a vector.
pub fn media_domain_exec(url: &str) -> (out: Vec<char>)
    ensures
        out@ == media_domain(url@),
{
    let d = url_domain_exec(url);
    let without = scheme_stripped_exec(url);
    let e = host_end_exec(&without);
    proof {
        lemma_host_end(without@);
    }
    let rest = slice_vec(&without, e, without.len());
    assert(rest@ =~= without@.skip(e as int));
    if eq_chars(&d, &str_chars("youtube.com")) && starts_with_exec(&rest, &str_chars("/shorts/")) {
        str_chars("youtu.be")
    } else {
        d
    }
}

fn first_label_exec(d: &[char]) -> (out: Vec<char>)
    ensures
        out@ == first_label(d@),
{
    let i = crate::lines::find_char_from(d, '.', 0);
    assert(d@.skip(0) =~= d@);
    let out = slice_vec(d, 0, i);
    assert(out@ =~= d@.take(i as int));
    out
}

fn eq_chars(a: &[char], b: &[char]) -> (r: bool)
    ensures
        r == (a@ == b@),
{
    let r = a.len() == b.len() && occurs_at_exec(a, b, 0);
    proof {
        if r || a@ == b@ {
            assert(a@.subrange(0, b@.len() as int) =~= a@);
        }
    }
    r
}

/// The domain and site name of a URL, as the cookie files are looked up by.
pub fn extract_domain_and_stem(url: &str) -> (r: (String, String))
    ensures
        r.0@ == media_domain(url@),
        r.1@ == media_stem(media_domain(url@)),
{
    let d = media_domain_exec(url);
    let stem = media_stem_exec(&d);
    (chars_to_string(&d), chars_to_string(&stem))
}

/// The site name of a domain, as a vector.
pub fn media_stem_exec(d: &[char]) -> (stem: Vec<char>)
    ensures
        stem@ == media_stem(d@),
{
    if contains_exec(d, &str_chars("youtu.be")) || contains_exec(d, &str_chars("youtube")) {
        str_chars("youtube")
    } else if contains_exec(d, &str_chars("twitter")) || eq_chars(d, &str_chars("x.com")) {
        str_chars("twitter")
    } else {
        first_label_exec(d)
    }
}

} // verus!

verus! {

/// The cookie file names tried first, in order, for a domain and site name.
pub open spec fn cookie_candidates(domain: Seq<char>, stem: Seq<char>) -> Seq<Seq<char>> {
    seq![
        domain + ".txt"@,
        stem + ".txt"@,
        domain + "_cookies.txt"@,
        stem + "_cookies.txt"@,
        stem + "-cookies.txt"@,
        "cookies-"@ + stem + ".txt"@,
    ]
}

/// The cookie file names to try, in order, for a URL.
pub fn cookie_file_candidates(domain: &str, stem: &str) -> (out: Vec<String>)
    ensures
        out@.len() == 6,
        forall|k: int| 0 <= k < 6 ==> #[trigger] out@[k]@ == cookie_candidates(domain@, stem@)[k],
{
    let mut out: Vec<String> = Vec::new();
    let mut a = str_chars(domain);
    append_str(&mut a, ".txt");
    out.push(chars_to_string(&a));
    let mut b = str_chars(stem);
    append_str(&mut b, ".txt");
    out.push(chars_to_string(&b));
    let mut c = str_chars(domain);
    append_str(&mut c, "_cookies.txt");
    out.push(chars_to_string(&c));
    let mut d = str_chars(stem);
    append_str(&mut d, "_cookies.txt");
    out.push(chars_to_string(&d));
    let mut e = str_chars(stem);
    append_str(&mut e, "-cookies.txt");
    out.push(chars_to_string(&e));
    let mut f = str_chars("cookies-");
    append_str(&mut f, stem);
    append_str(&mut f, ".txt");
    out.push(chars_to_string(&f));
    out
}

/// One entry of a directory listing: its file name and whether it is a
/// regular file.
#[derive(Debug, Clone)]
pub struct DirEntryInfo {
    pub name: String,
    pub is_file: bool,
}

/// Whether a listed entry looks like the cookie file of a site: a `.txt`
/// file whose lower-cased name mentions the site name or the domain.
pub open spec fn entry_matches(name: Seq<char>, is_file: bool, domain: Seq<char>, stem: Seq<char>) -> bool {
    let l = crate::text::lowercase_spec(name);
    is_file && ends_with(l, ".txt"@) && (contains_seq(l, stem) || contains_seq(l, domain))
}

/// The first index below `n` where `c` holds, or `n`.
pub open spec fn first_set(c: Seq<bool>, n: int) -> int
    decreases n,
{
    if n <= 0 {
        0
    } else if first_set(c, n - 1) < n - 1 {
        first_set(c, n - 1)
    } else if c[n - 1] {
        n - 1
    } else {
        n
    }
}

proof fn lemma_first_set(c: Seq<bool>, n: int)
    requires
        n >= 0,
    ensures
        0 <= first_set(c, n) <= n,
        first_set(c, n) < n ==> c[first_set(c, n)],
        forall|k: int| 0 <= k < first_set(c, n) ==> !#[trigger] c[k],
    decreases n,
{
    if n > 0 {
        lemma_first_set(c, n - 1);
    }
}

/// Which listed entries look like the cookie file of the site.
pub open spec fn entry_flags(entries: Seq<(Seq<char>, bool)>, domain: Seq<char>, stem: Seq<char>) -> Seq<bool> {
    Seq::new(entries.len(), |k: int| entry_matches(entries[k].0, entries[k].1, domain, stem))
}

/// The cookie file chosen in a directory: the first candidate name that is a
/// file, else the first matching listed entry, else `cookies.txt` when it is
/// a file; nothing when the directory is missing.
pub open spec fn cookie_choice(
    domain: Seq<char>,
    stem: Seq<char>,
    dir_ok: bool,
    candidate_is_file: Seq<bool>,
    entries: Seq<(Seq<char>, bool)>,
    default_is_file: bool,
) -> Option<Seq<char>> {
    let c = first_set(candidate_is_file, 6);
    let e = first_set(entry_flags(entries, domain, stem), entries.len() as int);
    if !dir_ok {
        None
    } else if c < 6 {
        Some(cookie_candidates(domain, stem)[c])
    } else if e < entries.len() {
        Some(entries[e].0)
    } else if default_is_file {
        Some("cookies.txt"@)
    } else {
        None
    }
}

/// The views of directory entries.
pub open spec fn entries_view(v: Seq<DirEntryInfo>) -> Seq<(Seq<char>, bool)> {
    v.map_values(|e: DirEntryInfo| (e.name@, e.is_file))
}

/// Chooses the cookie file of a URL in a directory, from what the caller
/// found there: whether the directory exists, whether each of the six
/// candidate names (`cookie_file_candidates`) is a file, the directory
/// listing in its order, and whether `cookies.txt` is a file. The result is
/// a file name inside the directory.
pub fn find_cookie_file_in_dir(
    url: &str,
    dir_ok: bool,
    candidate_is_file: &[bool],
    entries: &[DirEntryInfo],
    default_is_file: bool,
) -> (r: Option<String>)
    requires
        candidate_is_file@.len() == 6,
    ensures
        match r {
            Some(n) => cookie_choice(media_domain(url@), media_stem(media_domain(url@)), dir_ok, candidate_is_file@, entries_view(entries@), default_is_file) == Some(n@),
            None => cookie_choice(media_domain(url@), media_stem(media_domain(url@)), dir_ok, candidate_is_file@, entries_view(entries@), default_is_file) is None,
        },
{
    let (domain, stem) = extract_domain_and_stem(url);
    choose_cookie_file(domain.as_str(), stem.as_str(), dir_ok, candidate_is_file, entries, default_is_file)
}

/// Chooses the cookie file for a site's domain and stem, from what the
/// caller found in the directory (as `find_cookie_file_in_dir` does for a
/// URL).
pub fn choose_cookie_file(
    domain_text: &str,
    stem_text: &str,
    dir_ok: bool,
    candidate_is_file: &[bool],
    entries: &[DirEntryInfo],
    default_is_file: bool,
) -> (r: Option<String>)
    requires
        candidate_is_file@.len() == 6,
    ensures
        match r {
            Some(n) => cookie_choice(domain_text@, stem_text@, dir_ok, candidate_is_file@, entries_view(entries@), default_is_file) == Some(n@),
            None => cookie_choice(domain_text@, stem_text@, dir_ok, candidate_is_file@, entries_view(entries@), default_is_file) is None,
        },
{
    let domain = String::from_str(domain_text);
    let stem = String::from_str(stem_text);
    let ghost d = domain@;
    let ghost s = stem@;
    let ghost ev = entries_view(entries@);
    let ghost fc = candidate_is_file@;
    let ghost fe = entry_flags(ev, d, s);
    proof {
        lemma_first_set(fc, 6);
        lemma_first_set(fe, ev.len() as int);
    }
    if !dir_ok {
        return None;
    }
    let cands = cookie_file_candidates(domain.as_str(), stem.as_str());
    let mut k: usize = 0;
    while k < 6
        invariant
            k <= 6,
            candidate_is_file@.len() == 6,
            forall|m: int| 0 <= m < k ==> !candidate_is_file@[m],
            fc == candidate_is_file@,
            dir_ok,
            d == domain_text@,
            s == stem_text@,
            0 <= first_set(fc, 6) <= 6,
            first_set(fc, 6) < 6 ==> fc[first_set(fc, 6)],
            forall|m: int| 0 <= m < first_set(fc, 6) ==> !#[trigger] fc[m],
            cands@.len() == 6,
            forall|m: int| 0 <= m < 6 ==> #[trigger] cands@[m]@ == cookie_candidates(d, s)[m],
        decreases 6 - k,
    {
        if candidate_is_file[k] {
            proof {
                assert(first_set(fc, 6) == k) by {
                    if first_set(fc, 6) < k {
                        assert(fc[first_set(fc, 6)]);
                    }
                    if first_set(fc, 6) > k {
                        assert(!fc[k as int]);
                    }
                }
            }
            let n = str_chars(cands[k].as_str());
            return Some(chars_to_string(&n));
        }
        k += 1;
    }
    assert(first_set(fc, 6) == 6) by {
        if first_set(fc, 6) < 6 {
            assert(fc[first_set(fc, 6)]);
        }
    }
    let dl = str_chars(domain.as_str());
    let sl = str_chars(stem.as_str());
    let txt = str_chars(".txt");
    let mut j: usize = 0;
    while j < entries.len()
        invariant
            j <= entries.len(),
            dl@ == d,
            sl@ == s,
            txt@ == ".txt"@,
            ev == entries_view(entries@),
            forall|m: int| 0 <= m < j ==> !#[trigger] fe[m],
            fe == entry_flags(ev, d, s),
            dir_ok,
            d == domain_text@,
            s == stem_text@,
            first_set(candidate_is_file@, 6) == 6,
            0 <= first_set(fe, ev.len() as int) <= ev.len(),
            first_set(fe, ev.len() as int) < ev.len() ==> fe[first_set(fe, ev.len() as int)],
            forall|m: int| 0 <= m < first_set(fe, ev.len() as int) ==> !#[trigger] fe[m],
        decreases entries.len() - j,
    {
        let name = str_chars(entries[j].name.as_str());
        let l = lowercase_vec(&name);
        assert(ev[j as int] == (entries@[j as int].name@, entries@[j as int].is_file));
        if entries[j].is_file && ends_with_exec(&l, &txt) && (contains_exec(&l, &sl) || contains_exec(&l, &dl)) {
            proof {
                assert(fe[j as int]);
                assert(first_set(fe, ev.len() as int) == j) by {
                    if first_set(fe, ev.len() as int) < j {
                        assert(fe[first_set(fe, ev.len() as int)]);
                    }
                    if first_set(fe, ev.len() as int) > j {
                        assert(!fe[j as int]);
                    }
                }
            }
            return Some(chars_to_string(&name));
        }
        assert(!fe[j as int]);
        j += 1;
    }
    assert(first_set(fe, ev.len() as int) == ev.len()) by {
        if first_set(fe, ev.len() as int) < ev.len() {
            assert(fe[first_set(fe, ev.len() as int)]);
        }
    }
    if default_is_file {
        Some(String::from_str("cookies.txt"))
    } else {
        None
    }
}

/// The view of an optional string.
pub open spec fn opt_string_view(o: Option<String>) -> Option<Seq<char>> {
    match o {
        Some(s) => Some(s@),
        None => None,
    }
}

/// The downloader flag for cookies: an explicit cookie file first, then a
/// file found in the cookie directory, then the browser to read cookies
/// from.
pub open spec fn cookie_arg_spec(
    explicit_file: Option<Seq<char>>,
    dir_match: Option<Seq<char>>,
    browser: Option<Seq<char>>,
) -> Option<(Seq<char>, Seq<char>)> {
    match explicit_file {
        Some(f) => Some(("--cookies"@, f)),
        None => match dir_match {
            Some(m) => Some(("--cookies"@, m)),
            None => match browser {
                Some(b) => Some(("--cookies-from-browser"@, b)),
                None => None,
            },
        },
    }
}

/// Chooses the cookie flag from what the request and the configuration
/// give: an explicit cookie file (`cookiesFile`), the file found in the
/// cookie directory (`cookiesDir`), or a browser (`cookiesFromBrowser`).
pub fn resolve_cookie_arg(
    explicit_file: Option<String>,
    dir_match: Option<String>,
    browser: Option<String>,
) -> (r: Option<(String, String)>)
    ensures
        match r {
            Some(p) => cookie_arg_spec(opt_string_view(explicit_file), opt_string_view(dir_match), opt_string_view(browser)) == Some((p.0@, p.1@)),
            None => cookie_arg_spec(opt_string_view(explicit_file), opt_string_view(dir_match), opt_string_view(browser)) is None,
        },
{
    match explicit_file {
        Some(f) => Some((String::from_str("--cookies"), f)),
        None => match dir_match {
            Some(m) => Some((String::from_str("--cookies"), m)),
            None => match browser {
                Some(b) => Some((String::from_str("--cookies-from-browser"), b)),
                None => None,
            },
        },
    }
}

} // verus!

verus! {

pub open spec fn cookie_pair(c: Option<(Seq<char>, Seq<char>)>) -> Seq<Seq<char>> {
    match c {
        Some((f, v)) => seq![f, v],
        None => seq![],
    }
}

pub open spec fn flag_pair(flag: Seq<char>, v: Option<Seq<char>>) -> Seq<Seq<char>> {
    match v {
        Some(x) => seq![flag, x],
        None => seq![],
    }
}

pub open spec fn pair_view(c: Option<(String, String)>) -> Option<(Seq<char>, Seq<char>)> {
    match c {
        Some((a, b)) => Some((a@, b@)),
        None => None,
    }
}

fn push_pair(args: &mut Vec<String>, a: String, b: String)
    ensures
        crate::sidecar::strings_view(final(args)@) == crate::sidecar::strings_view(old(args)@) + seq![a@, b@],
{
    let ghost before = crate::sidecar::strings_view(args@);
    args.push(a);
    args.push(b);
    assert(crate::sidecar::strings_view(args@) =~= before + seq![a@, b@]);
}

/// The access arguments of a `yt-dlp` run: the cookie flag, a YouTube
/// player client, a proxy, and `--geo-bypass`.
pub fn ytdlp_access_args(cookie: Option<(String, String)>, player_client: Option<&str>, proxy: Option<&str>) -> (r: Vec<String>)
    ensures
        crate::sidecar::strings_view(r@) == cookie_pair(pair_view(cookie)) + flag_pair(
            "--extractor-args"@,
            match player_client {
                Some(c) => Some("youtube:player_client="@ + c@),
                None => None,
            },
        ) + flag_pair("--proxy"@, opt_str_view(proxy)) + seq!["--geo-bypass"@],
{
    let mut r: Vec<String> = Vec::new();
    let ghost c0 = pair_view(cookie);
    match cookie {
        Some((f, v)) => push_pair(&mut r, f, v),
        None => {},
    }
    let ghost s1 = crate::sidecar::strings_view(r@);
    assert(s1 =~= cookie_pair(c0));
    match player_client {
        Some(c) => {
            let mut t = str_chars("youtube:player_client=");
            crate::text::append_str(&mut t, c);
            push_pair(&mut r, String::from_str("--extractor-args"), chars_to_string(&t));
        },
        None => {},
    }
    let ghost s2 = crate::sidecar::strings_view(r@);
    match proxy {
        Some(p) => push_pair(&mut r, String::from_str("--proxy"), String::from_str(p)),
        None => {},
    }
    let ghost s3 = crate::sidecar::strings_view(r@);
    let g = String::from_str("--geo-bypass");
    r.push(g);
    assert(crate::sidecar::strings_view(r@) =~= s3.push(g@));
    assert(crate::sidecar::strings_view(r@) =~= cookie_pair(c0) + flag_pair(
        "--extractor-args"@,
        match player_client {
            Some(c) => Some("youtube:player_client="@ + c@),
            None => None,
        },
    ) + flag_pair("--proxy"@, opt_str_view(proxy)) + seq!["--geo-bypass"@]);
    r
}

/// The access arguments of a `gallery-dl` run: the cookie flag and a proxy.
pub fn gallerydl_access_args(cookie: Option<(String, String)>, proxy: Option<&str>) -> (r: Vec<String>)
    ensures
        crate::sidecar::strings_view(r@) == cookie_pair(pair_view(cookie)) + flag_pair("--proxy"@, opt_str_view(proxy)),
{
    let mut r: Vec<String> = Vec::new();
    let ghost c0 = pair_view(cookie);
    match cookie {
        Some((f, v)) => push_pair(&mut r, f, v),
        None => {},
    }
    let ghost s1 = crate::sidecar::strings_view(r@);
    assert(s1 =~= cookie_pair(c0));
    match proxy {
        Some(p) => push_pair(&mut r, String::from_str("--proxy"), String::from_str(p)),
        None => {},
    }
    assert(crate::sidecar::strings_view(r@) =~= cookie_pair(c0) + flag_pair("--proxy"@, opt_str_view(proxy)));
    r
}

/// `s` with later repeats removed, first occurrences kept in order.
pub open spec fn dedup_spec(s: Seq<Seq<char>>) -> Seq<Seq<char>>
    decreases s.len(),
{
    if s.len() == 0 {
        seq![]
    } else {
        let r = dedup_spec(s.drop_last());
        if r.contains(s.last()) {
            r
        } else {
            r.push(s.last())
        }
    }
}

/// Removes repeated URLs, keeping each first occurrence in order.
pub fn dedup_urls(urls: &[String]) -> (r: Vec<String>)
    ensures
        crate::sidecar::strings_view(r@) == dedup_spec(crate::sidecar::strings_view(urls@)),
{
    let ghost uv = crate::sidecar::strings_view(urls@);
    let mut out: Vec<String> = Vec::new();
    let mut i: usize = 0;
    while i < urls.len()
        invariant
            i <= urls.len(),
            uv == crate::sidecar::strings_view(urls@),
            crate::sidecar::strings_view(out@) == dedup_spec(uv.take(i as int)),
        decreases urls.len() - i,
    {
        let u = str_chars(urls[i].as_str());
        let ghost ov = crate::sidecar::strings_view(out@);
        assert(uv.take(i + 1).drop_last() =~= uv.take(i as int));
        assert(uv.take(i + 1).last() == u@);
        let mut seen = false;
        let mut k: usize = 0;
        while k < out.len()
            invariant
                k <= out@.len(),
                ov == crate::sidecar::strings_view(out@),
                seen == exists|j: int| 0 <= j < k && ov[j] == u@,
            decreases out@.len() - k,
        {
            let o = str_chars(out[k].as_str());
            assert(ov[k as int] == o@);
            if crate::markdown::same_chars(&o, &u) {
                seen = true;
            }
            k += 1;
        }
        proof {
            if ov.contains(u@) {
                let j = choose|j: int| 0 <= j < ov.len() && ov[j] == u@;
                assert(seen);
            }
        }
        if !seen {
            out.push(urls[i].clone());
            assert(crate::sidecar::strings_view(out@) =~= ov.push(u@));
        }
        i += 1;
    }
    assert(uv.take(urls.len() as int) =~= uv);
    out
}

/// After removing repeats no URL occurs twice, and every URL is kept.
pub proof fn law_dedup_distinct_and_complete(s: Seq<Seq<char>>)
    ensures
        forall|i: int, j: int| 0 <= i < j < dedup_spec(s).len() ==> dedup_spec(s)[i] != dedup_spec(s)[j],
        forall|k: int| 0 <= k < s.len() ==> dedup_spec(s).contains(#[trigger] s[k]),
    decreases s.len(),
{
    if s.len() > 0 {
        law_dedup_distinct_and_complete(s.drop_last());
        let r = dedup_spec(s.drop_last());
        assert forall|k: int| 0 <= k < s.len() implies dedup_spec(s).contains(#[trigger] s[k]) by {
            if k < s.len() - 1 {
                assert(s.drop_last()[k] == s[k]);
                assert(r.contains(s[k]));
                if !r.contains(s.last()) {
                    let w = choose|w: int| 0 <= w < r.len() && r[w] == s[k];
                    assert(r.push(s.last())[w] == s[k]);
                }
            } else if !r.contains(s.last()) {
                assert(r.push(s.last())[r.len() as int] == s.last());
            }
        }
        if !r.contains(s.last()) {
            let n = r.push(s.last());
            assert forall|i: int, j: int| 0 <= i < j < n.len() implies n[i] != n[j] by {
                if j == r.len() {
                    assert(n[i] == r[i]);
                }
            }
        }
    }
}

} // verus!

verus! {

/// The preview of one line of a gallery dump: a line that is a JSON array
/// of at least two items shows its second item, as text (empty where it is
/// not a string); any other line shows nothing.
pub open spec fn gallery_preview(v: crate::json::JsonValue) -> Option<Seq<char>> {
    match v {
        crate::json::JsonValue::Array(a) => if a@.len() >= 2 {
            match a@[1] {
                crate::json::JsonValue::Str(s) => Some(s@),
                _ => Some(Seq::empty()),
            }
        } else {
            None
        },
        _ => None,
    }
}

/// The previews of the lines of a gallery dump, in order.
pub open spec fn gallery_previews_spec(lines: Seq<crate::json::JsonValue>) -> Seq<Seq<char>>
    decreases lines.len(),
{
    if lines.len() == 0 {
        Seq::empty()
    } else {
        let before = gallery_previews_spec(lines.drop_last());
        match gallery_preview(lines.last()) {
            Some(p) => before.push(p),
            None => before,
        }
    }
}

/// The previews of a gallery dump: the caller parses each line of the
/// dump as JSON and hands over the lines that parse.
pub fn gallery_previews(lines: &Vec<crate::json::JsonValue>) -> (r: Vec<String>)
    ensures
        crate::sidecar::strings_view(r@) == gallery_previews_spec(lines@),
{
    let mut out: Vec<String> = Vec::new();
    let mut i: usize = 0;
    while i < lines.len()
        invariant
            i <= lines.len(),
            crate::sidecar::strings_view(out@) == gallery_previews_spec(lines@.take(i as int)),
        decreases lines.len() - i,
    {
        assert(lines@.take(i + 1).drop_last() =~= lines@.take(i as int));
        assert(lines@.take(i + 1).last() == lines@[i as int]);
        match &lines[i] {
            crate::json::JsonValue::Array(a) => {
                if a.len() >= 2 {
                    let ghost before = crate::sidecar::strings_view(out@);
                    let p = match &a[1] {
                        crate::json::JsonValue::Str(s) => chars_to_string(&str_chars(s.as_str())),
                        _ => String::new(),
                    };
                    proof {
                        if !(a@[1] is Str) {
                            assert(p@ =~= Seq::<char>::empty());
                        }
                    }
                    out.push(p);
                    assert(crate::sidecar::strings_view(out@) =~= before.push(p@));
                }
            },
            _ => {},
        }
        i += 1;
    }
    assert(lines@.take(lines.len() as int) =~= lines@);
    out
}

} // verus!
