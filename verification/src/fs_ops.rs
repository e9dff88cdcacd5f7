//! The file-system tools' own logic: argument checks, text edits, line
//! windows, media chunking and paging, glob filtering, and the text of
//! listings and reports. Reading and writing files is left to the caller.
use vstd::prelude::*;
use base64::Engine;
use crate::text::{
    append_chars, append_str, chars_to_string, contains_seq, find_first, first_occ, occurs_at,
    str_chars, trim_end_seq, decimal, decimal_vec,
};

verus! {

/// What `glob_match::glob_match(glob, path)` answers for a path without a
/// backslash.
pub uninterp spec fn glob_match_result(glob: Seq<char>, path: Seq<char>) -> bool;

/// Glob matching (`glob_match::glob_match`). It treats the platform's path
/// separators as separators (a backslash is one on Windows only), so the
/// answer is named `glob_match_result` only for paths without a backslash;
/// for other paths nothing is stated.
#[verifier::external_body]
fn glob_matches(glob: &str, path: &str) -> (b: bool)
    ensures
        !path@.contains('\\') ==> b == glob_match_result(glob@, path@),
{
    glob_match::glob_match(glob, path)
}

/// The character of a six-bit value in the standard base64 alphabet
/// (`A`-`Z`, `a`-`z`, `0`-`9`, `+`, `/`).
pub open spec fn base64_digit(v: int) -> char {
    if v < 26 {
        (65 + v) as char
    } else if v < 52 {
        (97 + v - 26) as char
    } else if v < 62 {
        (48 + v - 52) as char
    } else if v == 62 {
        '+'
    } else {
        '/'
    }
}

/// Standard base64 with padding: each group of three bytes, read as a
/// 24-bit number, gives four digits of six bits, most significant first; a
/// last group of two bytes gives three digits and `=`, one of one byte two
/// digits and `==`.
pub open spec fn base64_standard(bytes: Seq<u8>) -> Seq<char>
    decreases bytes.len(),
{
    if bytes.len() == 0 {
        seq![]
    } else if bytes.len() == 1 {
        let n = bytes[0] as int * 65536;
        seq![base64_digit(n / 262144), base64_digit((n / 4096) % 64), '=', '=']
    } else if bytes.len() == 2 {
        let n = bytes[0] as int * 65536 + bytes[1] as int * 256;
        seq![base64_digit(n / 262144), base64_digit((n / 4096) % 64), base64_digit((n / 64) % 64), '=']
    } else {
        let n = bytes[0] as int * 65536 + bytes[1] as int * 256 + bytes[2] as int;
        seq![base64_digit(n / 262144), base64_digit((n / 4096) % 64), base64_digit((n / 64) % 64), base64_digit(n % 64)]
            + base64_standard(bytes.skip(3))
    }
}

/// Standard base64 with padding
/// (`base64::engine::general_purpose::STANDARD.encode`), as
/// `base64_standard` states it; four characters per started group of three
/// bytes.
#[verifier::external_body]
fn base64_encode(bytes: &[u8]) -> (s: String)
    requires
        bytes@.len() <= usize::MAX / 2,
    ensures
        s@ == base64_standard(bytes@),
        s@.len() == 4 * ((bytes@.len() + 2) / 3),
{
    base64::engine::general_purpose::STANDARD.encode(bytes)
}

/// What `mime_guess::from_path(path).first_or_octet_stream()` gives, as
/// text, for a path without a backslash: the first MIME type that its
/// fixed table lists for the path's extension, else
/// `application/octet-stream`.
pub uninterp spec fn guessed_mime(path: Seq<char>) -> Seq<char>;

/// The MIME type guessed from a path's extension
/// (`mime_guess::from_path(path).first_or_octet_stream()`), as text. The
/// extension follows the platform's path rules, where a backslash is a
/// separator on Windows only, so the result is named `guessed_mime` for
/// paths without a backslash; for other paths nothing is stated.
#[verifier::external_body]
fn guess_mime(path: &str) -> (m: String)
    ensures
        !path@.contains('\\') ==> m@ == guessed_mime(path@),
{
    mime_guess::from_path(path).first_or_octet_stream().to_string()
}

/// One replacement of an edit request.
#[derive(Debug, Clone)]
pub struct TextEdit {
    pub old_text: String,
    pub new_text: String,
}

pub open spec fn missing_arg_message(name: Seq<char>) -> Seq<char> {
    "Missing '"@ + name + "' parameter"@
}

pub open spec fn not_string_message(name: Seq<char>) -> Seq<char> {
    "Parameter '"@ + name + "' must be a string"@
}

/// A required string argument: absent (`None`), not a string
/// (`Some(None)`), or its text.
pub fn string_arg(arg: Option<Option<&str>>, name: &str) -> (r: Result<String, String>)
    ensures
        match arg {
            None => r matches Err(e) && e@ == missing_arg_message(name@),
            Some(None) => r matches Err(e) && e@ == not_string_message(name@),
            Some(Some(s)) => r matches Ok(v) && v@ == s@,
        },
{
    match arg {
        None => {
            let mut m: Vec<char> = Vec::new();
            append_str(&mut m, "Missing '");
            append_str(&mut m, name);
            append_str(&mut m, "' parameter");
            Err(chars_to_string(&m))
        },
        Some(None) => {
            let mut m: Vec<char> = Vec::new();
            append_str(&mut m, "Parameter '");
            append_str(&mut m, name);
            append_str(&mut m, "' must be a string");
            Err(chars_to_string(&m))
        },
        Some(Some(s)) => Ok(String::from_str(s)),
    }
}

/// `text` with the first occurrence of `old` replaced by `new`
/// (`str::replacen(old, new, 1)`), when `old` occurs.
pub open spec fn replace_first(text: Seq<char>, old: Seq<char>, new: Seq<char>) -> Seq<char> {
    let p = first_occ(text, old);
    text.take(p) + new + text.skip(p + old.len())
}

pub open spec fn edit_failed_message(n: nat, path: Seq<char>) -> Seq<char> {
    "Edit #"@ + decimal(n) + " failed: text to replace was not found in '"@ + path + "'"@
}

pub open spec fn chunk_log(n: nat, old: Seq<char>, new: Seq<char>) -> Seq<char> {
    "--- chunk "@ + decimal(n) + "\n- "@ + old + "\n+ "@ + new + "\n"@
}

pub open spec fn edits_view(e: Seq<TextEdit>) -> Seq<(Seq<char>, Seq<char>)> {
    Seq::new(e.len(), |i: int| (e[i].old_text@, e[i].new_text@))
}

/// Applies the edits from the `i`-th on to `text`, logging each; fails at
/// the first edit whose old text is not found.
pub open spec fn edits_from(
    text: Seq<char>,
    log: Seq<char>,
    edits: Seq<(Seq<char>, Seq<char>)>,
    i: int,
    path: Seq<char>,
) -> Result<(Seq<char>, Seq<char>), Seq<char>>
    decreases edits.len() - i,
{
    if i < 0 || i >= edits.len() {
        Ok((text, log))
    } else if !contains_seq(text, edits[i].0) {
        Err(edit_failed_message((i + 1) as nat, path))
    } else {
        edits_from(
            replace_first(text, edits[i].0, edits[i].1),
            log + chunk_log((i + 1) as nat, edits[i].0, edits[i].1),
            edits,
            i + 1,
            path,
        )
    }
}

/// What an edit request gives: the new text and the change log (trailing
/// whitespace removed), or the first failure.
pub open spec fn apply_edits_spec(text: Seq<char>, edits: Seq<(Seq<char>, Seq<char>)>, path: Seq<char>) -> Result<
    (Seq<char>, Seq<char>),
    Seq<char>,
> {
    match edits_from(text, seq![], edits, 0, path) {
        Ok((t, log)) => Ok((t, trim_end_seq(log))),
        Err(e) => Err(e),
    }
}

/// The result of an edit request.
#[derive(Debug, Clone)]
pub struct EditOutcome {
    pub text: String,
    pub log: String,
}

/// Applies edits in order: each replaces the first occurrence of its old
/// text in the text as edited so far; an old text that is not found fails
/// the whole request (`Edit #n failed: ...`). The log lists each change.
pub fn apply_edits(text: &str, edits: &[TextEdit], path_label: &str) -> (r: Result<EditOutcome, String>)
    ensures
        match apply_edits_spec(text@, edits_view(edits@), path_label@) {
            Ok((t, log)) => r matches Ok(o) && o.text@ == t && o.log@ == log,
            Err(e) => r matches Err(m) && m@ == e,
        },
{
    let ghost ev = edits_view(edits@);
    let mut cur = str_chars(text);
    let mut log: Vec<char> = Vec::new();
    let mut i: usize = 0;
    while i < edits.len()
        invariant
            i <= edits.len(),
            ev == edits_view(edits@),
            edits_from(text@, seq![], ev, 0, path_label@) == edits_from(cur@, log@, ev, i as int, path_label@),
        decreases edits.len() - i,
    {
        let old = str_chars(edits[i].old_text.as_str());
        let new = str_chars(edits[i].new_text.as_str());
        assert(ev[i as int] == (old@, new@));
        match find_first(&cur, &old) {
            None => {
                let mut m: Vec<char> = Vec::new();
                append_str(&mut m, "Edit #");
                append_chars(&mut m, &decimal_vec((i + 1) as u64));
                append_str(&mut m, " failed: text to replace was not found in '");
                append_str(&mut m, path_label);
                append_str(&mut m, "'");
                assert(m@ =~= edit_failed_message((i + 1) as nat, path_label@));
                return Err(chars_to_string(&m));
            },
            Some(p) => {
                assert(occurs_at(cur@, old@, p as int));
                let cl = cur.len();
                assert(p + old@.len() <= cl);
                let end_old = p + old.len();
                let ghost old_log = log@;
                append_str(&mut log, "--- chunk ");
                append_chars(&mut log, &decimal_vec((i + 1) as u64));
                append_str(&mut log, "\n- ");
                append_chars(&mut log, &old);
                append_str(&mut log, "\n+ ");
                append_chars(&mut log, &new);
                append_str(&mut log, "\n");
                assert(log@ =~= old_log + chunk_log((i + 1) as nat, old@, new@));
                let mut next = crate::text::slice_vec(&cur, 0, p);
                append_chars(&mut next, &new);
                let after = crate::text::slice_vec(&cur, end_old, cur.len());
                append_chars(&mut next, &after);
                proof {
                    assert(occurs_at(cur@, old@, p as int));
                    assert(contains_seq(cur@, old@));
                    assert(next@ =~= replace_first(cur@, old@, new@));
                }
                cur = next;
                i += 1;
            },
        }
    }
    let ghost lv = log@;
    let mut end = log.len();
    while end > 0 && crate::text::is_whitespace(log[end - 1])
        invariant
            end <= log@.len(),
            log@ == lv,
            forall|k: int| end <= k < lv.len() ==> crate::text::is_ws(#[trigger] lv[k]),
        decreases end,
    {
        end -= 1;
    }
    proof {
        crate::text::lemma_trim_end_take(lv, end as int);
        let u = lv.take(end as int);
        if u.len() > 0 {
            assert(u.last() == lv[end - 1]);
        }
        assert(trim_end_seq(u) == u);
    }
    let trimmed = crate::text::slice_vec(&log, 0, end);
    assert(trimmed@ =~= lv.take(end as int));
    Ok(EditOutcome { text: chars_to_string(&cur), log: chars_to_string(&trimmed) })
}

} // verus!

verus! {

/// A window of a text file's lines.
#[derive(Debug, Clone)]
pub struct LineWindow {
    pub content: String,
    pub lines_returned: usize,
    pub has_more: bool,
    pub next_line_offset: Option<usize>,
}

/// The lines `offset .. offset + limit` of `lines` (clamped to them).
pub open spec fn window_lines(lines: Seq<Seq<char>>, offset: nat, limit: nat) -> Seq<Seq<char>> {
    let s = if offset < lines.len() { offset } else { lines.len() };
    let e = if s + limit < lines.len() { s + limit } else { lines.len() };
    lines.subrange(s as int, e as int)
}

/// Reads a window of lines: `limit` lines after skipping `offset`, joined
/// by line breaks; whether a line follows the window, and where the next
/// window would start.
pub fn line_window(text: &str, offset: usize, limit: usize) -> (r: LineWindow)
    ensures
        ({
            let lines = crate::lines::lines_seq(text@);
            let w = window_lines(lines, offset as nat, limit as nat);
            let more = lines.len() > offset + limit;
            &&& r.content@ == crate::lines::join_seq(w, seq!['\n'])
            &&& r.lines_returned == w.len()
            &&& r.has_more == more
            &&& r.next_line_offset == (if more { Some((offset + w.len()) as usize) } else { None })
        }),
{
    let v = str_chars(text);
    let lines = crate::lines::split_lines(&v);
    let ghost lv = crate::lines::vv(lines@);
    let n = lines.len();
    let s = if offset < n { offset } else { n };
    let e = if limit < n - s { s + limit } else { n };
    let mut picked: Vec<Vec<char>> = Vec::new();
    let mut i = s;
    while i < e
        invariant
            s <= i <= e <= n,
            n == lines@.len(),
            lv == crate::lines::vv(lines@),
            crate::lines::vv(picked@) == lv.subrange(s as int, i as int),
        decreases e - i,
    {
        let ghost before = crate::lines::vv(picked@);
        picked.push(crate::text::slice_vec(&lines[i], 0, lines[i].len()));
        assert(lines@[i as int]@.subrange(0, lines@[i as int]@.len() as int) =~= lines@[i as int]@);
        assert(crate::lines::vv(picked@) =~= before.push(lv[i as int]));
        assert(lv.subrange(s as int, i + 1) =~= lv.subrange(s as int, i as int).push(lv[i as int]));
        i += 1;
    }
    let sep = vec!['\n'];
    assert(sep@ =~= seq!['\n']);
    let content = crate::lines::join_vecs(&picked, &sep);
    let returned = e - s;
    let more = n > offset && n - offset > limit;
    let next = if more { Some(offset + returned) } else { None };
    LineWindow { content: chars_to_string(&content), lines_returned: returned, has_more: more, next_line_offset: next }
}

/// The last `count` lines of a text joined by line breaks, and how many
/// lines it has.
pub fn text_tail(text: &str, count: usize) -> (r: (String, usize))
    ensures
        ({
            let lines = crate::lines::lines_seq(text@);
            let skip = if count < lines.len() { lines.len() - count } else { 0 };
            &&& r.0@ == crate::lines::join_seq(lines.skip(skip), seq!['\n'])
            &&& r.1 == lines.len()
        }),
{
    let v = str_chars(text);
    let lines = crate::lines::split_lines(&v);
    let ghost lv = crate::lines::vv(lines@);
    let n = lines.len();
    let skip = if count < n { n - count } else { 0 };
    let mut picked: Vec<Vec<char>> = Vec::new();
    let mut i = skip;
    while i < n
        invariant
            skip <= i <= n,
            n == lines@.len(),
            lv == crate::lines::vv(lines@),
            crate::lines::vv(picked@) == lv.subrange(skip as int, i as int),
        decreases n - i,
    {
        let ghost before = crate::lines::vv(picked@);
        picked.push(crate::text::slice_vec(&lines[i], 0, lines[i].len()));
        assert(lines@[i as int]@.subrange(0, lines@[i as int]@.len() as int) =~= lines@[i as int]@);
        assert(crate::lines::vv(picked@) =~= before.push(lv[i as int]));
        assert(lv.subrange(skip as int, i + 1) =~= lv.subrange(skip as int, i as int).push(lv[i as int]));
        i += 1;
    }
    assert(lv.subrange(skip as int, n as int) =~= lv.skip(skip as int));
    let sep = vec!['\n'];
    assert(sep@ =~= seq!['\n']);
    let content = crate::lines::join_vecs(&picked, &sep);
    (chars_to_string(&content), n)
}

/// The largest chunk read from a non-image file.
pub open spec fn max_chunk_bytes() -> nat {
    512 * 1024
}

/// The largest chunk read from an image.
pub open spec fn max_image_bytes() -> nat {
    20 * 1024 * 1024
}

/// How a media file's bytes are returned.
#[derive(Debug, Clone, Copy, PartialEq, Eq)]
pub enum MediaKind {
    Image,
    Audio,
    Resource,
}

pub open spec fn media_kind_spec(mime: Seq<char>) -> MediaKind {
    if crate::text::starts_with(mime, "image/"@) {
        MediaKind::Image
    } else if crate::text::starts_with(mime, "audio/"@) {
        MediaKind::Audio
    } else {
        MediaKind::Resource
    }
}

/// Images and audio are returned as such; anything else as a resource.
pub fn media_kind(mime: &str) -> (k: MediaKind)
    ensures
        k == media_kind_spec(mime@),
{
    let m = str_chars(mime);
    if crate::text::starts_with_exec(&m, &str_chars("image/")) {
        MediaKind::Image
    } else if crate::text::starts_with_exec(&m, &str_chars("audio/")) {
        MediaKind::Audio
    } else {
        MediaKind::Resource
    }
}

/// How many bytes to read: the requested length (or the cap), at most the
/// cap, which is larger for images.
pub fn media_chunk_len(kind: MediaKind, requested: Option<usize>) -> (n: usize)
    ensures
        ({
            let cap = if kind == MediaKind::Image { max_image_bytes() } else { max_chunk_bytes() };
            n == match requested {
                Some(q) => if q < cap { q as nat } else { cap },
                None => cap,
            }
        }),
{
    let cap: usize = match kind {
        MediaKind::Image => 20 * 1024 * 1024,
        _ => 512 * 1024,
    };
    match requested {
        Some(q) => if q < cap { q } else { cap },
        None => cap,
    }
}

/// Where a read of a media file leaves off.
#[derive(Debug, Clone, Copy, PartialEq, Eq)]
pub struct MediaPaging {
    pub total_bytes: u64,
    pub offset: u64,
    pub bytes_returned: usize,
    pub has_more: bool,
    pub next_offset: Option<u64>,
}

/// The paging of a read of `n` bytes at `offset` in a file of `total`
/// bytes: more follows when the read ends before the file does.
pub fn media_paging(total: u64, offset: u64, n: usize) -> (p: MediaPaging)
    requires
        offset + n <= u64::MAX,
    ensures
        p.total_bytes == total,
        p.offset == offset,
        p.bytes_returned == n,
        p.has_more == (offset + n < total),
        p.next_offset == (if offset + n < total { Some((offset + n) as u64) } else { None }),
{
    let end = offset + n as u64;
    let has_more = end < total;
    MediaPaging {
        total_bytes: total,
        offset,
        bytes_returned: n,
        has_more,
        next_offset: if has_more { Some(end) } else { None },
    }
}

/// A chunk of a media file ready to be returned.
#[derive(Debug, Clone)]
pub struct MediaChunk {
    pub mime: String,
    pub kind: MediaKind,
    pub data: String,
}

/// Guesses the MIME type of a media file from its path, classifies it,
/// and encodes the bytes read in base64.
pub fn media_chunk(path: &str, bytes: &[u8]) -> (c: MediaChunk)
    requires
        bytes@.len() <= usize::MAX / 2,
    ensures
        !path@.contains('\\') ==> c.mime@ == guessed_mime(path@),
        c.kind == media_kind_spec(c.mime@),
        c.data@ == base64_standard(bytes@),
{
    let mime = guess_mime(path);
    let kind = media_kind(mime.as_str());
    let data = base64_encode(bytes);
    MediaChunk { mime, kind, data }
}

/// The chunk size for a media file: guesses its MIME type from the path
/// and caps the requested length accordingly.
pub fn media_read_len(path: &str, requested: Option<usize>) -> (r: (String, usize))
    ensures
        !path@.contains('\\') ==> r.0@ == guessed_mime(path@),
        r.1 == (match requested {
            Some(q) => if q < (if media_kind_spec(r.0@) == MediaKind::Image { max_image_bytes() } else { max_chunk_bytes() }) { q as nat } else { if media_kind_spec(r.0@) == MediaKind::Image { max_image_bytes() } else { max_chunk_bytes() } },
            None => if media_kind_spec(r.0@) == MediaKind::Image { max_image_bytes() } else { max_chunk_bytes() },
        }),
{
    let mime = guess_mime(path);
    let kind = media_kind(mime.as_str());
    let n = media_chunk_len(kind, requested);
    (mime, n)
}

} // verus!

verus! {

pub open spec fn any_glob(globs: Seq<Seq<char>>, name: Seq<char>) -> bool {
    exists|i: int| 0 <= i < globs.len() && glob_match_result(globs[i], name)
}

/// Whether a name matches one of the exclusion globs (stated for names
/// without a backslash, whose matching is the same on every platform).
pub fn is_excluded(excludes: &[String], name: &str) -> (b: bool)
    ensures
        !name@.contains('\\') ==> b == any_glob(crate::sidecar::strings_view(excludes@), name@),
{
    let ghost ev = crate::sidecar::strings_view(excludes@);
    let mut i: usize = 0;
    while i < excludes.len()
        invariant
            i <= excludes.len(),
            ev == crate::sidecar::strings_view(excludes@),
            !name@.contains('\\') ==> forall|j: int| 0 <= j < i ==> !glob_match_result(ev[j], name@),
        decreases excludes.len() - i,
    {
        if glob_matches(excludes[i].as_str(), name) {
            assert(!name@.contains('\\') ==> glob_match_result(ev[i as int], name@));
            return true;
        }
        i += 1;
    }
    false
}

/// Whether a walked file is reported by a search: its name matches the
/// pattern and no exclusion glob (stated for names without a backslash).
pub fn search_hit(pattern: &str, excludes: &[String], file_name: &str) -> (b: bool)
    ensures
        !file_name@.contains('\\') ==> b == (!any_glob(crate::sidecar::strings_view(excludes@), file_name@) && glob_match_result(
            pattern@,
            file_name@,
        )),
{
    !is_excluded(excludes, file_name) && glob_matches(pattern, file_name)
}

/// One file of a multi-file read: how it was named, and its text or the
/// read error.
#[derive(Debug)]
pub struct FileRead {
    pub label: String,
    pub content: Result<String, String>,
}

pub open spec fn file_block(label: Seq<char>, content: Result<Seq<char>, Seq<char>>) -> Seq<char> {
    "--- "@ + label + " ---\n"@ + match content {
        Ok(t) => t,
        Err(e) => "[Error reading file: "@ + e + "]"@,
    } + "\n\n"@
}

pub open spec fn file_blocks(reads: Seq<FileRead>) -> Seq<char>
    decreases reads.len(),
{
    if reads.len() == 0 {
        seq![]
    } else {
        file_blocks(reads.drop_last()) + file_block(
            reads.last().label@,
            crate::fetch::result_view(reads.last().content),
        )
    }
}

/// The text of a multi-file read: each file under a `--- name ---` header
/// (its text, or the error), blank lines between, trailing whitespace
/// removed.
pub fn combine_file_reads(reads: &[FileRead]) -> (s: String)
    ensures
        s@ == trim_end_seq(file_blocks(reads@)),
{
    let mut out: Vec<char> = Vec::new();
    let mut i: usize = 0;
    while i < reads.len()
        invariant
            i <= reads.len(),
            out@ == file_blocks(reads@.take(i as int)),
        decreases reads.len() - i,
    {
        let ghost before = out@;
        append_str(&mut out, "--- ");
        append_str(&mut out, reads[i].label.as_str());
        append_str(&mut out, " ---\n");
        match &reads[i].content {
            Ok(t) => append_str(&mut out, t.as_str()),
            Err(e) => {
                append_str(&mut out, "[Error reading file: ");
                append_str(&mut out, e.as_str());
                append_str(&mut out, "]");
            },
        }
        append_str(&mut out, "\n\n");
        assert(reads@.take(i + 1).drop_last() =~= reads@.take(i as int));
        assert(out@ =~= before + file_block(reads@[i as int].label@, crate::fetch::result_view(reads@[i as int].content)));
        i += 1;
    }
    assert(reads@.take(reads.len() as int) =~= reads@);
    let ghost ov = out@;
    let mut end = out.len();
    while end > 0 && crate::text::is_whitespace(out[end - 1])
        invariant
            end <= ov.len(),
            out@ == ov,
            forall|k: int| end <= k < ov.len() ==> crate::text::is_ws(#[trigger] ov[k]),
        decreases end,
    {
        end -= 1;
    }
    proof {
        crate::text::lemma_trim_end_take(ov, end as int);
        let u = ov.take(end as int);
        if u.len() > 0 {
            assert(u.last() == ov[end - 1]);
        }
        assert(trim_end_seq(u) == u);
    }
    let t = crate::text::slice_vec(&out, 0, end);
    assert(t@ =~= ov.take(end as int));
    chars_to_string(&t)
}

/// `s` padded with spaces on the right to `width` characters (`{:<width}`).
pub open spec fn pad_right(s: Seq<char>, width: nat) -> Seq<char> {
    if s.len() < width {
        s + Seq::new((width - s.len()) as nat, |_i: int| ' ')
    } else {
        s
    }
}

/// `s` padded with spaces on the left to `width` characters (`{:>width}`).
pub open spec fn pad_left(s: Seq<char>, width: nat) -> Seq<char> {
    if s.len() < width {
        Seq::new((width - s.len()) as nat, |_i: int| ' ') + s
    } else {
        s
    }
}

fn spaces(n: usize) -> (v: Vec<char>)
    ensures
        v@ == Seq::new(n as nat, |_i: int| ' '),
{
    let mut v: Vec<char> = Vec::new();
    let mut i: usize = 0;
    while i < n
        invariant
            i <= n,
            v@ =~= Seq::new(i as nat, |_i: int| ' '),
        decreases n - i,
    {
        v.push(' ');
        i += 1;
    }
    v
}

/// A line of a directory listing.
pub open spec fn entry_line_spec(name: Seq<char>, is_dir: bool) -> Seq<char> {
    if is_dir {
        "[DIR]  "@ + name
    } else {
        "[FILE] "@ + name
    }
}

/// `[DIR]  name` or `[FILE] name`.
pub fn entry_line(name: &str, is_dir: bool) -> (s: String)
    ensures
        s@ == entry_line_spec(name@, is_dir),
{
    let mut v: Vec<char> = Vec::new();
    if is_dir {
        append_str(&mut v, "[DIR]  ");
    } else {
        append_str(&mut v, "[FILE] ");
    }
    append_str(&mut v, name);
    chars_to_string(&v)
}

/// A line of a listing with sizes.
pub open spec fn sized_line_spec(name: Seq<char>, is_dir: bool, size: u64) -> Seq<char> {
    if is_dir {
        "[DIR]  "@ + name
    } else {
        "[FILE] "@ + pad_right(name, 30) + " ("@ + pad_left(decimal(size as nat), 8) + " bytes)"@
    }
}

/// `[DIR]  name`, or `[FILE] name` padded to 30 characters and the size
/// right-aligned in 8.
pub fn sized_entry_line(name: &str, is_dir: bool, size: u64) -> (s: String)
    ensures
        s@ == sized_line_spec(name@, is_dir, size),
{
    if is_dir {
        return entry_line(name, true);
    }
    let n = str_chars(name);
    let mut v: Vec<char> = Vec::new();
    append_str(&mut v, "[FILE] ");
    append_chars(&mut v, &n);
    if n.len() < 30 {
        append_chars(&mut v, &spaces(30 - n.len()));
    }
    append_str(&mut v, " (");
    let d = decimal_vec(size);
    if d.len() < 8 {
        append_chars(&mut v, &spaces(8 - d.len()));
    }
    append_chars(&mut v, &d);
    append_str(&mut v, " bytes)");
    assert(v@ =~= sized_line_spec(name@, is_dir, size));
    chars_to_string(&v)
}

pub open spec fn wrote_message(bytes: nat, path: Seq<char>) -> Seq<char> {
    "Successfully wrote "@ + decimal(bytes) + " bytes to "@ + path
}

/// The report of a write: the content's size in UTF-8 bytes and the path
/// as given.
pub fn wrote_report(content: &str, path: &str) -> (s: String)
    ensures
        s@ == wrote_message(crate::text::utf8_len(content@), path@),
{
    let n = crate::text::utf8_len_exec(&str_chars(content));
    let mut v: Vec<char> = Vec::new();
    append_str(&mut v, "Successfully wrote ");
    append_chars(&mut v, &crate::text::decimal_u128_vec(n));
    append_str(&mut v, " bytes to ");
    append_str(&mut v, path);
    chars_to_string(&v)
}

} // verus!

verus! {

/// The order of `String`s: lexicographic on characters (which is the
/// order of their UTF-8 bytes).
pub open spec fn text_le(a: Seq<char>, b: Seq<char>) -> bool
    decreases a.len(),
{
    if a.len() == 0 {
        true
    } else if b.len() == 0 {
        false
    } else if a[0] != b[0] {
        a[0] < b[0]
    } else {
        text_le(a.drop_first(), b.drop_first())
    }
}

pub proof fn lemma_text_le_total(a: Seq<char>, b: Seq<char>)
    ensures
        text_le(a, b) || text_le(b, a),
        text_le(a, b) && text_le(b, a) ==> a == b,
    decreases a.len(),
{
    if a.len() > 0 && b.len() > 0 && a[0] == b[0] {
        lemma_text_le_total(a.drop_first(), b.drop_first());
        if text_le(a, b) && text_le(b, a) {
            assert(a =~= seq![a[0]] + a.drop_first());
            assert(b =~= seq![b[0]] + b.drop_first());
        }
    } else if a.len() == 0 && b.len() == 0 {
        assert(a =~= b);
    }
}

pub proof fn lemma_text_le_trans(a: Seq<char>, b: Seq<char>, c: Seq<char>)
    requires
        text_le(a, b),
        text_le(b, c),
    ensures
        text_le(a, c),
    decreases a.len(),
{
    if a.len() > 0 && b.len() > 0 && c.len() > 0 && a[0] == b[0] && b[0] == c[0] {
        lemma_text_le_trans(a.drop_first(), b.drop_first(), c.drop_first());
    }
}

fn text_le_exec(a: &[char], b: &[char]) -> (r: bool)
    ensures
        r == text_le(a@, b@),
{
    let mut i: usize = 0;
    assert(a@.skip(0) =~= a@);
    assert(b@.skip(0) =~= b@);
    while i < a.len() && i < b.len() && a[i] == b[i]
        invariant
            i <= a.len(),
            i <= b.len(),
            text_le(a@, b@) == text_le(a@.skip(i as int), b@.skip(i as int)),
        decreases a.len() - i,
    {
        assert(a@.skip(i as int).drop_first() =~= a@.skip(i + 1));
        assert(b@.skip(i as int).drop_first() =~= b@.skip(i + 1));
        i += 1;
    }
    if i == a.len() {
        true
    } else if i == b.len() {
        false
    } else {
        assert(a@.skip(i as int)[0] == a@[i as int]);
        assert(b@.skip(i as int)[0] == b@[i as int]);
        a[i] < b[i]
    }
}

pub open spec fn texts_sorted(s: Seq<Seq<char>>) -> bool {
    forall|i: int, j: int| 0 <= i < j < s.len() ==> text_le(s[i], s[j])
}

/// Sorts lines as `Vec<String>::sort` does: the result is in order and
/// holds the same lines.
pub fn sort_text_lines(lines: Vec<String>) -> (r: Vec<String>)
    ensures
        texts_sorted(crate::sidecar::strings_view(r@)),
        crate::sidecar::strings_view(r@).to_multiset() == crate::sidecar::strings_view(lines@).to_multiset(),
{
    broadcast use vstd::seq_lib::to_multiset_insert;
    let ghost input = crate::sidecar::strings_view(lines@);
    let mut out: Vec<String> = Vec::new();
    let mut i: usize = 0;
    assert(crate::sidecar::strings_view(out@) =~= input.take(0));
    while i < lines.len()
        invariant
            i <= lines.len(),
            input == crate::sidecar::strings_view(lines@),
            texts_sorted(crate::sidecar::strings_view(out@)),
            crate::sidecar::strings_view(out@).to_multiset() == input.take(i as int).to_multiset(),
        decreases lines.len() - i,
    {
        let x = str_chars(lines[i].as_str());
        let ghost ov = crate::sidecar::strings_view(out@);
        let mut j: usize = 0;
        while j < out.len() && text_le_exec(&str_chars(out[j].as_str()), &x)
            invariant
                j <= out@.len(),
                ov == crate::sidecar::strings_view(out@),
                forall|k: int| 0 <= k < j ==> text_le(#[trigger] ov[k], x@),
            decreases out@.len() - j,
        {
            j += 1;
        }
        proof {
            if j < ov.len() {
                lemma_text_le_total(ov[j as int], x@);
                assert forall|k: int| j <= k < ov.len() implies text_le(x@, #[trigger] ov[k]) by {
                    if k > j {
                        lemma_text_le_trans(x@, ov[j as int], ov[k]);
                    }
                }
            }
        }
        out.insert(j, lines[i].clone());
        proof {
            let nv = crate::sidecar::strings_view(out@);
            assert(nv =~= ov.insert(j as int, x@));
            assert forall|a: int, b: int| 0 <= a < b < nv.len() implies text_le(nv[a], nv[b]) by {
                if b < j {
                } else if a < j && b == j {
                } else if a < j && b > j {
                    assert(nv[b] == ov[b - 1]);
                    lemma_text_le_trans(ov[a], x@, ov[b - 1]);
                } else if a == j {
                    assert(nv[b] == ov[b - 1]);
                } else {
                    assert(nv[a] == ov[a - 1]);
                    assert(nv[b] == ov[b - 1]);
                }
            }
            assert(input.take(i + 1) =~= input.take(i as int).push(x@));
            vstd::seq_lib::to_multiset_build(input.take(i as int), x@);
            vstd::seq_lib::to_multiset_insert(ov, j as int, x@);
            assert(nv.to_multiset() == ov.to_multiset().insert(x@));
        }
        i += 1;
    }
    assert(input.take(lines.len() as int) =~= input);
    out
}

/// A directory listing: one `[DIR]  name` or `[FILE] name` line per entry,
/// sorted, joined by line breaks.
pub fn directory_listing(names: &[String], is_dir: &[bool]) -> (s: String)
    requires
        names.len() == is_dir.len(),
    ensures
        ({
            let lines = Seq::new(names@.len(), |i: int| entry_line_spec(names@[i]@, is_dir@[i]));
            exists|sorted: Seq<Seq<char>>|
                texts_sorted(sorted) && sorted.to_multiset() == lines.to_multiset() && s@
                    == crate::lines::join_seq(sorted, seq!['\n'])
        }),
{
    let ghost lines = Seq::new(names@.len(), |i: int| entry_line_spec(names@[i]@, is_dir@[i]));
    let mut ls: Vec<String> = Vec::new();
    let mut i: usize = 0;
    while i < names.len()
        invariant
            i <= names.len(),
            names.len() == is_dir.len(),
            lines == Seq::new(names@.len(), |i: int| entry_line_spec(names@[i]@, is_dir@[i])),
            crate::sidecar::strings_view(ls@) =~= lines.take(i as int),
        decreases names.len() - i,
    {
        let ghost before = crate::sidecar::strings_view(ls@);
        let line = entry_line(names[i].as_str(), is_dir[i]);
        ls.push(line);
        assert(crate::sidecar::strings_view(ls@) =~= before.push(line@));
        assert(lines.take(i + 1) =~= lines.take(i as int).push(lines[i as int]));
        i += 1;
    }
    assert(lines.take(names.len() as int) =~= lines);
    let sorted = sort_text_lines(ls);
    let mut parts: Vec<Vec<char>> = Vec::new();
    let mut k: usize = 0;
    while k < sorted.len()
        invariant
            k <= sorted.len(),
            crate::lines::vv(parts@) =~= crate::sidecar::strings_view(sorted@).take(k as int),
        decreases sorted.len() - k,
    {
        let ghost before = crate::lines::vv(parts@);
        let p = str_chars(sorted[k].as_str());
        parts.push(p);
        assert(crate::lines::vv(parts@) =~= before.push(p@));
        assert(crate::sidecar::strings_view(sorted@).take(k + 1) =~= crate::sidecar::strings_view(sorted@).take(k as int).push(sorted@[k as int]@));
        k += 1;
    }
    assert(crate::sidecar::strings_view(sorted@).take(sorted.len() as int) =~= crate::sidecar::strings_view(sorted@));
    let sep = vec!['\n'];
    assert(sep@ =~= seq!['\n']);
    let joined = crate::lines::join_vecs(&parts, &sep);
    chars_to_string(&joined)
}

} // verus!

verus! {

/// A directory entry with its size.
#[derive(Debug, Clone)]
pub struct SizedEntry {
    pub name: String,
    pub is_dir: bool,
    pub size: u64,
}

/// Whether `a` may stay before `b`: by size, larger first; else by
/// lower-cased name.
pub open spec fn entry_le(a: SizedEntry, b: SizedEntry, by_size: bool) -> bool {
    if by_size {
        a.size >= b.size
    } else {
        text_le(crate::text::lowercase_spec(a.name@), crate::text::lowercase_spec(b.name@))
    }
}

/// Where a stable insertion puts `x`: after every leading entry that may
/// stay before it.
pub open spec fn insert_pos(s: Seq<SizedEntry>, x: SizedEntry, by_size: bool) -> int
    decreases s.len(),
{
    if s.len() == 0 {
        0
    } else if !entry_le(s[0], x, by_size) {
        0
    } else {
        1 + insert_pos(s.drop_first(), x, by_size)
    }
}

/// The stable sort of entries (`sort_by_key`): each entry inserted after
/// the equal and smaller ones already placed.
pub open spec fn stable_sort(s: Seq<SizedEntry>, by_size: bool) -> Seq<SizedEntry>
    decreases s.len(),
{
    if s.len() == 0 {
        seq![]
    } else {
        let r = stable_sort(s.drop_last(), by_size);
        r.insert(insert_pos(r, s.last(), by_size), s.last())
    }
}

proof fn lemma_insert_pos(s: Seq<SizedEntry>, x: SizedEntry, by_size: bool, j: int)
    requires
        0 <= j <= s.len(),
        forall|k: int| 0 <= k < j ==> entry_le(#[trigger] s[k], x, by_size),
        j < s.len() ==> !entry_le(s[j], x, by_size),
    ensures
        insert_pos(s, x, by_size) == j,
    decreases s.len(),
{
    if s.len() > 0 && j > 0 {
        assert(entry_le(s[0], x, by_size));
        assert forall|k: int| 0 <= k < j - 1 implies entry_le(#[trigger] s.drop_first()[k], x, by_size) by {
            assert(s.drop_first()[k] == s[k + 1]);
        }
        lemma_insert_pos(s.drop_first(), x, by_size, j - 1);
    }
}

fn entry_le_exec(a: &SizedEntry, b: &SizedEntry, by_size: bool) -> (r: bool)
    ensures
        r == entry_le(*a, *b, by_size),
{
    if by_size {
        a.size >= b.size
    } else {
        let ka = crate::text::lowercase_vec(&str_chars(a.name.as_str()));
        let kb = crate::text::lowercase_vec(&str_chars(b.name.as_str()));
        text_le_exec(&ka, &kb)
    }
}

fn copy_entry(e: &SizedEntry) -> (r: SizedEntry)
    ensures
        r == *e,
{
    SizedEntry { name: e.name.clone(), is_dir: e.is_dir, size: e.size }
}

/// Sorts entries stably, by size (larger first) or by lower-cased name.
pub fn sort_entries(entries: &[SizedEntry], by_size: bool) -> (r: Vec<SizedEntry>)
    ensures
        r@ == stable_sort(entries@, by_size),
{
    let mut out: Vec<SizedEntry> = Vec::new();
    let mut i: usize = 0;
    assert(entries@.take(0) =~= Seq::<SizedEntry>::empty());
    while i < entries.len()
        invariant
            i <= entries.len(),
            out@ == stable_sort(entries@.take(i as int), by_size),
        decreases entries.len() - i,
    {
        let x = copy_entry(&entries[i]);
        let mut j: usize = 0;
        while j < out.len() && entry_le_exec(&out[j], &x, by_size)
            invariant
                j <= out@.len(),
                forall|k: int| 0 <= k < j ==> entry_le(#[trigger] out@[k], x, by_size),
            decreases out@.len() - j,
        {
            j += 1;
        }
        proof {
            lemma_insert_pos(out@, x, by_size, j as int);
            assert(entries@.take(i + 1).drop_last() =~= entries@.take(i as int));
            assert(entries@.take(i + 1).last() == x);
        }
        out.insert(j, x);
        i += 1;
    }
    assert(entries@.take(entries.len() as int) =~= entries@);
    out
}

/// A listing with sizes: entries sorted by size (larger first) when asked,
/// else by lower-cased name, one line each, joined by line breaks.
pub fn sized_listing(entries: &[SizedEntry], by_size: bool) -> (s: String)
    ensures
        ({
            let sorted = stable_sort(entries@, by_size);
            s@ == crate::lines::join_seq(
                Seq::new(sorted.len(), |i: int| sized_line_spec(sorted[i].name@, sorted[i].is_dir, sorted[i].size)),
                seq!['\n'],
            )
        }),
{
    let sorted = sort_entries(entries, by_size);
    let ghost lines = Seq::new(sorted@.len(), |i: int| sized_line_spec(sorted@[i].name@, sorted@[i].is_dir, sorted@[i].size));
    let mut parts: Vec<Vec<char>> = Vec::new();
    let mut k: usize = 0;
    while k < sorted.len()
        invariant
            k <= sorted.len(),
            lines == Seq::new(sorted@.len(), |i: int| sized_line_spec(sorted@[i].name@, sorted@[i].is_dir, sorted@[i].size)),
            crate::lines::vv(parts@) =~= lines.take(k as int),
        decreases sorted.len() - k,
    {
        let ghost before = crate::lines::vv(parts@);
        let line = sized_entry_line(sorted[k].name.as_str(), sorted[k].is_dir, sorted[k].size);
        let p = str_chars(line.as_str());
        parts.push(p);
        assert(crate::lines::vv(parts@) =~= before.push(p@));
        assert(lines.take(k + 1) =~= lines.take(k as int).push(lines[k as int]));
        k += 1;
    }
    assert(lines.take(sorted.len() as int) =~= lines);
    let sep = vec!['\n'];
    assert(sep@ =~= seq!['\n']);
    let joined = crate::lines::join_vecs(&parts, &sep);
    chars_to_string(&joined)
}

} // verus!

verus! {

/// With no edits the text comes back unchanged with an empty log.
pub proof fn law_no_edits_no_change(text: Seq<char>, path: Seq<char>)
    ensures
        apply_edits_spec(text, seq![], path) == Ok::<(Seq<char>, Seq<char>), Seq<char>>((text, seq![])),
{
    assert(trim_end_seq(seq![]) == Seq::<char>::empty());
}

/// One edit whose old text occurs replaces its first occurrence, and only
/// that; one whose old text does not occur fails the request.
pub proof fn law_single_edit(text: Seq<char>, old: Seq<char>, new: Seq<char>, path: Seq<char>)
    ensures
        contains_seq(text, old) ==> apply_edits_spec(text, seq![(old, new)], path) == Ok::<(Seq<char>, Seq<char>), Seq<char>>(
            (replace_first(text, old, new), trim_end_seq(chunk_log(1, old, new))),
        ),
        !contains_seq(text, old) ==> apply_edits_spec(text, seq![(old, new)], path) == Err::<(Seq<char>, Seq<char>), Seq<char>>(
            edit_failed_message(1, path),
        ),
{
    let e = seq![(old, new)];
    if contains_seq(text, old) {
        let t1 = replace_first(text, old, new);
        let l1 = Seq::<char>::empty() + chunk_log(1, old, new);
        assert(l1 =~= chunk_log(1, old, new));
        assert(edits_from(t1, l1, e, 1, path) == Ok::<(Seq<char>, Seq<char>), Seq<char>>((t1, l1)));
    }
}

} // verus!

verus! {

/// The text after the first `k` edits, each replacing the first occurrence
/// of its old text in the text left by the ones before.
pub open spec fn text_after_edits(text: Seq<char>, edits: Seq<(Seq<char>, Seq<char>)>, k: nat) -> Seq<char>
    decreases k,
{
    if k == 0 || k > edits.len() {
        text
    } else {
        let prev = text_after_edits(text, edits, (k - 1) as nat);
        replace_first(prev, edits[k - 1].0, edits[k - 1].1)
    }
}

/// Whether the old text of each of the edits `i..k` occurs in the text left
/// by the edits before it.
pub open spec fn edits_found(text: Seq<char>, edits: Seq<(Seq<char>, Seq<char>)>, i: int, k: int) -> bool {
    forall|j: int| i <= j < k ==> contains_seq(#[trigger] text_after_edits(text, edits, j as nat), edits[j].0)
}

proof fn lemma_edits_from_outcome(
    text: Seq<char>,
    t: Seq<char>,
    log: Seq<char>,
    edits: Seq<(Seq<char>, Seq<char>)>,
    i: int,
    path: Seq<char>,
)
    requires
        0 <= i <= edits.len(),
        t == text_after_edits(text, edits, i as nat),
    ensures
        edits_found(text, edits, i, edits.len() as int) ==> (edits_from(t, log, edits, i, path) matches Ok(
            (t2, _),
        ) && t2 == text_after_edits(text, edits, edits.len())),
        forall|k: int|
            i <= k < edits.len() && edits_found(text, edits, i, k) && !contains_seq(
                #[trigger] text_after_edits(text, edits, k as nat),
                edits[k].0,
            ) ==> edits_from(t, log, edits, i, path) == Err::<(Seq<char>, Seq<char>), Seq<char>>(
                edit_failed_message((k + 1) as nat, path),
            ),
    decreases edits.len() - i,
{
    if i < edits.len() {
        let t1 = replace_first(t, edits[i].0, edits[i].1);
        let l1 = log + chunk_log((i + 1) as nat, edits[i].0, edits[i].1);
        assert(text_after_edits(text, edits, (i + 1) as nat) == t1);
        lemma_edits_from_outcome(text, t1, l1, edits, i + 1, path);
        if edits_found(text, edits, i, edits.len() as int) {
            assert(contains_seq(text_after_edits(text, edits, i as nat), edits[i].0));
            assert(edits_found(text, edits, i + 1, edits.len() as int));
        }
        assert forall|k: int|
            i <= k < edits.len() && edits_found(text, edits, i, k) && !contains_seq(
                #[trigger] text_after_edits(text, edits, k as nat),
                edits[k].0,
            ) implies edits_from(t, log, edits, i, path) == Err::<(Seq<char>, Seq<char>), Seq<char>>(
            edit_failed_message((k + 1) as nat, path),
        ) by {
            if k > i {
                assert(contains_seq(text_after_edits(text, edits, i as nat), edits[i].0));
                assert(edits_found(text, edits, i + 1, k));
            }
        }
    }
}

/// Edits apply in order, each to the text the earlier ones left: the
/// request succeeds exactly when every old text is found there, giving the
/// text after all edits; when the `k`-th edit (counting from 1) is the
/// first whose old text is missing, the request fails naming edit `k`,
/// whatever edits come after it.
pub proof fn law_edits_apply_in_order(text: Seq<char>, edits: Seq<(Seq<char>, Seq<char>)>, path: Seq<char>)
    ensures
        apply_edits_spec(text, edits, path) is Ok <==> edits_found(text, edits, 0, edits.len() as int),
        apply_edits_spec(text, edits, path) matches Ok((t, _)) ==> t == text_after_edits(text, edits, edits.len()),
        forall|k: int|
            0 <= k < edits.len() && edits_found(text, edits, 0, k) && !contains_seq(
                #[trigger] text_after_edits(text, edits, k as nat),
                edits[k].0,
            ) ==> apply_edits_spec(text, edits, path) == Err::<(Seq<char>, Seq<char>), Seq<char>>(
                edit_failed_message((k + 1) as nat, path),
            ),
{
    lemma_edits_from_outcome(text, text, seq![], edits, 0, path);
    if !edits_found(text, edits, 0, edits.len() as int) {
        let k = choose|k: int| 0 <= k < edits.len() && !contains_seq(#[trigger] text_after_edits(text, edits, k as nat), edits[k].0);
        lemma_first_missing(text, edits, k);
    }
}

/// Where some old text is missing, there is a first edit whose old text is.
proof fn lemma_first_missing(text: Seq<char>, edits: Seq<(Seq<char>, Seq<char>)>, k: int)
    requires
        0 <= k < edits.len(),
        !contains_seq(text_after_edits(text, edits, k as nat), edits[k].0),
    ensures
        exists|m: int| 0 <= m <= k && edits_found(text, edits, 0, m) && !contains_seq(
            #[trigger] text_after_edits(text, edits, m as nat),
            edits[m].0,
        ),
    decreases k,
{
    if edits_found(text, edits, 0, k) {
        assert(0 <= k <= k);
    } else {
        let m = choose|m: int| 0 <= m < k && !contains_seq(#[trigger] text_after_edits(text, edits, m as nat), edits[m].0);
        lemma_first_missing(text, edits, m);
    }
}

} // verus!
