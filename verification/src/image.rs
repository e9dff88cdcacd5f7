//! Image plugin logic: output directories, site names of gallery URLs,
//! SVG detection and the raster size requested in an SVG path, and the
//! result records of comparisons and conversions.
use vstd::prelude::*;
use crate::command::{binary_outcome, binary_result, CmdExecResponse};
use crate::filesystem::{opt_str_view, path_join};
use crate::lines::{find_char, find_char_from};
use crate::media::{first_label, url_domain, url_domain_exec};
use crate::text::{
    occurs_at, chars_to_string, contains_seq, ends_with, ends_with_exec, find_first, first_occ,
    lowercase_vec, parse_u32, parse_u32_spec, slice_vec, str_chars,
};

verus! {

/// Pixel counts of an image comparison.
#[derive(Debug, Clone)]
pub struct ComparisonStats {
    pub width: u32,
    pub height: u32,
    pub pixels_compared: usize,
    pub matching_pixels: usize,
    pub differing_pixels: usize,
}

/// The result of an image format conversion.
#[derive(Debug, Clone)]
pub struct ConvertImageResponse {
    pub success: bool,
    pub output_path: String,
    pub input_format: String,
    pub output_format: String,
    pub message: String,
}

/// Reads a gallery tool's response: the trimmed output when it succeeded,
/// else an error naming the program.
pub fn run_binary(program: &str, response: &CmdExecResponse) -> (r: Result<String, String>)
    ensures
        match r {
            Ok(s) => binary_outcome(program@, response.success, response.stdout@, response.stderr@) == Ok::<Seq<char>, Seq<char>>(s@),
            Err(e) => binary_outcome(program@, response.success, response.stdout@, response.stderr@) == Err::<Seq<char>, Seq<char>>(e@),
        },
{
    binary_result(program, response)
}

/// The output directory: the requested one, else the one from the
/// environment (`OUTPUT_DIRECTORY`, `OUTPUT_DIR` or `ALLOWED_DIR`, as the
/// caller found it), else `.`, placed under the allowed root when relative.
pub open spec fn image_dir_spec(dir_param: Option<Seq<char>>, env_dir: Option<Seq<char>>, allowed_root: Option<Seq<char>>) -> Seq<char> {
    let raw = match dir_param {
        Some(d) => d,
        None => match env_dir {
            Some(e) => e,
            None => "."@,
        },
    };
    match allowed_root {
        Some(root) => path_join(root, raw),
        None => raw,
    }
}

/// Resolves the output directory of the image tools.
pub fn resolve_dir(dir_param: Option<&str>, env_dir: Option<&str>, allowed_root: Option<&str>) -> (out: String)
    ensures
        out@ == image_dir_spec(opt_str_view(dir_param), opt_str_view(env_dir), opt_str_view(allowed_root)),
{
    let raw = match dir_param {
        Some(d) => str_chars(d),
        None => match env_dir {
            Some(e) => str_chars(e),
            None => str_chars("."),
        },
    };
    match allowed_root {
        Some(root) => {
            let r = str_chars(root);
            let j = crate::filesystem::path_join_pub(&r, &raw);
            chars_to_string(&j)
        },
        None => chars_to_string(&raw),
    }
}

/// The domain of a gallery URL and its first label.
pub fn extract_domain_and_stem(url: &str) -> (r: (String, String))
    ensures
        r.0@ == url_domain(url@),
        r.1@ == first_label(url_domain(url@)),
{
    let d = url_domain_exec(url);
    let i = find_char_from(&d, '.', 0);
    assert(d@.skip(0) =~= d@);
    let stem = slice_vec(&d, 0, i);
    assert(stem@ =~= d@.take(i as int));
    (chars_to_string(&d), chars_to_string(&stem))
}

/// Whether a path names an SVG file (lower-cased, it ends with `.svg`).
pub fn is_svg_file(path: &str) -> (b: bool)
    ensures
        b == ends_with(crate::text::lowercase_spec(path@), ".svg"@),
{
    let v = str_chars(path);
    let l = lowercase_vec(&v);
    ends_with_exec(&l, &str_chars(".svg"))
}

/// The text after the first `pat` up to the next `pat` (the second piece of
/// `str::split(pat)`), cut at the first space.
pub open spec fn dimension_text(path: Seq<char>, pat: Seq<char>) -> Seq<char> {
    let after = path.skip(first_occ(path, pat) + pat.len());
    let piece = if contains_seq(after, pat) {
        after.take(first_occ(after, pat))
    } else {
        after
    };
    piece.take(find_char(piece, ' '))
}

/// The raster size of an SVG path: when it mentions both `width=` and
/// `height=`, the numbers after them (each falling back to its default when
/// it does not parse), else the defaults.
pub open spec fn svg_dimensions_spec(path: Seq<char>, default_width: u32, default_height: u32) -> (u32, u32) {
    if contains_seq(path, "width="@) && contains_seq(path, "height="@) {
        let w = match parse_u32_spec(dimension_text(path, "width="@)) {
            Some(v) => v,
            None => default_width,
        };
        let h = match parse_u32_spec(dimension_text(path, "height="@)) {
            Some(v) => v,
            None => default_height,
        };
        (w, h)
    } else {
        (default_width, default_height)
    }
}

#[verifier::rlimit(30)]
fn dimension_text_exec(path: &[char], pat: &[char]) -> (out: Vec<char>)
    requires
        contains_seq(path@, pat@),
    ensures
        out@ == dimension_text(path@, pat@),
{
    let i = match find_first(path, pat) {
        Some(i) => i,
        None => {
            return Vec::new();
        },
    };
    assert(occurs_at(path@, pat@, i as int));
    assert(i + pat.len() <= path.len());
    let after = slice_vec(path, i + pat.len(), path.len());
    assert(after@ =~= path@.skip(first_occ(path@, pat@) + pat@.len()));
    let fa = find_first(&after, pat);
    let piece = match fa {
        Some(j) => {
            let p = slice_vec(&after, 0, j);
            assert(p@ =~= after@.take(first_occ(after@, pat@)));
            p
        },
        None => {
            let p = slice_vec(&after, 0, after.len());
            assert(p@ =~= after@);
            p
        },
    };
    let k = find_char_from(&piece, ' ', 0);
    assert(piece@.skip(0) =~= piece@);
    let out = slice_vec(&piece, 0, k);
    assert(out@ =~= piece@.take(k as int));
    out
}

/// The raster size requested for an SVG file through its path.
pub fn svg_dimensions(path: &str, default_width: u32, default_height: u32) -> (r: (u32, u32))
    ensures
        r == svg_dimensions_spec(path@, default_width, default_height),
{
    let v = str_chars(path);
    let wp = str_chars("width=");
    let hp = str_chars("height=");
    let has_w = find_first(&v, &wp);
    let has_h = find_first(&v, &hp);
    if has_w.is_some() && has_h.is_some() {
        let wt = dimension_text_exec(&v, &wp);
        let ht = dimension_text_exec(&v, &hp);
        let w = match parse_u32(&wt) {
            Some(x) => x,
            None => default_width,
        };
        let h = match parse_u32(&ht) {
            Some(x) => x,
            None => default_height,
        };
        (w, h)
    } else {
        (default_width, default_height)
    }
}

} // verus!

verus! {

/// Whether a text is an http or https URL.
pub open spec fn is_web_url(s: Seq<char>) -> bool {
    crate::text::starts_with(s, "http://"@) || crate::text::starts_with(s, "https://"@)
}

/// Whether member `k` of an object is a web URL string.
pub open spec fn url_member(e: Seq<(String, crate::json::JsonValue)>, k: Seq<char>) -> bool {
    match crate::json::member(e, k) {
        Some(crate::json::JsonValue::Str(s)) => is_web_url(s@),
        _ => false,
    }
}

/// The text of member `k` (meaningful where `url_member` holds).
pub open spec fn url_text(e: Seq<(String, crate::json::JsonValue)>, k: Seq<char>) -> Seq<char> {
    crate::json::member(e, k)->Some_0->Str_0@
}

/// The URL of a gallery record: the first of `url`, `file_url`, `image`,
/// `preview_url` and `src` that holds one.
pub open spec fn record_url(e: Seq<(String, crate::json::JsonValue)>) -> Seq<Seq<char>> {
    if url_member(e, "url"@) {
        seq![url_text(e, "url"@)]
    } else if url_member(e, "file_url"@) {
        seq![url_text(e, "file_url"@)]
    } else if url_member(e, "image"@) {
        seq![url_text(e, "image"@)]
    } else if url_member(e, "preview_url"@) {
        seq![url_text(e, "preview_url"@)]
    } else if url_member(e, "src"@) {
        seq![url_text(e, "src"@)]
    } else {
        Seq::empty()
    }
}

/// The media URLs in a gallery-dl JSON value, in document order: an array
/// that starts with a number is a message whose second element may be the
/// URL; any other array is searched element by element; an object gives the
/// URL of its record.
pub open spec fn value_urls(v: crate::json::JsonValue) -> Seq<Seq<char>>
    decreases v,
{
    match v {
        crate::json::JsonValue::Array(a) => {
            if a@.len() > 0 && a@[0] is Number {
                if a@.len() > 1 && a@[1] is Str && is_web_url(a@[1]->Str_0@) {
                    seq![a@[1]->Str_0@]
                } else {
                    Seq::empty()
                }
            } else {
                proof {
                    assert(decreases_to!(v => v->Array_0));
                    vstd::std_specs::vec::axiom_vec_decreases_to_view(v->Array_0);
                }
                items_urls(a@)
            }
        },
        crate::json::JsonValue::Object(e) => record_url(e@),
        _ => Seq::empty(),
    }
}

/// The media URLs of a sequence of values, in order.
pub open spec fn items_urls(s: Seq<crate::json::JsonValue>) -> Seq<Seq<char>>
    decreases s,
{
    if s.len() == 0 {
        Seq::empty()
    } else {
        items_urls(s.drop_last()) + value_urls(s.last())
    }
}

fn web_url(s: &String) -> (b: bool)
    ensures
        b == is_web_url(s@),
{
    let v = str_chars(s.as_str());
    crate::text::starts_with_exec(&v, &str_chars("http://")) || crate::text::starts_with_exec(
        &v,
        &str_chars("https://"),
    )
}

fn url_member_exec(e: &Vec<(String, crate::json::JsonValue)>, k: &str) -> (r: Option<String>)
    ensures
        match r {
            Some(u) => url_member(e@, k@) && u@ == url_text(e@, k@),
            None => !url_member(e@, k@),
        },
{
    proof {
        crate::json::lemma_key_index(e@, k@);
    }
    if let Some(i) = crate::json::find_key(e, k) {
        if let crate::json::JsonValue::Str(s) = &e[i].1 {
            if web_url(s) {
                return Some(s.clone());
            }
        }
    }
    None
}

fn push_url(urls: &mut Vec<String>, u: String)
    ensures
        crate::sidecar::strings_view(final(urls)@) == crate::sidecar::strings_view(old(urls)@).push(u@),
{
    urls.push(u);
    assert(crate::sidecar::strings_view(final(urls)@) =~= crate::sidecar::strings_view(old(urls)@).push(u@));
}

/// Appends the media URLs found in a gallery-dl JSON value.
pub fn collect_urls_from_value(val: &crate::json::JsonValue, urls: &mut Vec<String>)
    ensures
        crate::sidecar::strings_view(final(urls)@) == crate::sidecar::strings_view(old(urls)@) + value_urls(*val),
    decreases val,
{
    let ghost start = crate::sidecar::strings_view(urls@);
    match val {
        crate::json::JsonValue::Array(arr) => {
            if arr.len() > 0 && matches!(arr[0], crate::json::JsonValue::Number(_)) {
                if arr.len() > 1 {
                    if let crate::json::JsonValue::Str(s) = &arr[1] {
                        if web_url(s) {
                            push_url(urls, s.clone());
                            assert(start.push(s@) =~= start + value_urls(*val));
                            return;
                        }
                    }
                }
                assert(start + value_urls(*val) =~= start);
            } else {
                let mut i: usize = 0;
                assert(items_urls(arr@.take(0)) =~= Seq::<Seq<char>>::empty());
                assert(start + Seq::<Seq<char>>::empty() =~= start);
                while i < arr.len()
                    invariant
                        i <= arr.len(),
                        *val == crate::json::JsonValue::Array(*arr),
                        crate::sidecar::strings_view(urls@) == start + items_urls(arr@.take(i as int)),
                    decreases arr.len() - i,
                {
                    proof {
                        assert(decreases_to!(*val => (*val)->Array_0));
                        vstd::std_specs::vec::axiom_vec_index_decreases(*arr, i as int);
                        assert(arr@.take(i + 1).drop_last() =~= arr@.take(i as int));
                    }
                    collect_urls_from_value(&arr[i], urls);
                    assert(start + items_urls(arr@.take(i + 1)) =~= start + items_urls(arr@.take(i as int))
                        + value_urls(arr@[i as int]));
                    i += 1;
                }
                assert(arr@.take(arr.len() as int) =~= arr@);
            }
        },
        crate::json::JsonValue::Object(obj) => {
            let mut found: Option<String> = url_member_exec(obj, "url");
            if found.is_none() {
                found = url_member_exec(obj, "file_url");
            }
            if found.is_none() {
                found = url_member_exec(obj, "image");
            }
            if found.is_none() {
                found = url_member_exec(obj, "preview_url");
            }
            if found.is_none() {
                found = url_member_exec(obj, "src");
            }
            match found {
                Some(u) => {
                    push_url(urls, u);
                    assert(crate::sidecar::strings_view(urls@) =~= start + value_urls(*val));
                },
                None => {
                    assert(start + value_urls(*val) =~= start);
                },
            }
        },
        _ => {
            assert(start + value_urls(*val) =~= start);
        },
    }
}

/// The media URLs of a gallery-dl dump, each once, in the order first
/// found. The caller parses the output as one JSON document or, failing
/// that, as a stream of them, and hands over the values.
pub fn parse_gallerydl_output(values: &Vec<crate::json::JsonValue>) -> (r: Vec<String>)
    ensures
        crate::sidecar::strings_view(r@) == crate::media::dedup_spec(items_urls(values@)),
{
    let mut urls: Vec<String> = Vec::new();
    let mut i: usize = 0;
    assert(crate::sidecar::strings_view(urls@) =~= items_urls(values@.take(0)));
    while i < values.len()
        invariant
            i <= values.len(),
            crate::sidecar::strings_view(urls@) == items_urls(values@.take(i as int)),
        decreases values.len() - i,
    {
        assert(values@.take(i + 1).drop_last() =~= values@.take(i as int));
        collect_urls_from_value(&values[i], &mut urls);
        i += 1;
    }
    assert(values@.take(values.len() as int) =~= values@);
    crate::media::dedup_urls(&urls)
}

} // verus!

verus! {

/// How the tracer reads colours.
#[derive(Debug, Clone, Copy, PartialEq, Eq)]
pub enum TraceColorMode {
    Color,
    Binary,
}

/// How the tracer stacks the shapes it finds.
#[derive(Debug, Clone, Copy, PartialEq, Eq)]
pub enum TraceHierarchy {
    Stacked,
    Cutout,
}

/// How the tracer simplifies paths.
#[derive(Debug, Clone, Copy, PartialEq, Eq)]
pub enum TraceCurveMode {
    Spline,
    Polygon,
    Pixel,
}

/// The tracing options of a request, as the text it gave for each.
#[derive(Debug, Clone)]
pub struct TraceArgs {
    pub color_mode: Option<String>,
    pub hierarchical: Option<String>,
    pub curve_mode: Option<String>,
    pub color_precision: Option<String>,
    pub filter_speckle: Option<String>,
    pub layer_difference: Option<String>,
    pub corner_threshold: Option<String>,
    pub splice_threshold: Option<String>,
    pub max_iterations: Option<String>,
    pub path_precision: Option<String>,
}

/// The tracing settings a request changes; `None` keeps the tracer's
/// default.
#[derive(Debug, Clone, Copy, PartialEq, Eq)]
pub struct TraceSettings {
    pub color_mode: Option<TraceColorMode>,
    pub hierarchical: Option<TraceHierarchy>,
    pub curve_mode: Option<TraceCurveMode>,
    pub color_precision: Option<i32>,
    pub filter_speckle: Option<usize>,
    pub layer_difference: Option<i32>,
    pub corner_threshold: Option<i32>,
    pub splice_threshold: Option<i32>,
    pub max_iterations: Option<usize>,
    pub path_precision: Option<u32>,
}

/// `binary` or `bw` (in any case) reads black and white; anything else
/// reads colour.
pub open spec fn color_mode_spec(v: Seq<char>) -> TraceColorMode {
    let l = crate::text::lowercase_spec(v);
    if l == "binary"@ || l == "bw"@ {
        TraceColorMode::Binary
    } else {
        TraceColorMode::Color
    }
}

/// `cutout` (in any case) cuts shapes out; anything else stacks them.
pub open spec fn hierarchy_spec(v: Seq<char>) -> TraceHierarchy {
    if crate::text::lowercase_spec(v) == "cutout"@ {
        TraceHierarchy::Cutout
    } else {
        TraceHierarchy::Stacked
    }
}

/// `polygon` gives polygons, `none` or `pixel` keeps the pixel outline, and
/// anything else fits splines (in any case).
pub open spec fn curve_mode_spec(v: Seq<char>) -> TraceCurveMode {
    let l = crate::text::lowercase_spec(v);
    if l == "polygon"@ {
        TraceCurveMode::Polygon
    } else if l == "none"@ || l == "pixel"@ {
        TraceCurveMode::Pixel
    } else {
        TraceCurveMode::Spline
    }
}

pub open spec fn opt_map_i32(o: Option<String>) -> Option<i32> {
    match o {
        Some(s) => crate::text::parse_i32_spec(s@),
        None => None,
    }
}

pub open spec fn opt_map_usize(o: Option<String>) -> Option<usize> {
    match o {
        Some(s) => crate::text::parse_usize_spec(s@),
        None => None,
    }
}

/// The settings a request asks for: each mode from its text, each number
/// where its text parses as that number type (else the default stays).
pub open spec fn trace_settings_spec(a: TraceArgs) -> TraceSettings {
    TraceSettings {
        color_mode: match a.color_mode {
            Some(v) => Some(color_mode_spec(v@)),
            None => None,
        },
        hierarchical: match a.hierarchical {
            Some(v) => Some(hierarchy_spec(v@)),
            None => None,
        },
        curve_mode: match a.curve_mode {
            Some(v) => Some(curve_mode_spec(v@)),
            None => None,
        },
        color_precision: opt_map_i32(a.color_precision),
        filter_speckle: opt_map_usize(a.filter_speckle),
        layer_difference: opt_map_i32(a.layer_difference),
        corner_threshold: opt_map_i32(a.corner_threshold),
        splice_threshold: opt_map_i32(a.splice_threshold),
        max_iterations: opt_map_usize(a.max_iterations),
        path_precision: match a.path_precision {
            Some(s) => parse_u32_spec(s@),
            None => None,
        },
    }
}

fn lower_is(l: &Vec<char>, word: &str) -> (b: bool)
    ensures
        b == (l@ == word@),
{
    crate::markdown::is_word(l, word)
}

fn i32_of(o: &Option<String>) -> (r: Option<i32>)
    ensures
        r == opt_map_i32(*o),
{
    match o {
        Some(s) => crate::text::parse_i32(&str_chars(s.as_str())),
        None => None,
    }
}

fn usize_of(o: &Option<String>) -> (r: Option<usize>)
    ensures
        r == opt_map_usize(*o),
{
    match o {
        Some(s) => crate::text::parse_usize(&str_chars(s.as_str())),
        None => None,
    }
}

/// Reads the tracing settings of a request.
pub fn trace_settings(args: &TraceArgs) -> (r: TraceSettings)
    ensures
        r == trace_settings_spec(*args),
{
    let color_mode = match &args.color_mode {
        Some(v) => {
            let l = lowercase_vec(&str_chars(v.as_str()));
            Some(
                if lower_is(&l, "binary") || lower_is(&l, "bw") {
                    TraceColorMode::Binary
                } else {
                    TraceColorMode::Color
                },
            )
        },
        None => None,
    };
    let hierarchical = match &args.hierarchical {
        Some(v) => {
            let l = lowercase_vec(&str_chars(v.as_str()));
            Some(
                if lower_is(&l, "cutout") {
                    TraceHierarchy::Cutout
                } else {
                    TraceHierarchy::Stacked
                },
            )
        },
        None => None,
    };
    let curve_mode = match &args.curve_mode {
        Some(v) => {
            let l = lowercase_vec(&str_chars(v.as_str()));
            Some(
                if lower_is(&l, "polygon") {
                    TraceCurveMode::Polygon
                } else if lower_is(&l, "none") || lower_is(&l, "pixel") {
                    TraceCurveMode::Pixel
                } else {
                    TraceCurveMode::Spline
                },
            )
        },
        None => None,
    };
    let path_precision = match &args.path_precision {
        Some(s) => parse_u32(&str_chars(s.as_str())),
        None => None,
    };
    TraceSettings {
        color_mode,
        hierarchical,
        curve_mode,
        color_precision: i32_of(&args.color_precision),
        filter_speckle: usize_of(&args.filter_speckle),
        layer_difference: i32_of(&args.layer_difference),
        corner_threshold: i32_of(&args.corner_threshold),
        splice_threshold: i32_of(&args.splice_threshold),
        max_iterations: usize_of(&args.max_iterations),
        path_precision,
    }
}

} // verus!
