//! The audio plugin files downloads and cookies by the plain host of a URL
//! (no Shorts redirection) with the media plugin's site names.
use vstd::prelude::*;
use crate::media::{media_stem, url_domain, url_domain_exec};
use crate::text::{chars_to_string, contains_exec, str_chars};

verus! {

/// The domain and site name of a URL: the host and its site name.
pub fn extract_domain_and_stem(url: &str) -> (r: (String, String))
    ensures
        r.0@ == url_domain(url@),
        r.1@ == media_stem(url_domain(url@)),
{
    let d = url_domain_exec(url);
    let stem = crate::media::media_stem_exec(&d);
    (chars_to_string(&d), chars_to_string(&stem))
}

/// The output directory: the one given, else `.`, under the allowed root
/// when one is configured.
pub fn resolve_dir(dir_param: Option<&str>, allowed_root: Option<&str>) -> (out: String)
    ensures
        out@ == crate::media::resolve_dir_spec(
            crate::filesystem::opt_str_view(dir_param),
            crate::filesystem::opt_str_view(allowed_root),
        ),
{
    crate::media::resolve_dir(dir_param, allowed_root)
}

} // verus!
