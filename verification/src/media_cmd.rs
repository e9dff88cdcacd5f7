//! The command lines of the media downloader tools: `yt-dlp` for metadata,
//! streams, playlists and audio; `streamlink` for live recordings; `spotdl`
//! for music; `gallery-dl` for image galleries; `aria2c` for direct files
//! and torrents; `ffmpeg` for trimming.
use vstd::prelude::*;
use crate::text::{str_chars, chars_to_string, append_str, append_chars, decimal, decimal_vec, trim_seq, trim_vec};
use crate::sidecar::strings_view;
use crate::filesystem::opt_str_view;
use crate::lines::lines_seq;

verus! {

fn push_s(v: &mut Vec<String>, s: &str)
    ensures
        strings_view(final(v)@) == strings_view(old(v)@).push(s@),
{
    v.push(chars_to_string(&str_chars(s)));
    assert(strings_view(final(v)@) =~= strings_view(old(v)@).push(s@));
}

fn push_all(v: &mut Vec<String>, xs: &[String])
    ensures
        strings_view(final(v)@) == strings_view(old(v)@) + strings_view(xs@),
{
    let ghost start = strings_view(v@);
    let mut i: usize = 0;
    while i < xs.len()
        invariant
            i <= xs.len(),
            strings_view(v@) == start + strings_view(xs@).take(i as int),
        decreases xs.len() - i,
    {
        let ghost before = strings_view(v@);
        let c = xs[i].clone();
        v.push(c);
        assert(strings_view(v@) =~= before.push(c@));
        assert(strings_view(xs@).take(i + 1) =~= strings_view(xs@).take(i as int).push(xs@[i as int]@));
        i += 1;
    }
    assert(strings_view(xs@).take(xs.len() as int) =~= strings_view(xs@));
}

/// An optional flag with its value.
pub open spec fn opt_pair(flag: Seq<char>, v: Option<Seq<char>>) -> Seq<Seq<char>> {
    match v {
        Some(x) => seq![flag, x],
        None => Seq::empty(),
    }
}

fn push_opt_pair(v: &mut Vec<String>, flag: &str, x: Option<&str>)
    ensures
        strings_view(final(v)@) == strings_view(old(v)@) + opt_pair(flag@, opt_str_view(x)),
{
    let ghost start = strings_view(v@);
    match x {
        Some(s) => {
            push_s(v, flag);
            push_s(v, s);
            assert(strings_view(v@) =~= start + opt_pair(flag@, opt_str_view(x)));
        },
        None => {
            assert(start + opt_pair(flag@, opt_str_view(x)) =~= start);
        },
    }
}

/// `s` without the letter `p` (`str::replace('p', "")`).
pub open spec fn without_p(s: Seq<char>) -> Seq<char>
    decreases s.len(),
{
    if s.len() == 0 {
        Seq::empty()
    } else if s.last() == 'p' {
        without_p(s.drop_last())
    } else {
        without_p(s.drop_last()).push(s.last())
    }
}

fn without_p_exec(s: &str) -> (r: Vec<char>)
    ensures
        r@ == without_p(s@),
{
    let v = str_chars(s);
    let mut out: Vec<char> = Vec::new();
    let mut i: usize = 0;
    while i < v.len()
        invariant
            i <= v.len(),
            v@ == s@,
            out@ == without_p(v@.take(i as int)),
        decreases v.len() - i,
    {
        assert(v@.take(i + 1).drop_last() =~= v@.take(i as int));
        if v[i] != 'p' {
            out.push(v[i]);
        }
        i += 1;
    }
    assert(v@.take(v.len() as int) =~= v@);
    out
}

/// The format selector for a maximum resolution such as `1080p`.
pub open spec fn format_selector(max_res: Seq<char>) -> Seq<char> {
    let h = without_p(max_res);
    "bestvideo[height<="@ + h + "]+bestaudio/best[height<="@ + h + "]/best"@
}

/// `yt-dlp` metadata of a URL as JSON.
pub fn metadata_args(url: &str, access: &[String]) -> (r: Vec<String>)
    ensures
        strings_view(r@) == seq!["-J"@, "--no-warnings"@] + strings_view(access@) + seq![url@],
{
    let mut r: Vec<String> = Vec::new();
    push_s(&mut r, "-J");
    push_s(&mut r, "--no-warnings");
    push_all(&mut r, access);
    push_s(&mut r, url);
    assert(strings_view(r@) =~= seq!["-J"@, "--no-warnings"@] + strings_view(access@) + seq![url@]);
    r
}

/// `yt-dlp` download of a video up to a resolution, merged to MP4, with
/// subtitles in a language when asked.
pub fn video_stream_args(url: &str, output_dir: &str, max_res: &str, access: &[String], subtitles: Option<&str>) -> (r: Vec<String>)
    ensures
        strings_view(r@) == seq![
            "-f"@,
            format_selector(max_res@),
            "--merge-output-format"@,
            "mp4"@,
            "-P"@,
            output_dir@,
            "--no-mtime"@,
        ] + strings_view(access@) + (match subtitles {
            Some(l) => seq!["--write-subs"@, "--sub-langs"@, l@],
            None => Seq::empty(),
        }) + seq![url@],
{
    let h = without_p_exec(max_res);
    let mut f: Vec<char> = Vec::new();
    append_str(&mut f, "bestvideo[height<=");
    append_chars(&mut f, &h);
    append_str(&mut f, "]+bestaudio/best[height<=");
    append_chars(&mut f, &h);
    append_str(&mut f, "]/best");
    assert(f@ =~= format_selector(max_res@));
    let mut r: Vec<String> = Vec::new();
    push_s(&mut r, "-f");
    let fs = chars_to_string(&f);
    let ghost r0 = strings_view(r@);
    r.push(fs);
    assert(strings_view(r@) =~= r0.push(format_selector(max_res@)));
    push_s(&mut r, "--merge-output-format");
    push_s(&mut r, "mp4");
    push_s(&mut r, "-P");
    push_s(&mut r, output_dir);
    push_s(&mut r, "--no-mtime");
    let ghost head = strings_view(r@);
    assert(head =~= seq![
        "-f"@,
        format_selector(max_res@),
        "--merge-output-format"@,
        "mp4"@,
        "-P"@,
        output_dir@,
        "--no-mtime"@,
    ]);
    push_all(&mut r, access);
    let ghost mid = strings_view(r@);
    match subtitles {
        Some(l) => {
            push_s(&mut r, "--write-subs");
            push_s(&mut r, "--sub-langs");
            push_s(&mut r, l);
        },
        None => {},
    }
    push_s(&mut r, url);
    assert(strings_view(r@) =~= head + strings_view(access@) + (match subtitles {
        Some(l) => seq!["--write-subs"@, "--sub-langs"@, l@],
        None => Seq::empty(),
    }) + seq![url@]);
    r
}

fn push_num(v: &mut Vec<String>, n: u64)
    ensures
        strings_view(final(v)@) == strings_view(old(v)@).push(decimal(n as nat)),
{
    let d = decimal_vec(n);
    v.push(chars_to_string(&d));
    assert(strings_view(final(v)@) =~= strings_view(old(v)@).push(decimal(n as nat)));
}

/// An optional flag with a number.
pub open spec fn opt_num(flag: Seq<char>, n: Option<u64>) -> Seq<Seq<char>> {
    match n {
        Some(x) => seq![flag, decimal(x as nat)],
        None => Seq::empty(),
    }
}

/// `yt-dlp` download of a playlist from an index, optionally up to an
/// index and a number of videos, named by playlist position and title.
pub fn playlist_args(url: &str, output_dir: &str, start: u64, end: Option<u64>, max: Option<u64>, access: &[String]) -> (r: Vec<String>)
    ensures
        strings_view(r@) == seq![
            "-P"@,
            output_dir@,
            "--playlist-start"@,
            decimal(start as nat),
            "-o"@,
            "%(playlist_index)s - %(title)s.%(ext)s"@,
        ] + strings_view(access@) + opt_num("--playlist-end"@, end) + opt_num("--max-downloads"@, max)
            + seq![url@],
{
    let mut r: Vec<String> = Vec::new();
    push_s(&mut r, "-P");
    push_s(&mut r, output_dir);
    push_s(&mut r, "--playlist-start");
    push_num(&mut r, start);
    push_s(&mut r, "-o");
    push_s(&mut r, "%(playlist_index)s - %(title)s.%(ext)s");
    let ghost head = strings_view(r@);
    push_all(&mut r, access);
    let ghost a = strings_view(r@);
    match end {
        Some(e) => {
            push_s(&mut r, "--playlist-end");
            push_num(&mut r, e);
        },
        None => {},
    }
    let ghost b = strings_view(r@);
    assert(b =~= a + opt_num("--playlist-end"@, end));
    match max {
        Some(m) => {
            push_s(&mut r, "--max-downloads");
            push_num(&mut r, m);
        },
        None => {},
    }
    let ghost c = strings_view(r@);
    assert(c =~= b + opt_num("--max-downloads"@, max));
    push_s(&mut r, url);
    assert(strings_view(r@) =~= seq![
        "-P"@,
        output_dir@,
        "--playlist-start"@,
        decimal(start as nat),
        "-o"@,
        "%(playlist_index)s - %(title)s.%(ext)s"@,
    ] + strings_view(access@) + opt_num("--playlist-end"@, end) + opt_num("--max-downloads"@, max)
        + seq![url@]);
    r
}

/// `streamlink` recording of a live stream for a number of minutes.
pub fn live_stream_args(url: &str, quality: &str, duration_min: u64, output_file: &str) -> (r: Vec<String>)
    requires
        duration_min * 60 <= u64::MAX,
    ensures
        strings_view(r@) == seq![
            "--hls-duration"@,
            decimal((duration_min * 60) as nat),
            "-o"@,
            output_file@,
            url@,
            quality@,
        ],
{
    let mut r: Vec<String> = Vec::new();
    push_s(&mut r, "--hls-duration");
    push_num(&mut r, duration_min * 60);
    push_s(&mut r, "-o");
    push_s(&mut r, output_file);
    push_s(&mut r, url);
    push_s(&mut r, quality);
    assert(strings_view(r@) =~= seq![
        "--hls-duration"@,
        decimal((duration_min * 60) as nat),
        "-o"@,
        output_file@,
        url@,
        quality@,
    ]);
    r
}

/// `yt-dlp` extraction of the audio track in a format and quality, with
/// metadata and thumbnail embedded.
pub fn audio_track_args(url: &str, output_dir: &str, format: &str, quality: u64, access: &[String]) -> (r: Vec<String>)
    ensures
        strings_view(r@) == seq![
            "-x"@,
            "--audio-format"@,
            format@,
            "--audio-quality"@,
            decimal(quality as nat),
            "--embed-metadata"@,
            "--embed-thumbnail"@,
            "-P"@,
            output_dir@,
        ] + strings_view(access@) + seq![url@],
{
    let mut r: Vec<String> = Vec::new();
    push_s(&mut r, "-x");
    push_s(&mut r, "--audio-format");
    push_s(&mut r, format);
    push_s(&mut r, "--audio-quality");
    push_num(&mut r, quality);
    push_s(&mut r, "--embed-metadata");
    push_s(&mut r, "--embed-thumbnail");
    push_s(&mut r, "-P");
    push_s(&mut r, output_dir);
    let ghost head = strings_view(r@);
    push_all(&mut r, access);
    push_s(&mut r, url);
    assert(strings_view(r@) =~= head + strings_view(access@) + seq![url@]);
    assert(head =~= seq![
        "-x"@,
        "--audio-format"@,
        format@,
        "--audio-quality"@,
        decimal(quality as nat),
        "--embed-metadata"@,
        "--embed-thumbnail"@,
        "-P"@,
        output_dir@,
    ]);
    r
}

/// `spotdl` download of a track, with synchronized lyrics when asked.
pub fn music_track_args(url: &str, output_dir: &str, lyrics: bool) -> (r: Vec<String>)
    ensures
        strings_view(r@) == seq!["download"@, url@, "--output"@, output_dir@] + (if lyrics {
            seq!["--generate-lrc"@]
        } else {
            Seq::empty()
        }),
{
    let mut r: Vec<String> = Vec::new();
    push_s(&mut r, "download");
    push_s(&mut r, url);
    push_s(&mut r, "--output");
    push_s(&mut r, output_dir);
    if lyrics {
        push_s(&mut r, "--generate-lrc");
    }
    assert(strings_view(r@) =~= seq!["download"@, url@, "--output"@, output_dir@] + (if lyrics {
        seq!["--generate-lrc"@]
    } else {
        Seq::empty()
    }));
    r
}

/// `gallery-dl` listing of a gallery as JSON.
pub fn gallery_dump_args(url: &str, access: &[String]) -> (r: Vec<String>)
    ensures
        strings_view(r@) == seq!["--dump-json"@] + strings_view(access@) + seq![url@],
{
    let mut r: Vec<String> = Vec::new();
    push_s(&mut r, "--dump-json");
    push_all(&mut r, access);
    push_s(&mut r, url);
    assert(strings_view(r@) =~= seq!["--dump-json"@] + strings_view(access@) + seq![url@]);
    r
}

/// `gallery-dl` download of a gallery into a directory, optionally a
/// range of its items.
pub fn image_collection_args(url: &str, output_dir: &str, range: Option<&str>, access: &[String]) -> (r: Vec<String>)
    ensures
        strings_view(r@) == seq!["--directory"@, output_dir@] + strings_view(access@) + opt_pair(
            "--range"@,
            opt_str_view(range),
        ) + seq![url@],
{
    let mut r: Vec<String> = Vec::new();
    push_s(&mut r, "--directory");
    push_s(&mut r, output_dir);
    push_all(&mut r, access);
    push_opt_pair(&mut r, "--range", range);
    push_s(&mut r, url);
    assert(strings_view(r@) =~= seq!["--directory"@, output_dir@] + strings_view(access@) + opt_pair(
        "--range"@,
        opt_str_view(range),
    ) + seq![url@]);
    r
}

/// `aria2c` download of a file over several connections, without
/// renaming and overwriting, optionally to a given file name.
pub fn direct_file_args(url: &str, output_dir: &str, connections: u64, filename: Option<&str>) -> (r: Vec<String>)
    ensures
        strings_view(r@) == seq![
            "-x"@,
            decimal(connections as nat),
            "-s"@,
            decimal(connections as nat),
            "-d"@,
            output_dir@,
            "--auto-file-renaming=false"@,
            "--allow-overwrite=true"@,
        ] + opt_pair("-o"@, opt_str_view(filename)) + seq![url@],
{
    let mut r: Vec<String> = Vec::new();
    push_s(&mut r, "-x");
    push_num(&mut r, connections);
    push_s(&mut r, "-s");
    push_num(&mut r, connections);
    push_s(&mut r, "-d");
    push_s(&mut r, output_dir);
    push_s(&mut r, "--auto-file-renaming=false");
    push_s(&mut r, "--allow-overwrite=true");
    push_opt_pair(&mut r, "-o", filename);
    push_s(&mut r, url);
    assert(strings_view(r@) =~= seq![
        "-x"@,
        decimal(connections as nat),
        "-s"@,
        decimal(connections as nat),
        "-d"@,
        output_dir@,
        "--auto-file-renaming=false"@,
        "--allow-overwrite=true"@,
    ] + opt_pair("-o"@, opt_str_view(filename)) + seq![url@]);
    r
}

/// `aria2c` download of a torrent or magnet link without seeding,
/// optionally with a download speed limit.
pub fn magnet_args(uri: &str, output_dir: &str, speed_limit: Option<&str>) -> (r: Vec<String>)
    ensures
        strings_view(r@) == seq!["-d"@, output_dir@, "--seed-time=0"@, "--bt-stop-timeout=30"@] + (match speed_limit {
            Some(l) => seq!["--max-download-limit="@ + l@],
            None => Seq::empty(),
        }) + seq![uri@],
{
    let mut r: Vec<String> = Vec::new();
    push_s(&mut r, "-d");
    push_s(&mut r, output_dir);
    push_s(&mut r, "--seed-time=0");
    push_s(&mut r, "--bt-stop-timeout=30");
    match speed_limit {
        Some(l) => {
            let mut f: Vec<char> = Vec::new();
            append_str(&mut f, "--max-download-limit=");
            append_str(&mut f, l);
            let fs = chars_to_string(&f);
            let ghost r0 = strings_view(r@);
            r.push(fs);
            assert(strings_view(r@) =~= r0.push("--max-download-limit="@ + l@));
        },
        None => {},
    }
    push_s(&mut r, uri);
    assert(strings_view(r@) =~= seq!["-d"@, output_dir@, "--seed-time=0"@, "--bt-stop-timeout=30"@] + (match speed_limit {
        Some(l) => seq!["--max-download-limit="@ + l@],
        None => Seq::empty(),
    }) + seq![uri@]);
    r
}

/// `ffmpeg` cut of a clip between two times, copying the streams when
/// lossless.
pub fn trim_args(input: &str, start: &str, end: &str, lossless: bool, output: &str) -> (r: Vec<String>)
    ensures
        strings_view(r@) == seq!["-y"@, "-ss"@, start@, "-to"@, end@, "-i"@, input@] + (if lossless {
            seq!["-c"@, "copy"@]
        } else {
            Seq::empty()
        }) + seq![output@],
{
    let mut r: Vec<String> = Vec::new();
    push_s(&mut r, "-y");
    push_s(&mut r, "-ss");
    push_s(&mut r, start);
    push_s(&mut r, "-to");
    push_s(&mut r, end);
    push_s(&mut r, "-i");
    push_s(&mut r, input);
    if lossless {
        push_s(&mut r, "-c");
        push_s(&mut r, "copy");
    }
    push_s(&mut r, output);
    assert(strings_view(r@) =~= seq!["-y"@, "-ss"@, start@, "-to"@, end@, "-i"@, input@] + (if lossless {
        seq!["-c"@, "copy"@]
    } else {
        Seq::empty()
    }) + seq![output@]);
    r
}

/// The version a tool reports: its first output line, trimmed, or
/// `Installed` when it printed nothing.
pub open spec fn tool_version_spec(out: Seq<char>) -> Seq<char> {
    if lines_seq(out).len() == 0 {
        "Installed"@
    } else {
        trim_seq(lines_seq(out)[0])
    }
}

/// The version a tool reports.
pub fn tool_version(out: &str) -> (r: String)
    ensures
        r@ == tool_version_spec(out@),
{
    let lines = crate::lines::split_lines(&str_chars(out));
    if lines.len() == 0 {
        String::from_str("Installed")
    } else {
        assert(crate::lines::vv(lines@)[0] == lines@[0]@);
        chars_to_string(&trim_vec(&lines[0]))
    }
}

} // verus!

verus! {

/// `s` with every `p` dropped and every other character kept in order.
pub open spec fn drop_p(s: Seq<char>) -> Seq<char> {
    s.filter(|c: char| c != 'p')
}

proof fn lemma_without_p_filter(s: Seq<char>)
    ensures
        without_p(s) == drop_p(s),
    decreases s.len(),
{
    reveal(Seq::filter);
    if s.len() > 0 {
        lemma_without_p_filter(s.drop_last());
    }
}

proof fn lemma_drop_p_has_no_p(s: Seq<char>)
    ensures
        forall|k: int| 0 <= k < drop_p(s).len() ==> drop_p(s)[k] != 'p',
    decreases s.len(),
{
    reveal(Seq::filter);
    if s.len() > 0 {
        lemma_drop_p_has_no_p(s.drop_last());
    }
}

proof fn lemma_without_p_keeps(s: Seq<char>)
    requires
        forall|k: int| 0 <= k < s.len() ==> s[k] != 'p',
    ensures
        without_p(s) == s,
    decreases s.len(),
{
    if s.len() > 0 {
        lemma_without_p_keeps(s.drop_last());
        assert(s.drop_last().push(s.last()) =~= s);
    }
}

/// The height in the format selector is the resolution with every `p`
/// removed and every other character kept in order, so no `p` stands
/// inside the brackets.
pub proof fn law_format_height_drops_p(max_res: Seq<char>)
    ensures
        format_selector(max_res) == "bestvideo[height<="@ + drop_p(max_res) + "]+bestaudio/best[height<="@
            + drop_p(max_res) + "]/best"@,
        forall|k: int| 0 <= k < drop_p(max_res).len() ==> drop_p(max_res)[k] != 'p',
{
    lemma_without_p_filter(max_res);
    lemma_drop_p_has_no_p(max_res);
}

/// A resolution written as digits followed by `p` (such as `1080p`) caps
/// the height at those digits.
pub proof fn law_format_height_of_digits(digits: Seq<char>)
    requires
        forall|k: int| 0 <= k < digits.len() ==> '0' <= #[trigger] digits[k] && digits[k] <= '9',
    ensures
        format_selector(digits + seq!['p']) == "bestvideo[height<="@ + digits + "]+bestaudio/best[height<="@
            + digits + "]/best"@,
{
    let m = digits + seq!['p'];
    assert(m.drop_last() =~= digits);
    assert(m.last() == 'p');
    assert forall|k: int| 0 <= k < digits.len() implies digits[k] != 'p' by {
        assert('0' <= digits[k] && digits[k] <= '9');
    }
    lemma_without_p_keeps(digits);
}

} // verus!
