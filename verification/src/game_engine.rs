//! The integer and text decisions of the game-engine plugin: defaults of
//! its parameters, how a path is cut into segments and sampled, which rig
//! sockets are interactive, the ride-comfort streak, zone lifecycle phases,
//! audio presets, the WebGL page template and the static performance check.
//! The floating-point geometry and physics are computed by the caller.
use vstd::prelude::*;
use crate::text::{append_chars, append_str, chars_to_string, contains_exec, contains_seq, str_chars};
use crate::markdown::is_word;

verus! {

/// The default spline kind of a path network.
pub fn default_curve_type() -> (s: String)
    ensures
        s@ == "catmull_rom"@,
{
    String::from_str("catmull_rom")
}

/// The default cross-section of an extruded path.
pub fn default_cross_section() -> (s: String)
    ensures
        s@ == "rail"@,
{
    String::from_str("rail")
}

/// The default control mode of a WebGL page.
pub fn default_control_mode() -> (s: String)
    ensures
        s@ == "touch_and_keys"@,
{
    String::from_str("touch_and_keys")
}

/// The default renderer of a WebGL page.
pub fn default_renderer() -> (s: String)
    ensures
        s@ == "threejs"@,
{
    String::from_str("threejs")
}

/// The default frame rate aimed at.
pub fn default_target_fps() -> (n: u32)
    ensures
        n == 60,
{
    60
}

/// The default budget of draw calls.
pub fn default_draw_call_limit() -> (n: u32)
    ensures
        n == 150,
{
    150
}

/// The colours of a procedural biome.
#[derive(Debug, Clone)]
pub struct BiomePalette {
    pub sky_gradient: [String; 2],
    pub ambient: String,
    pub surface_colors: Vec<String>,
}

/// A ride's comfort streak: whether it is running and how many smooth
/// evaluations it has counted.
#[derive(Debug, Clone, Copy, PartialEq, Eq)]
pub struct StreakStatus {
    pub active: bool,
    pub count: u32,
}

/// The arguments of the WebGL performance check.
#[derive(Debug, Clone)]
pub struct InspectWebglPerformanceParams {
    pub html_bundle: String,
    pub target_fps: u32,
    pub draw_call_limit: u32,
    pub simulated_devices: Vec<String>,
}

/// Samples taken on each segment of a path.
pub open spec fn samples_per_segment() -> nat {
    10
}

/// How a path of control nodes is sampled.
#[derive(Debug, Clone, Copy, PartialEq, Eq)]
pub struct PathPlan {
    pub segments: usize,
    pub sample_count: usize,
    pub vertex_budget: usize,
}

pub open spec fn too_few_nodes_message() -> Seq<char> {
    "generate_path_network requires at least 2 nodes"@
}

/// Plans the sampling of a path: fewer than two nodes are refused; a
/// closed path has one segment per node, an open one one fewer; each
/// segment gives ten samples, and each sample eight vertices.
pub fn plan_path(n_nodes: usize, closed: bool) -> (r: Result<PathPlan, String>)
    requires
        n_nodes <= usize::MAX / 80,
    ensures
        match r {
            Ok(p) => n_nodes >= 2 && p.segments == (if closed { n_nodes as int } else { n_nodes - 1 })
                && p.sample_count == p.segments * samples_per_segment() && p.vertex_budget
                == p.sample_count * 8,
            Err(e) => n_nodes < 2 && e@ == too_few_nodes_message(),
        },
{
    if n_nodes < 2 {
        return Err(String::from_str("generate_path_network requires at least 2 nodes"));
    }
    let segments = if closed { n_nodes } else { n_nodes - 1 };
    let sample_count = segments * 10;
    Ok(PathPlan { segments, sample_count, vertex_budget: sample_count * 8 })
}

/// The four control nodes of segment `i`: the one before (the last node on
/// a closed path's first segment, the first node on an open one), its two
/// ends, and the one after (wrapping on a closed path, the segment's end on
/// an open one).
pub open spec fn segment_nodes_spec(i: int, n: int, closed: bool) -> (int, int, int, int) {
    let p0 = if i == 0 {
        if closed {
            n - 1
        } else {
            0
        }
    } else {
        i - 1
    };
    let p1 = i % n;
    let p2 = (i + 1) % n;
    let p3 = if i + 2 < n {
        i + 2
    } else if closed {
        (i + 2) % n
    } else {
        p2
    };
    (p0, p1, p2, p3)
}

/// The indices of the control nodes that shape segment `i`.
pub fn segment_nodes(i: usize, n: usize, closed: bool) -> (r: (usize, usize, usize, usize))
    requires
        2 <= n,
        i < n,
        n < usize::MAX - 2,
    ensures
        r.0 as int == segment_nodes_spec(i as int, n as int, closed).0,
        r.1 as int == segment_nodes_spec(i as int, n as int, closed).1,
        r.2 as int == segment_nodes_spec(i as int, n as int, closed).2,
        r.3 as int == segment_nodes_spec(i as int, n as int, closed).3,
        r.0 < n && r.1 < n && r.2 < n && r.3 < n,
{
    let p0 = if i == 0 {
        if closed {
            n - 1
        } else {
            0
        }
    } else {
        i - 1
    };
    let p1 = i % n;
    let p2 = (i + 1) % n;
    let p3 = if i + 2 < n {
        i + 2
    } else if closed {
        (i + 2) % n
    } else {
        p2
    };
    (p0, p1, p2, p3)
}

/// Whether a socket is one a user can act on: its id mentions a door or a
/// wheel.
pub open spec fn is_interactive_socket(id: Seq<char>) -> bool {
    contains_seq(id, "door"@) || contains_seq(id, "wheel"@)
}

pub open spec fn interactive_spec(ids: Seq<Seq<char>>) -> Seq<Seq<char>>
    decreases ids.len(),
{
    if ids.len() == 0 {
        seq![]
    } else if is_interactive_socket(ids.last()) {
        interactive_spec(ids.drop_last()).push(ids.last())
    } else {
        interactive_spec(ids.drop_last())
    }
}

/// The interactive sockets of a rig, in order.
pub fn interactive_parts(socket_ids: &[String]) -> (r: Vec<String>)
    ensures
        crate::sidecar::strings_view(r@) == interactive_spec(crate::sidecar::strings_view(socket_ids@)),
{
    let ghost ids = crate::sidecar::strings_view(socket_ids@);
    let mut out: Vec<String> = Vec::new();
    let mut i: usize = 0;
    while i < socket_ids.len()
        invariant
            i <= socket_ids.len(),
            ids == crate::sidecar::strings_view(socket_ids@),
            crate::sidecar::strings_view(out@) == interactive_spec(ids.take(i as int)),
        decreases socket_ids.len() - i,
    {
        let v = str_chars(socket_ids[i].as_str());
        assert(ids.take(i + 1).drop_last() =~= ids.take(i as int));
        assert(ids.take(i + 1).last() == v@);
        if contains_exec(&v, &str_chars("door")) || contains_exec(&v, &str_chars("wheel")) {
            let ghost before = out@;
            out.push(socket_ids[i].clone());
            assert(crate::sidecar::strings_view(out@) =~= crate::sidecar::strings_view(before).push(v@));
        }
        i += 1;
    }
    assert(ids.take(socket_ids.len() as int) =~= ids);
    out
}

pub open spec fn streak_broken_message() -> Seq<char> {
    "Streak broken. Passenger discomfort detected due to abrupt lateral acceleration or braking."@
}

/// The comfort streak after an evaluation: a penalty breaks a running
/// streak (reset to zero, with a message); a smooth evaluation with a high
/// score starts the streak if needed and counts one more; otherwise it is
/// unchanged.
pub open spec fn streak_after(streak: StreakStatus, penalty_applied: bool, score_high: bool) -> (
    StreakStatus,
    Option<Seq<char>>,
) {
    if penalty_applied && streak.active {
        (StreakStatus { active: false, count: 0 }, Some(streak_broken_message()))
    } else if !penalty_applied && score_high {
        (StreakStatus { active: true, count: (streak.count + 1) as u32 }, None)
    } else {
        (streak, None)
    }
}

/// Updates the comfort streak after an evaluation.
pub fn update_streak(streak: StreakStatus, penalty_applied: bool, score_high: bool) -> (r: (
    StreakStatus,
    Option<String>,
))
    requires
        !penalty_applied && score_high ==> streak.count < u32::MAX,
    ensures
        r.0 == streak_after(streak, penalty_applied, score_high).0,
        crate::markdown::opt_string(r.1) == streak_after(streak, penalty_applied, score_high).1,
{
    if penalty_applied && streak.active {
        (
            StreakStatus { active: false, count: 0 },
            Some(
                String::from_str(
                    "Streak broken. Passenger discomfort detected due to abrupt lateral acceleration or braking.",
                ),
            ),
        )
    } else if !penalty_applied && score_high {
        (StreakStatus { active: true, count: streak.count + 1 }, None)
    } else {
        (streak, None)
    }
}

} // verus!

verus! {

/// Where a zone's lifecycle stands after an event.
#[derive(Debug, Clone, Copy, PartialEq, Eq)]
pub enum ZonePhase {
    Approaching,
    Docked,
    Departed,
    CheckpointCleared,
    HazardActive,
    Nominal,
}

/// The phase an event moves a zone to: entering, docking at and leaving a
/// station; entering a checkpoint or a hazard; anything else is nominal.
pub open spec fn zone_phase_spec(zone: Seq<char>, event: Seq<char>) -> ZonePhase {
    if zone == "station"@ && event == "enter"@ {
        ZonePhase::Approaching
    } else if zone == "station"@ && event == "dock"@ {
        ZonePhase::Docked
    } else if zone == "station"@ && event == "exit"@ {
        ZonePhase::Departed
    } else if zone == "checkpoint"@ && event == "enter"@ {
        ZonePhase::CheckpointCleared
    } else if zone == "hazard"@ && event == "enter"@ {
        ZonePhase::HazardActive
    } else {
        ZonePhase::Nominal
    }
}

/// Moves a zone's lifecycle on an event.
pub fn zone_phase(zone_type: &str, trigger_event: &str) -> (p: ZonePhase)
    ensures
        p == zone_phase_spec(zone_type@, trigger_event@),
{
    let z = str_chars(zone_type);
    let e = str_chars(trigger_event);
    let station = is_word(&z, "station");
    if station && is_word(&e, "enter") {
        ZonePhase::Approaching
    } else if station && is_word(&e, "dock") {
        ZonePhase::Docked
    } else if station && is_word(&e, "exit") {
        ZonePhase::Departed
    } else if is_word(&z, "checkpoint") && is_word(&e, "enter") {
        ZonePhase::CheckpointCleared
    } else if is_word(&z, "hazard") && is_word(&e, "enter") {
        ZonePhase::HazardActive
    } else {
        ZonePhase::Nominal
    }
}

pub open spec fn phase_name_spec(p: ZonePhase) -> Seq<char> {
    match p {
        ZonePhase::Approaching => "approaching"@,
        ZonePhase::Docked => "docked"@,
        ZonePhase::Departed => "departed"@,
        ZonePhase::CheckpointCleared => "checkpoint_cleared"@,
        ZonePhase::HazardActive => "hazard_active"@,
        ZonePhase::Nominal => "nominal"@,
    }
}

/// The text and style of the notice shown on entering a phase, if any.
pub open spec fn phase_notice_spec(p: ZonePhase) -> Option<(Seq<char>, Seq<char>)> {
    match p {
        ZonePhase::Approaching => Some(("Approaching station platform. Reduce velocity."@, "info"@)),
        ZonePhase::Docked => Some(("Docked. Doors opening. Boarding passengers."@, "success"@)),
        ZonePhase::Departed => Some(("Departing station. Track clear ahead."@, "info"@)),
        ZonePhase::CheckpointCleared => Some(("Checkpoint reached."@, "bonus"@)),
        ZonePhase::HazardActive => Some(("Caution: Track section requires reduced speed."@, "warning"@)),
        ZonePhase::Nominal => None,
    }
}

pub open spec fn notice_view(n: Option<(String, String)>) -> Option<(Seq<char>, Seq<char>)> {
    match n {
        Some((a, b)) => Some((a@, b@)),
        None => None,
    }
}

impl ZonePhase {
    /// The phase's name.
    pub fn name(&self) -> (s: String)
        ensures
            s@ == phase_name_spec(*self),
    {
        match self {
            ZonePhase::Approaching => String::from_str("approaching"),
            ZonePhase::Docked => String::from_str("docked"),
            ZonePhase::Departed => String::from_str("departed"),
            ZonePhase::CheckpointCleared => String::from_str("checkpoint_cleared"),
            ZonePhase::HazardActive => String::from_str("hazard_active"),
            ZonePhase::Nominal => String::from_str("nominal"),
        }
    }

    /// The notice shown on entering the phase (text, style).
    pub fn notice(&self) -> (n: Option<(String, String)>)
        ensures
            notice_view(n) == phase_notice_spec(*self),
    {
        match self {
            ZonePhase::Approaching => Some(
                (
                    String::from_str("Approaching station platform. Reduce velocity."),
                    String::from_str("info"),
                ),
            ),
            ZonePhase::Docked => Some(
                (
                    String::from_str("Docked. Doors opening. Boarding passengers."),
                    String::from_str("success"),
                ),
            ),
            ZonePhase::Departed => Some(
                (String::from_str("Departing station. Track clear ahead."), String::from_str("info")),
            ),
            ZonePhase::CheckpointCleared => Some(
                (String::from_str("Checkpoint reached."), String::from_str("bonus")),
            ),
            ZonePhase::HazardActive => Some(
                (
                    String::from_str("Caution: Track section requires reduced speed."),
                    String::from_str("warning"),
                ),
            ),
            ZonePhase::Nominal => None,
        }
    }

    /// Doors open only while docked.
    pub fn doors_open(&self) -> (b: bool)
        ensures
            b == (*self == ZonePhase::Docked),
    {
        match self {
            ZonePhase::Docked => true,
            _ => false,
        }
    }

    /// The vehicle may accelerate unless docked.
    pub fn can_accelerate(&self) -> (b: bool)
        ensures
            b == (*self != ZonePhase::Docked),
    {
        !self.doors_open()
    }
}

/// The sound presets of the audio graph generator.
#[derive(Debug, Clone, Copy, PartialEq, Eq)]
pub enum AudioPreset {
    EngineDrone,
    FrictionSurface,
    Chime,
    Ambient,
}

/// Chooses a preset by name; unknown names give the ambient tone.
pub fn audio_preset(name: &str) -> (p: AudioPreset)
    ensures
        p == (if name@ == "engine_drone"@ {
            AudioPreset::EngineDrone
        } else if name@ == "friction_surface"@ {
            AudioPreset::FrictionSurface
        } else if name@ == "chime"@ {
            AudioPreset::Chime
        } else {
            AudioPreset::Ambient
        }),
{
    let n = str_chars(name);
    if is_word(&n, "engine_drone") {
        AudioPreset::EngineDrone
    } else if is_word(&n, "friction_surface") {
        AudioPreset::FrictionSurface
    } else if is_word(&n, "chime") {
        AudioPreset::Chime
    } else {
        AudioPreset::Ambient
    }
}

pub open spec fn default_theme_css() -> Seq<char> {
    ":root { --bg: #141824; --text: #E8ECEF; --accent: #E06D53; font-family: sans-serif; }"@
}

pub open spec fn page_head() -> Seq<char> {
    "<!DOCTYPE html>\n<html lang=\"en\">\n<head>\n  <meta charset=\"UTF-8\">\n  <meta name=\"viewport\" content=\"width=device-width, initial-scale=1.0, maximum-scale=1.0, user-scalable=no\">\n  <title>Rune WebGL Simulation</title>\n  <style>\n    "@
}

pub open spec fn page_middle() -> Seq<char> {
    "\n    * { box-sizing: border-box; margin: 0; padding: 0; }\n    body, html { width: 100%; height: 100%; overflow: hidden; background: var(--bg); }\n    #viewport { width: 100%; height: 100%; display: block; }\n    #hud-overlay { position: absolute; top: 0; left: 0; width: 100%; height: 100%; pointer-events: none; }\n    .interactive { pointer-events: auto; }\n  </style>\n  <script src=\"https://cdnjs.cloudflare.com/ajax/libs/three.js/r128/three.min.js\"></script>\n</head>\n<body>\n  <canvas id=\"viewport\"></canvas>\n  <div id=\"hud-overlay\">\n    <div id=\"status-card\" class=\"interactive\"></div>\n  </div>\n  <script>\n    // --- Engine Runtime Scripts ---\n    "@
}

pub open spec fn page_tail() -> Seq<char> {
    "\n  </script>\n</body>\n</html>"@
}

/// The single-file WebGL page: the theme (or the default one) in the
/// style sheet and the engine scripts, joined by blank lines, in the
/// runtime script.
pub open spec fn webgl_page_spec(scripts: Seq<Seq<char>>, theme: Option<Seq<char>>) -> Seq<char> {
    let css = match theme {
        Some(t) => t,
        None => default_theme_css(),
    };
    page_head() + css + page_middle() + crate::lines::join_seq(scripts, "\n\n"@) + page_tail()
}

/// Builds the WebGL page.
pub fn bundle_webgl_page(engine_scripts: &[String], theme_css: Option<&str>) -> (r: String)
    ensures
        r@ == webgl_page_spec(crate::sidecar::strings_view(engine_scripts@), crate::filesystem::opt_str_view(theme_css)),
{
    let mut parts: Vec<Vec<char>> = Vec::new();
    let mut i: usize = 0;
    while i < engine_scripts.len()
        invariant
            i <= engine_scripts.len(),
            crate::lines::vv(parts@) == crate::sidecar::strings_view(engine_scripts@).take(i as int),
        decreases engine_scripts.len() - i,
    {
        let ghost before = parts@;
        parts.push(str_chars(engine_scripts[i].as_str()));
        assert(crate::lines::vv(parts@) =~= crate::lines::vv(before).push(engine_scripts@[i as int]@));
        assert(crate::sidecar::strings_view(engine_scripts@).take(i + 1) =~= crate::sidecar::strings_view(engine_scripts@).take(i as int).push(engine_scripts@[i as int]@));
        i += 1;
    }
    assert(crate::sidecar::strings_view(engine_scripts@).take(engine_scripts.len() as int) =~= crate::sidecar::strings_view(engine_scripts@));
    let scripts = crate::lines::join_vecs(&parts, &str_chars("\n\n"));
    let mut page: Vec<char> = Vec::new();
    append_str(&mut page, "<!DOCTYPE html>\n<html lang=\"en\">\n<head>\n  <meta charset=\"UTF-8\">\n  <meta name=\"viewport\" content=\"width=device-width, initial-scale=1.0, maximum-scale=1.0, user-scalable=no\">\n  <title>Rune WebGL Simulation</title>\n  <style>\n    ");
    match theme_css {
        Some(t) => append_str(&mut page, t),
        None => append_str(
            &mut page,
            ":root { --bg: #141824; --text: #E8ECEF; --accent: #E06D53; font-family: sans-serif; }",
        ),
    }
    append_str(&mut page, "\n    * { box-sizing: border-box; margin: 0; padding: 0; }\n    body, html { width: 100%; height: 100%; overflow: hidden; background: var(--bg); }\n    #viewport { width: 100%; height: 100%; display: block; }\n    #hud-overlay { position: absolute; top: 0; left: 0; width: 100%; height: 100%; pointer-events: none; }\n    .interactive { pointer-events: auto; }\n  </style>\n  <script src=\"https://cdnjs.cloudflare.com/ajax/libs/three.js/r128/three.min.js\"></script>\n</head>\n<body>\n  <canvas id=\"viewport\"></canvas>\n  <div id=\"hud-overlay\">\n    <div id=\"status-card\" class=\"interactive\"></div>\n  </div>\n  <script>\n    // --- Engine Runtime Scripts ---\n    ");
    append_chars(&mut page, &scripts);
    append_str(&mut page, "\n  </script>\n</body>\n</html>");
    chars_to_string(&page)
}

} // verus!

verus! {

/// How many times `p` occurs in `s`, counted left to right without overlap
/// (`str::matches(p).count()` for a non-empty `p`).
pub open spec fn count_matches(s: Seq<char>, p: Seq<char>) -> nat
    decreases s.len(),
{
    if p.len() == 0 || s.len() < p.len() {
        0
    } else if s.take(p.len() as int) == p {
        1 + count_matches(s.skip(p.len() as int), p)
    } else {
        count_matches(s.drop_first(), p)
    }
}

fn count_matches_exec(s: &[char], p: &[char]) -> (n: usize)
    requires
        p.len() > 0,
    ensures
        n == count_matches(s@, p@),
{
    let mut i: usize = 0;
    let mut n: usize = 0;
    assert(s@.skip(0) =~= s@);
    while i <= s.len() && p.len() <= s.len() - i
        invariant
            i <= s.len(),
            p.len() > 0,
            n <= i,
            count_matches(s@, p@) == n + count_matches(s@.skip(i as int), p@),
        decreases s.len() - i,
    {
        let ghost t = s@.skip(i as int);
        let hit = crate::text::occurs_at_exec(s, p, i);
        assert(t.take(p@.len() as int) =~= s@.subrange(i as int, i + p@.len()));
        if hit {
            assert(t.skip(p@.len() as int) =~= s@.skip(i + p.len()));
            n = n + 1;
            i = i + p.len();
        } else {
            assert(t.drop_first() =~= s@.skip(i + 1));
            i = i + 1;
        }
    }
    n
}

/// The outcome of the static WebGL performance check.
#[derive(Debug, Clone)]
pub struct WebglInspection {
    pub has_threejs: bool,
    pub script_tags: usize,
    pub estimated_draw_calls: u32,
    pub warnings: Vec<String>,
    pub pass_status: bool,
}

/// Whether the page bundles three.js.
pub open spec fn has_threejs_spec(html: Seq<char>) -> bool {
    contains_seq(html, "three.min.js"@) || contains_seq(html, "THREE."@)
}

/// The estimated draw calls: 45 plus ten per script tag (as a `u32`) with
/// three.js, else 12.
pub open spec fn draw_calls_spec(html: Seq<char>) -> int {
    if has_threejs_spec(html) {
        (45 + (count_matches(html, "<script"@) * 10) % 0x1_0000_0000) as int
    } else {
        12
    }
}

/// Whether the estimate can be computed: with three.js, ten per script tag
/// fits in a `usize` and adding 45 to its low 32 bits does not overflow.
pub open spec fn draw_calls_fit(html: Seq<char>) -> bool {
    has_threejs_spec(html) ==> (count_matches(html, "<script"@) * 10 <= usize::MAX
        && draw_calls_spec(html) <= u32::MAX)
}

pub open spec fn over_budget_message(calls: nat, limit: nat) -> Seq<char> {
    "Estimated draw calls ("@ + crate::text::decimal(calls) + ") exceed limit ("@
        + crate::text::decimal(limit) + ")"@
}

pub open spec fn unbundled_renderer_message() -> Seq<char> {
    "WebGLRenderer referenced without bundled runtime library"@
}

/// The warnings of the check: draw calls over the limit, and a WebGL
/// renderer used without three.js.
pub open spec fn webgl_warnings_spec(html: Seq<char>, limit: u32) -> Seq<Seq<char>> {
    let calls = draw_calls_spec(html);
    let first = if calls > limit {
        seq![over_budget_message(calls as nat, limit as nat)]
    } else {
        seq![]
    };
    let second = if !has_threejs_spec(html) && contains_seq(html, "WebGLRenderer"@) {
        seq![unbundled_renderer_message()]
    } else {
        seq![]
    };
    first + second
}

/// Statically inspects a WebGL page: whether it bundles three.js, how many
/// script tags it has, the draw calls to expect, and warnings; it passes
/// when there is no warning.
pub fn inspect_webgl(html: &str, draw_call_limit: u32) -> (r: WebglInspection)
    requires
        draw_calls_fit(html@),
    ensures
        r.has_threejs == has_threejs_spec(html@),
        r.script_tags == count_matches(html@, "<script"@),
        r.estimated_draw_calls == draw_calls_spec(html@),
        crate::sidecar::strings_view(r.warnings@) == webgl_warnings_spec(html@, draw_call_limit),
        r.pass_status == (webgl_warnings_spec(html@, draw_call_limit).len() == 0),
{
    proof {
        reveal_strlit("<script");
    }
    let v = str_chars(html);
    let has_threejs = contains_exec(&v, &str_chars("three.min.js")) || contains_exec(&v, &str_chars("THREE."));
    let script_tags = count_matches_exec(&v, &str_chars("<script"));
    let calls: u32 = if has_threejs {
        let x: u64 = (script_tags * 10) as u64;
        let low: u32 = x as u32;
        assert(low == x % 0x1_0000_0000) by (bit_vector)
            requires
                low == x as u32,
        ;
        45 + low
    } else {
        12
    };
    let mut warnings: Vec<String> = Vec::new();
    if calls > draw_call_limit {
        let mut m: Vec<char> = Vec::new();
        append_str(&mut m, "Estimated draw calls (");
        append_chars(&mut m, &crate::text::decimal_vec(calls as u64));
        append_str(&mut m, ") exceed limit (");
        append_chars(&mut m, &crate::text::decimal_vec(draw_call_limit as u64));
        append_str(&mut m, ")");
        warnings.push(chars_to_string(&m));
    }
    let ghost first = crate::sidecar::strings_view(warnings@);
    if !has_threejs && contains_exec(&v, &str_chars("WebGLRenderer")) {
        warnings.push(String::from_str("WebGLRenderer referenced without bundled runtime library"));
        assert(crate::sidecar::strings_view(warnings@) =~= first + seq![unbundled_renderer_message()]);
    } else {
        assert(crate::sidecar::strings_view(warnings@) =~= first + Seq::<Seq<char>>::empty());
    }
    assert(first =~= (if calls > draw_call_limit {
        seq![over_budget_message(calls as nat, draw_call_limit as nat)]
    } else {
        Seq::<Seq<char>>::empty()
    }));
    let pass_status = warnings.len() == 0;
    WebglInspection { has_threejs, script_tags, estimated_draw_calls: calls, warnings, pass_status }
}

} // verus!
