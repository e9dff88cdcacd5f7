//! Commit-message validation of the git plugin: subject length, the blank
//! separator line, and the Conventional Commits prefix.
use vstd::prelude::*;
use crate::text::{
    append_chars, append_str, ascii_lower_seq, ascii_lower_vec, chars_to_string, decimal,
    decimal_vec, ends_with, ends_with_exec, slice_vec, str_chars, trim_seq, trim_vec,
};
use crate::lines::{find_char, find_char_from, join_seq, join_vecs, lines_seq, split_lines, vv};

verus! {

/// The outcome of validating a commit message.
#[derive(Debug, Clone)]
pub struct CommitValidationReport {
    pub valid: bool,
    pub subject: String,
    pub subject_length: usize,
    pub body: Option<String>,
    pub issues: Vec<String>,
}

/// The commit types that a Conventional Commits subject may start with.
pub open spec fn valid_commit_types() -> Seq<Seq<char>> {
    seq![
        "feat"@, "fix"@, "docs"@, "style"@, "refactor"@, "perf"@, "test"@, "build"@, "ci"@,
        "chore"@, "revert"@,
    ]
}

/// The error text for an unknown commit type.
pub open spec fn unknown_type_message(t: Seq<char>) -> Seq<char> {
    "Unknown conventional commit type '"@ + t + "'. Allowed types: "@ + join_seq(
        valid_commit_types(),
        ", "@,
    )
}

/// The commit type of a subject prefix (the part before the first `:`):
/// `Err` carries the message for a malformed scope.
pub open spec fn commit_type_of(prefix: Seq<char>) -> Result<Seq<char>, Seq<char>> {
    let raw = if prefix.len() > 0 && prefix.last() == '!' {
        prefix.drop_last()
    } else {
        prefix
    };
    let j = find_char(raw, '(');
    if j < raw.len() {
        let scope = raw.skip(j + 1);
        if !ends_with(scope, ")"@) || scope.len() <= 1 {
            Err("Invalid scope syntax in conventional commit prefix (expected '<type>(<scope>):')"@)
        } else {
            Ok(trim_seq(raw.take(j)))
        }
    } else {
        Ok(trim_seq(raw))
    }
}

/// What `check_conventional_format` decides for a subject line: `None` when
/// the subject follows `<type>[(<scope>)][!]: <description>`, else the error.
pub open spec fn conventional_error(subject: Seq<char>) -> Option<Seq<char>> {
    let i = find_char(subject, ':');
    if i >= subject.len() {
        Some("Missing colon separator in conventional commit format (<type>: <description>)"@)
    } else {
        let rest = subject.skip(i + 1);
        if !(rest.len() > 0 && rest[0] == ' ') || trim_seq(rest).len() == 0 {
            Some("Missing space after colon or empty description in commit subject"@)
        } else {
            match commit_type_of(subject.take(i)) {
                Err(e) => Some(e),
                Ok(t) => if valid_commit_types().contains(ascii_lower_seq(t)) {
                    None
                } else {
                    Some(unknown_type_message(t))
                },
            }
        }
    }
}

/// The subject line: the first line of the message, trimmed.
pub open spec fn commit_subject(message: Seq<char>) -> Seq<char> {
    let ls = lines_seq(message);
    if ls.len() == 0 {
        seq![]
    } else {
        trim_seq(ls[0])
    }
}

/// The lines after the subject line.
pub open spec fn commit_body_lines(message: Seq<char>) -> Seq<Seq<char>> {
    let ls = lines_seq(message);
    if ls.len() == 0 {
        seq![]
    } else {
        ls.drop_first()
    }
}

/// The body: the lines after the subject, joined and trimmed, when not empty.
pub open spec fn commit_body(message: Seq<char>) -> Option<Seq<char>> {
    let b = commit_body_lines(message);
    if b.len() == 0 {
        None
    } else {
        let j = trim_seq(join_seq(b, "\n"@));
        if j.len() == 0 {
            None
        } else {
            Some(j)
        }
    }
}

/// The issues found in a commit message, in the order they are reported.
pub open spec fn commit_issues(message: Seq<char>, max_subject_length: nat, conventional: bool) -> Seq<Seq<char>> {
    let subject = commit_subject(message);
    let body = commit_body_lines(message);
    let first: Seq<Seq<char>> = if subject.len() == 0 {
        seq!["Commit subject line cannot be empty"@]
    } else if subject.len() > max_subject_length {
        seq![
            "Subject line exceeds "@ + decimal(max_subject_length) + " characters (actual: "@
                + decimal(subject.len()) + ")"@,
        ]
    } else {
        seq![]
    };
    let second: Seq<Seq<char>> = if body.len() > 0 && trim_seq(body[0]).len() != 0 {
        seq!["Second line must be empty to separate subject from body"@]
    } else {
        seq![]
    };
    let third: Seq<Seq<char>> = if conventional && subject.len() != 0 {
        match conventional_error(subject) {
            Some(e) => seq![e],
            None => seq![],
        }
    } else {
        seq![]
    };
    first + second + third
}

/// The views of a vector of strings.
pub open spec fn strings_view(v: Seq<String>) -> Seq<Seq<char>> {
    v.map_values(|s: String| s@)
}

fn lit(s: &str) -> (out: Vec<char>)
    ensures
        out@ == s@,
{
    str_chars(s)
}

fn eq_str(t: &Vec<char>, s: &str) -> (b: bool)
    ensures
        b == (t@ == s@),
{
    let c = lit(s);
    let r = c.len() == t.len() && crate::text::occurs_at_exec(&c, t, 0);
    proof {
        if c@ == t@ || r {
            assert(c@.subrange(0, t@.len() as int) =~= c@);
        }
    }
    r
}

fn is_valid_type(t: &Vec<char>) -> (b: bool)
    ensures
        b == valid_commit_types().contains(t@),
{
    let b = eq_str(t, "feat") || eq_str(t, "fix") || eq_str(t, "docs") || eq_str(t, "style")
        || eq_str(t, "refactor") || eq_str(t, "perf") || eq_str(t, "test") || eq_str(t, "build")
        || eq_str(t, "ci") || eq_str(t, "chore") || eq_str(t, "revert");
    proof {
        let vt = valid_commit_types();
        if b {
            if t@ == "feat"@ { assert(vt[0] == t@); }
            else if t@ == "fix"@ { assert(vt[1] == t@); }
            else if t@ == "docs"@ { assert(vt[2] == t@); }
            else if t@ == "style"@ { assert(vt[3] == t@); }
            else if t@ == "refactor"@ { assert(vt[4] == t@); }
            else if t@ == "perf"@ { assert(vt[5] == t@); }
            else if t@ == "test"@ { assert(vt[6] == t@); }
            else if t@ == "build"@ { assert(vt[7] == t@); }
            else if t@ == "ci"@ { assert(vt[8] == t@); }
            else if t@ == "chore"@ { assert(vt[9] == t@); }
            else { assert(vt[10] == t@); }
        } else {
            assert forall|k: int| 0 <= k < vt.len() implies vt[k] != t@ by {
                assert(0 <= k < 11);
            }
        }
    }
    b
}

/// Checks a subject line against the Conventional Commits prefix syntax:
/// `<type>[(scope)][!]: <description>` with a known type.
pub fn check_conventional_format(subject: &str) -> (r: Result<(), String>)
    ensures
        match r {
            Ok(_) => conventional_error(subject@) is None,
            Err(e) => conventional_error(subject@) == Some(e@),
        },
{
    let v = str_chars(subject);
    conventional_check(&v)
}

fn conventional_check(subject: &Vec<char>) -> (r: Result<(), String>)
    ensures
        match r {
            Ok(_) => conventional_error(subject@) is None,
            Err(e) => conventional_error(subject@) == Some(e@),
        },
{
    let i = find_char_from(subject, ':', 0);
    assert(subject@.skip(0) =~= subject@);
    if i >= subject.len() {
        return Err(String::from_str("Missing colon separator in conventional commit format (<type>: <description>)"));
    }
    let rest = slice_vec(subject, i + 1, subject.len());
    assert(rest@ =~= subject@.skip(i + 1));
    let trimmed_rest = trim_vec(&rest);
    if !(rest.len() > 0 && rest[0] == ' ') || trimmed_rest.len() == 0 {
        return Err(String::from_str("Missing space after colon or empty description in commit subject"));
    }
    let prefix = slice_vec(subject, 0, i);
    assert(prefix@ =~= subject@.take(i as int));
    let raw = if prefix.len() > 0 && prefix[prefix.len() - 1] == '!' {
        let r = slice_vec(&prefix, 0, prefix.len() - 1);
        assert(r@ =~= prefix@.drop_last());
        r
    } else {
        prefix
    };
    let j = find_char_from(&raw, '(', 0);
    assert(raw@.skip(0) =~= raw@);
    let commit_type = if j < raw.len() {
        let scope = slice_vec(&raw, j + 1, raw.len());
        assert(scope@ =~= raw@.skip(j + 1));
        let close = lit(")");
        if !ends_with_exec(&scope, &close) || scope.len() <= 1 {
            return Err(String::from_str("Invalid scope syntax in conventional commit prefix (expected '<type>(<scope>):')"));
        }
        let head = slice_vec(&raw, 0, j);
        assert(head@ =~= raw@.take(j as int));
        trim_vec(&head)
    } else {
        trim_vec(&raw)
    };
    let lower = ascii_lower_vec(&commit_type);
    if is_valid_type(&lower) {
        Ok(())
    } else {
        let mut msg = lit("Unknown conventional commit type '");
        append_chars(&mut msg, &commit_type);
        append_str(&mut msg, "'. Allowed types: ");
        append_str(&mut msg, "feat, fix, docs, style, refactor, perf, test, build, ci, chore, revert");
        proof {
            assert(join_seq(valid_commit_types(), ", "@) == "feat, fix, docs, style, refactor, perf, test, build, ci, chore, revert"@) by {
                reveal_with_fuel(join_seq, 12);
                reveal_strlit("feat, fix, docs, style, refactor, perf, test, build, ci, chore, revert");
                reveal_strlit(", ");
                reveal_strlit("feat"); reveal_strlit("fix"); reveal_strlit("docs");
                reveal_strlit("style"); reveal_strlit("refactor"); reveal_strlit("perf");
                reveal_strlit("test"); reveal_strlit("build"); reveal_strlit("ci");
                reveal_strlit("chore"); reveal_strlit("revert");
                assert(join_seq(valid_commit_types(), ", "@) =~= "feat, fix, docs, style, refactor, perf, test, build, ci, chore, revert"@);
            }
        }
        Err(chars_to_string(&msg))
    }
}

/// Validates a commit message: the subject must be present and at most
/// `max_subject_length` characters, a body must be separated from the subject
/// by an empty line, and with `enforce_conventional` the subject must follow
/// the Conventional Commits prefix syntax.
pub fn validate_commit_message_content(
    message: &str,
    max_subject_length: usize,
    enforce_conventional: bool,
) -> (r: CommitValidationReport)
    ensures
        r.subject@ == commit_subject(message@),
        r.subject_length == commit_subject(message@).len(),
        strings_view(r.issues@) == commit_issues(message@, max_subject_length as nat, enforce_conventional),
        r.valid == (commit_issues(message@, max_subject_length as nat, enforce_conventional).len() == 0),
        match r.body {
            Some(b) => commit_body(message@) == Some(b@),
            None => commit_body(message@) is None,
        },
{
    let chars = str_chars(message);
    let all_lines = split_lines(&chars);
    let subject_vec = if all_lines.len() > 0 {
        trim_vec(&all_lines[0])
    } else {
        Vec::new()
    };
    let ghost ls = lines_seq(message@);
    assert(vv(all_lines@) == ls);
    assert(ls.len() > 0 ==> all_lines@[0]@ == ls[0]);
    assert(subject_vec@ == commit_subject(message@));
    let mut body_lines: Vec<Vec<char>> = Vec::new();
    let mut k: usize = 1;
    while k < all_lines.len()
        invariant
            1 <= k <= all_lines.len() || all_lines.len() == 0,
            vv(all_lines@) == ls,
            vv(body_lines@) == ls.subrange(1, k as int) || all_lines.len() == 0,
            all_lines.len() == 0 ==> body_lines@.len() == 0,
        decreases all_lines.len() - k,
    {
        let line = slice_vec(&all_lines[k], 0, all_lines[k].len());
        assert(line@ =~= all_lines@[k as int]@);
        body_lines.push(line);
        assert(vv(body_lines@) =~= ls.subrange(1, k + 1));
        k += 1;
    }
    proof {
        if all_lines.len() > 0 {
            assert(ls.subrange(1, all_lines.len() as int) =~= ls.drop_first());
        } else {
            assert(vv(body_lines@) =~= Seq::<Seq<char>>::empty());
        }
    }
    assert(vv(body_lines@) == commit_body_lines(message@));

    let subject_len = subject_vec.len();
    let mut issues: Vec<String> = Vec::new();
    let ghost subject = subject_vec@;
    if subject_len == 0 {
        issues.push(String::from_str("Commit subject line cannot be empty"));
    } else if subject_len > max_subject_length {
        let mut msg = lit("Subject line exceeds ");
        let a = decimal_vec(max_subject_length as u64);
        append_chars(&mut msg, &a);
        append_str(&mut msg, " characters (actual: ");
        let b = decimal_vec(subject_len as u64);
        append_chars(&mut msg, &b);
        append_str(&mut msg, ")");
        issues.push(chars_to_string(&msg));
    }
    let ghost first = strings_view(issues@);
    if body_lines.len() > 0 {
        let t = trim_vec(&body_lines[0]);
        if t.len() != 0 {
            issues.push(String::from_str("Second line must be empty to separate subject from body"));
        }
    }
    let ghost second_end = strings_view(issues@);
    if enforce_conventional && subject_len != 0 {
        match conventional_check(&subject_vec) {
            Err(e) => {
                issues.push(e);
            },
            Ok(_) => {},
        }
    }
    proof {
        assert(strings_view(issues@) =~= commit_issues(message@, max_subject_length as nat, enforce_conventional));
    }

    let body = if body_lines.len() == 0 {
        None
    } else {
        let nl = lit("\n");
        let joined = join_vecs(&body_lines, &nl);
        let t = trim_vec(&joined);
        if t.len() == 0 {
            None
        } else {
            Some(chars_to_string(&t))
        }
    };
    let valid = issues.len() == 0;
    CommitValidationReport {
        valid,
        subject: chars_to_string(&subject_vec),
        subject_length: subject_len,
        body,
        issues,
    }
}

} // verus!

verus! {

/// The arguments a git tool call may carry (each from the request or, for
/// lack of it, the environment).
#[derive(Debug, Clone)]
pub struct GitArgs {
    pub target: Option<String>,
    pub message: Option<String>,
    pub files: Option<Vec<String>>,
    pub max_count: Option<u64>,
    pub branch_name: Option<String>,
    pub revision: Option<String>,
}

pub open spec fn opt_view(o: Option<String>) -> Option<Seq<char>> {
    match o {
        Some(s) => Some(s@),
        None => None,
    }
}

pub open spec fn required_git_arg(v: Option<Seq<char>>, name: Seq<char>) -> Result<Seq<char>, Seq<char>> {
    match v {
        None => Err("Missing '"@ + name + "' argument"@),
        Some(s) => if crate::text::trim_seq(s).len() == 0 {
            Err("Parameter '"@ + name + "' cannot be empty"@)
        } else {
            Ok(s)
        },
    }
}

/// The git command line of a tool call, or why it cannot be made.
pub open spec fn git_command_spec(tool: Seq<char>, a: GitArgs) -> Result<Seq<Seq<char>>, Seq<char>> {
    if tool == "git_status"@ {
        Ok(seq!["status"@])
    } else if tool == "git_diff_unstaged"@ {
        Ok(seq!["diff"@])
    } else if tool == "git_diff_staged"@ {
        Ok(seq!["diff"@, "--staged"@])
    } else if tool == "git_diff"@ {
        Ok(seq!["diff"@, match opt_view(a.target) { Some(t) => t, None => "HEAD"@ }])
    } else if tool == "git_commit"@ {
        match required_git_arg(opt_view(a.message), "message"@) {
            Ok(m) => Ok(seq!["commit"@, "-m"@, m]),
            Err(e) => Err(e),
        }
    } else if tool == "git_add"@ {
        Ok(seq!["add"@] + match a.files {
            Some(f) => crate::sidecar::strings_view(f@),
            None => seq!["."@],
        })
    } else if tool == "git_reset"@ {
        Ok(seq!["reset"@])
    } else if tool == "git_log"@ {
        Ok(seq!["log"@, "-n"@ + crate::text::decimal((match a.max_count { Some(n) => n, None => 10 }) as nat), "--oneline"@, "--decorate"@])
    } else if tool == "git_create_branch"@ {
        match required_git_arg(opt_view(a.branch_name), "branch_name"@) {
            Ok(b) => Ok(seq!["branch"@, b]),
            Err(e) => Err(e),
        }
    } else if tool == "git_checkout"@ {
        match required_git_arg(opt_view(a.branch_name), "branch_name"@) {
            Ok(b) => Ok(seq!["checkout"@, b]),
            Err(e) => Err(e),
        }
    } else if tool == "git_show"@ {
        Ok(seq!["show"@, match opt_view(a.revision) { Some(r) => r, None => "HEAD"@ }])
    } else if tool == "git_init"@ {
        Ok(seq!["init"@])
    } else {
        Err("Unknown git tool: "@ + tool)
    }
}

fn required_git_arg_exec(v: &Option<String>, name: &str) -> (r: Result<String, String>)
    ensures
        crate::fetch::result_view(r) == required_git_arg(opt_view(*v), name@),
{
    match v {
        None => {
            let mut m = str_chars("Missing '");
            crate::text::append_str(&mut m, name);
            crate::text::append_str(&mut m, "' argument");
            Err(chars_to_string(&m))
        },
        Some(s) => {
            let t = crate::text::trim_vec(&str_chars(s.as_str()));
            if t.len() == 0 {
                let mut m = str_chars("Parameter '");
                crate::text::append_str(&mut m, name);
                crate::text::append_str(&mut m, "' cannot be empty");
                Err(chars_to_string(&m))
            } else {
                Ok(s.clone())
            }
        },
    }
}

fn texts(items: &[&str]) -> (r: Vec<String>)
    ensures
        crate::sidecar::strings_view(r@) == Seq::new(items@.len(), |i: int| items@[i]@),
{
    let mut out: Vec<String> = Vec::new();
    let mut i: usize = 0;
    while i < items.len()
        invariant
            i <= items.len(),
            crate::sidecar::strings_view(out@) =~= Seq::new(i as nat, |k: int| items@[k]@),
        decreases items.len() - i,
    {
        let ghost before = crate::sidecar::strings_view(out@);
        let x = String::from_str(items[i]);
        out.push(x);
        assert(crate::sidecar::strings_view(out@) =~= before.push(x@));
        i += 1;
    }
    out
}

/// The command line for a git tool: `status`, `diff` (staged, unstaged or
/// against a target, `HEAD` by default), `commit -m` (message required),
/// `add` (`.` by default), `reset`, `log -n<count> --oneline --decorate`
/// (10 by default), `branch`/`checkout` (branch required), `show` (`HEAD`
/// by default), `init`.
pub fn git_command(tool: &str, args: &GitArgs) -> (r: Result<Vec<String>, String>)
    ensures
        match git_command_spec(tool@, *args) {
            Ok(v) => r matches Ok(x) && crate::sidecar::strings_view(x@) == v,
            Err(e) => r matches Err(m) && m@ == e,
        },
{
    let t = str_chars(tool);
    if eq_str(&t, "git_status") {
        let r = texts(&["status"]);
        proof { reveal_strlit("status"); }
        assert(crate::sidecar::strings_view(r@) =~= seq!["status"@]);
        Ok(r)
    } else if eq_str(&t, "git_diff_unstaged") {
        let r = texts(&["diff"]);
        assert(crate::sidecar::strings_view(r@) =~= seq!["diff"@]);
        Ok(r)
    } else if eq_str(&t, "git_diff_staged") {
        let r = texts(&["diff", "--staged"]);
        assert(crate::sidecar::strings_view(r@) =~= seq!["diff"@, "--staged"@]);
        Ok(r)
    } else if eq_str(&t, "git_diff") {
        let target = match &args.target {
            Some(x) => x.clone(),
            None => String::from_str("HEAD"),
        };
        let mut r = texts(&["diff"]);
        let ghost b = crate::sidecar::strings_view(r@);
        r.push(target);
        assert(crate::sidecar::strings_view(r@) =~= b.push(target@));
        Ok(r)
    } else if eq_str(&t, "git_commit") {
        match required_git_arg_exec(&args.message, "message") {
            Ok(m) => {
                let mut r = texts(&["commit", "-m"]);
                let ghost b = crate::sidecar::strings_view(r@);
                r.push(m);
                assert(crate::sidecar::strings_view(r@) =~= b.push(m@));
                Ok(r)
            },
            Err(e) => Err(e),
        }
    } else if eq_str(&t, "git_add") {
        let mut r = texts(&["add"]);
        let ghost b = crate::sidecar::strings_view(r@);
        match &args.files {
            Some(f) => {
                let mut i: usize = 0;
                while i < f.len()
                    invariant
                        i <= f.len(),
                        crate::sidecar::strings_view(r@) =~= b + crate::sidecar::strings_view(f@).take(i as int),
                    decreases f.len() - i,
                {
                    let ghost before = crate::sidecar::strings_view(r@);
                    let x = f[i].clone();
                    r.push(x);
                    assert(crate::sidecar::strings_view(r@) =~= before.push(x@));
                    assert(crate::sidecar::strings_view(f@).take(i + 1) =~= crate::sidecar::strings_view(f@).take(i as int).push(f@[i as int]@));
                    i += 1;
                }
                assert(crate::sidecar::strings_view(f@).take(f.len() as int) =~= crate::sidecar::strings_view(f@));
            },
            None => {
                r.push(String::from_str("."));
                assert(crate::sidecar::strings_view(r@) =~= b + seq!["."@]);
            },
        }
        Ok(r)
    } else if eq_str(&t, "git_reset") {
        let r = texts(&["reset"]);
        assert(crate::sidecar::strings_view(r@) =~= seq!["reset"@]);
        Ok(r)
    } else if eq_str(&t, "git_log") {
        let n: u64 = match args.max_count {
            Some(n) => n,
            None => 10,
        };
        let mut flag = str_chars("-n");
        crate::text::append_chars(&mut flag, &crate::text::decimal_vec(n));
        let mut r = texts(&["log"]);
        let ghost b = crate::sidecar::strings_view(r@);
        let fs = chars_to_string(&flag);
        r.push(fs);
        r.push(String::from_str("--oneline"));
        r.push(String::from_str("--decorate"));
        assert(crate::sidecar::strings_view(r@) =~= b + seq![fs@, "--oneline"@, "--decorate"@]);
        Ok(r)
    } else if eq_str(&t, "git_create_branch") || eq_str(&t, "git_checkout") {
        let create = eq_str(&t, "git_create_branch");
        match required_git_arg_exec(&args.branch_name, "branch_name") {
            Ok(bn) => {
                let mut r = if create { texts(&["branch"]) } else { texts(&["checkout"]) };
                let ghost b = crate::sidecar::strings_view(r@);
                r.push(bn);
                assert(crate::sidecar::strings_view(r@) =~= b.push(bn@));
                Ok(r)
            },
            Err(e) => Err(e),
        }
    } else if eq_str(&t, "git_show") {
        let rev = match &args.revision {
            Some(x) => x.clone(),
            None => String::from_str("HEAD"),
        };
        let mut r = texts(&["show"]);
        let ghost b = crate::sidecar::strings_view(r@);
        r.push(rev);
        assert(crate::sidecar::strings_view(r@) =~= b.push(rev@));
        Ok(r)
    } else if eq_str(&t, "git_init") {
        let r = texts(&["init"]);
        assert(crate::sidecar::strings_view(r@) =~= seq!["init"@]);
        Ok(r)
    } else {
        let mut m = str_chars("Unknown git tool: ");
        crate::text::append_chars(&mut m, &t);
        Err(chars_to_string(&m))
    }
}

/// What a finished git run gives: its trimmed output (`OK (no output)` when
/// empty), or `Git error: ` and the trimmed error output (the trimmed
/// standard output when that is empty).
pub open spec fn git_outcome_spec(success: bool, stdout: Seq<char>, stderr: Seq<char>) -> Result<Seq<char>, Seq<char>> {
    let out = crate::text::trim_seq(stdout);
    let err = crate::text::trim_seq(stderr);
    if success {
        if out.len() == 0 {
            Ok("OK (no output)"@)
        } else {
            Ok(out)
        }
    } else {
        Err("Git error: "@ + if err.len() > 0 { err } else { out })
    }
}

pub fn git_outcome(success: bool, stdout: &str, stderr: &str) -> (r: Result<String, String>)
    ensures
        crate::fetch::result_view(r) == git_outcome_spec(success, stdout@, stderr@),
{
    let out = crate::text::trim_vec(&str_chars(stdout));
    let err = crate::text::trim_vec(&str_chars(stderr));
    if success {
        if out.len() == 0 {
            Ok(String::from_str("OK (no output)"))
        } else {
            Ok(chars_to_string(&out))
        }
    } else {
        let mut m = str_chars("Git error: ");
        if err.len() > 0 {
            crate::text::append_chars(&mut m, &err);
        } else {
            crate::text::append_chars(&mut m, &out);
        }
        Err(chars_to_string(&m))
    }
}

/// A truth value from the environment: `1`, `true` or `yes` in any ASCII
/// case.
pub fn env_flag(v: &str) -> (b: bool)
    ensures
        ({
            let l = crate::text::ascii_lower_seq(v@);
            b == (l == "1"@ || l == "true"@ || l == "yes"@)
        }),
{
    let l = crate::text::ascii_lower_vec(&str_chars(v));
    eq_str(&l, "1") || eq_str(&l, "true") || eq_str(&l, "yes")
}

} // verus!

verus! {

/// A message whose second line holds any text is never valid: the report
/// names the missing blank line, whatever the subject, the length limit,
/// the conventional check and the lines that follow.
pub proof fn law_second_line_must_be_blank(message: Seq<char>, max_subject_length: nat, conventional: bool)
    ensures
        ({
            let ls = lines_seq(message);
            let issues = commit_issues(message, max_subject_length, conventional);
            ls.len() >= 2 && trim_seq(ls[1]).len() != 0 ==> {
                &&& issues.contains("Second line must be empty to separate subject from body"@)
                &&& issues.len() > 0
            }
        }),
{
    let ls = lines_seq(message);
    if ls.len() >= 2 && trim_seq(ls[1]).len() != 0 {
        let subject = commit_subject(message);
        let body = commit_body_lines(message);
        assert(body[0] == ls[1]);
        let issues = commit_issues(message, max_subject_length, conventional);
        let first: Seq<Seq<char>> = if subject.len() == 0 {
            seq!["Commit subject line cannot be empty"@]
        } else if subject.len() > max_subject_length {
            seq![
                "Subject line exceeds "@ + decimal(max_subject_length) + " characters (actual: "@
                    + decimal(subject.len()) + ")"@,
            ]
        } else {
            seq![]
        };
        assert(issues[first.len() as int] == "Second line must be empty to separate subject from body"@);
    }
}

} // verus!
