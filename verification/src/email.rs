//! Email plugin logic: account settings from presets and explicit values,
//! and the choice of the sent and drafts mailboxes.
use vstd::prelude::*;
use crate::media::opt_string_view;
use crate::text::{append_str, ascii_lower_seq, ascii_lower_vec, chars_to_string, str_chars};

verus! {

/// Connection settings of a mail account.
#[derive(Debug, Clone)]
pub struct EmailAccountConfig {
    pub preset: Option<String>,
    pub imap_host: String,
    pub imap_port: u16,
    pub imap_user: String,
    pub imap_pass: String,
    pub imap_tls: bool,
    pub smtp_host: String,
    pub smtp_port: u16,
    pub smtp_user: String,
    pub smtp_pass: String,
    pub smtp_tls: bool,
    pub display_name: Option<String>,
    pub from_email: String,
}

/// A message as listed in a mailbox.
#[derive(Debug, Clone)]
pub struct MessageHeaderSummary {
    pub uid: u32,
    pub subject: String,
    pub from: String,
    pub to: Vec<String>,
    pub date: Option<String>,
    pub is_read: bool,
    pub is_flagged: bool,
    pub has_attachments: bool,
    pub size_bytes: u32,
}

/// An attachment of a message.
#[derive(Debug, Clone)]
pub struct AttachmentInfo {
    pub filename: String,
    pub content_type: String,
    pub size_bytes: usize,
    pub attachment_index: usize,
}

/// The account values a request supplies, each already taken from the
/// request's arguments or, failing that, from the environment.
#[derive(Debug, Clone)]
pub struct AccountArgs {
    pub preset: Option<String>,
    pub email: Option<String>,
    pub password: Option<String>,
    pub display_name: Option<String>,
    pub imap_host: Option<String>,
    pub smtp_host: Option<String>,
    pub imap_port: Option<u64>,
    pub smtp_port: Option<u64>,
    pub imap_tls: Option<bool>,
    pub smtp_tls: Option<bool>,
}

/// The default hosts and ports of a (lower-cased) preset name:
/// `(imap host, imap port, smtp host, smtp port)`.
pub open spec fn preset_defaults(preset: Option<Seq<char>>) -> (Seq<char>, u64, Seq<char>, u64) {
    match preset {
        Some(p) => if p == "gmail"@ {
            ("imap.gmail.com"@, 993, "smtp.gmail.com"@, 465)
        } else if p == "hostinger"@ {
            ("imap.hostinger.com"@, 993, "smtp.hostinger.com"@, 465)
        } else if p == "outlook"@ {
            ("outlook.office365.com"@, 993, "smtp.office365.com"@, 587)
        } else {
            (""@, 993, ""@, 465)
        },
        None => (""@, 993, ""@, 465),
    }
}

/// A port number as the configuration keeps it (the low 16 bits).
pub open spec fn port_of(p: u64) -> u16 {
    (p % 65536) as u16
}

/// When `resolve_account_config` fails, and with which message.
pub open spec fn account_error(a: AccountArgs) -> Option<Seq<char>> {
    let preset = match a.preset {
        Some(p) => Some(ascii_lower_seq(p@)),
        None => None,
    };
    let d = preset_defaults(preset);
    let imap_host = match a.imap_host {
        Some(h) => h@,
        None => d.0,
    };
    let smtp_host = match a.smtp_host {
        Some(h) => h@,
        None => d.2,
    };
    if a.email is None {
        Some("Missing required email address/username"@)
    } else if a.password is None {
        Some("Missing required email password"@)
    } else if imap_host.len() == 0 {
        Some("IMAP host is not configured (specify preset or imapHost)"@)
    } else if smtp_host.len() == 0 {
        Some("SMTP host is not configured (specify preset or smtpHost)"@)
    } else {
        None
    }
}

/// The configuration that `resolve_account_config` builds when it succeeds.
pub open spec fn account_config_ok(a: AccountArgs, c: EmailAccountConfig) -> bool {
    let preset = match a.preset {
        Some(p) => Some(ascii_lower_seq(p@)),
        None => None,
    };
    let d = preset_defaults(preset);
    &&& opt_string_view(c.preset) == preset
    &&& c.imap_host@ == (match a.imap_host { Some(h) => h@, None => d.0 })
    &&& c.smtp_host@ == (match a.smtp_host { Some(h) => h@, None => d.2 })
    &&& c.imap_port == port_of(match a.imap_port { Some(p) => p, None => d.1 })
    &&& c.smtp_port == port_of(match a.smtp_port { Some(p) => p, None => d.3 })
    &&& c.imap_tls == (match a.imap_tls { Some(b) => b, None => true })
    &&& c.smtp_tls == (match a.smtp_tls { Some(b) => b, None => true })
    &&& a.email matches Some(e) && c.imap_user@ == e@ && c.smtp_user@ == e@ && c.from_email@ == e@
    &&& a.password matches Some(p) && c.imap_pass@ == p@ && c.smtp_pass@ == p@
    &&& opt_string_view(c.display_name) == opt_string_view(a.display_name)
}

fn eq_lit(v: &Vec<char>, s: &str) -> (b: bool)
    ensures
        b == (v@ == s@),
{
    let c = str_chars(s);
    let r = c.len() == v.len() && crate::text::occurs_at_exec(v, &c, 0);
    proof {
        if r || v@ == c@ {
            assert(v@.subrange(0, c@.len() as int) =~= v@);
        }
    }
    r
}

fn copy_string(s: &String) -> (r: String)
    ensures
        r@ == s@,
{
    let v = str_chars(s.as_str());
    chars_to_string(&v)
}

fn copy_opt(s: &Option<String>) -> (r: Option<String>)
    ensures
        opt_string_view(r) == opt_string_view(*s),
{
    match s {
        Some(x) => Some(copy_string(x)),
        None => None,
    }
}

/// Builds the account settings: hosts and ports default to the preset's
/// (`gmail`, `hostinger`, `outlook`, compared lower-cased), TLS defaults to
/// on, and the address and password serve both IMAP and SMTP.
pub fn resolve_account_config(args: &AccountArgs) -> (r: Result<EmailAccountConfig, String>)
    ensures
        match r {
            Ok(c) => account_error(*args) is None && account_config_ok(*args, c),
            Err(e) => account_error(*args) == Some(e@),
        },
{
    let preset: Option<Vec<char>> = match &args.preset {
        Some(p) => Some(ascii_lower_vec(&str_chars(p.as_str()))),
        None => None,
    };
    let (dih, dip, dsh, dsp): (&str, u64, &str, u64) = match &preset {
        Some(p) => if eq_lit(p, "gmail") {
            ("imap.gmail.com", 993, "smtp.gmail.com", 465)
        } else if eq_lit(p, "hostinger") {
            ("imap.hostinger.com", 993, "smtp.hostinger.com", 465)
        } else if eq_lit(p, "outlook") {
            ("outlook.office365.com", 993, "smtp.office365.com", 587)
        } else {
            ("", 993, "", 465)
        },
        None => ("", 993, "", 465),
    };
    let ghost pv: Option<Seq<char>> = match preset { Some(ref p) => Some(p@), None => None };
    assert(preset_defaults(pv) == (dih@, dip, dsh@, dsp));
    let email = match &args.email {
        Some(e) => copy_string(e),
        None => {
            return Err(String::from_str("Missing required email address/username"));
        },
    };
    let pass = match &args.password {
        Some(p) => copy_string(p),
        None => {
            return Err(String::from_str("Missing required email password"));
        },
    };
    let imap_host = match &args.imap_host {
        Some(h) => copy_string(h),
        None => String::from_str(dih),
    };
    let smtp_host = match &args.smtp_host {
        Some(h) => copy_string(h),
        None => String::from_str(dsh),
    };
    if imap_host.as_str().unicode_len() == 0 {
        return Err(String::from_str("IMAP host is not configured (specify preset or imapHost)"));
    }
    if smtp_host.as_str().unicode_len() == 0 {
        return Err(String::from_str("SMTP host is not configured (specify preset or smtpHost)"));
    }
    let ip = match args.imap_port { Some(p) => p, None => dip };
    let sp = match args.smtp_port { Some(p) => p, None => dsp };
    let imap_port = (ip % 65536) as u16;
    let smtp_port = (sp % 65536) as u16;
    let imap_tls = match args.imap_tls { Some(b) => b, None => true };
    let smtp_tls = match args.smtp_tls { Some(b) => b, None => true };
    Ok(EmailAccountConfig {
        preset: match preset {
            Some(p) => Some(chars_to_string(&p)),
            None => None,
        },
        imap_host,
        imap_port,
        imap_user: copy_string(&email),
        imap_pass: copy_string(&pass),
        imap_tls,
        smtp_host,
        smtp_port,
        smtp_user: copy_string(&email),
        smtp_pass: pass,
        smtp_tls,
        display_name: copy_opt(&args.display_name),
        from_email: email,
    })
}

/// Whether two names are equal ignoring ASCII case.
pub open spec fn eq_ignore_case(a: Seq<char>, b: Seq<char>) -> bool {
    ascii_lower_seq(a) == ascii_lower_seq(b)
}

fn eq_ignore_case_exec(a: &str, b: &str) -> (r: bool)
    ensures
        r == eq_ignore_case(a@, b@),
{
    let la = ascii_lower_vec(&str_chars(a));
    let lb = ascii_lower_vec(&str_chars(b));
    let r = la.len() == lb.len() && crate::text::occurs_at_exec(&la, &lb, 0);
    proof {
        if r || la@ == lb@ {
            assert(la@.subrange(0, lb@.len() as int) =~= la@);
        }
    }
    r
}

/// Whether a name is a usual sent-folder name (`sent`) or drafts-folder name.
pub open spec fn mailbox_match(n: Seq<char>, sent: bool) -> bool {
    if sent { is_sent_name(n) } else { is_drafts_name(n) }
}

/// The position of the first matching name among `names`, or its length.
pub open spec fn first_name(names: Seq<Seq<char>>, sent: bool) -> int
    decreases names.len(),
{
    if names.len() == 0 {
        0
    } else if mailbox_match(names[0], sent) {
        0
    } else {
        1 + first_name(names.drop_first(), sent)
    }
}

/// Whether a mailbox name is one of the usual names of the sent folder.
pub open spec fn is_sent_name(n: Seq<char>) -> bool {
    eq_ignore_case(n, "Sent"@) || eq_ignore_case(n, "INBOX.Sent"@) || eq_ignore_case(n, "Sent Items"@)
        || eq_ignore_case(n, "Sent Messages"@)
}

/// Whether a mailbox name is one of the usual names of the drafts folder.
pub open spec fn is_drafts_name(n: Seq<char>) -> bool {
    eq_ignore_case(n, "Drafts"@) || eq_ignore_case(n, "INBOX.Drafts"@) || eq_ignore_case(n, "Draft"@)
}

/// The views of a vector of strings.
pub open spec fn names_view(v: Seq<String>) -> Seq<Seq<char>> {
    v.map_values(|s: String| s@)
}

/// The sent folder: Gmail's fixed name for the `gmail` preset, else the
/// first listed mailbox with a usual sent-folder name, else `Sent`.
pub open spec fn sent_mailbox_spec(preset: Option<Seq<char>>, names: Option<Seq<Seq<char>>>) -> Seq<char> {
    if preset == Some("gmail"@) {
        "[Gmail]/Sent Mail"@
    } else {
        match names {
            Some(ns) => {
                let i = first_name(ns, true);
                if i < ns.len() { ns[i] } else { "Sent"@ }
            },
            None => "Sent"@,
        }
    }
}

/// The drafts folder: Gmail's fixed name for the `gmail` preset, else the
/// first listed mailbox with a usual drafts-folder name, else `Drafts`.
pub open spec fn drafts_mailbox_spec(preset: Option<Seq<char>>, names: Option<Seq<Seq<char>>>) -> Seq<char> {
    if preset == Some("gmail"@) {
        "[Gmail]/Drafts"@
    } else {
        match names {
            Some(ns) => {
                let i = first_name(ns, false);
                if i < ns.len() { ns[i] } else { "Drafts"@ }
            },
            None => "Drafts"@,
        }
    }
}

/// The optional view of an optional list of names.
pub open spec fn opt_names_view(o: Option<&[String]>) -> Option<Seq<Seq<char>>> {
    match o {
        Some(v) => Some(names_view(v@)),
        None => None,
    }
}

proof fn lemma_first_name_step(names: Seq<Seq<char>>, f: bool, k: int)
    requires
        0 <= k <= names.len(),
        forall|m: int| 0 <= m < k ==> !mailbox_match(#[trigger] names[m], f),
    ensures
        first_name(names, f) == k + first_name(names.skip(k), f),
    decreases k,
{
    if k > 0 {
        assert(!mailbox_match(names[0], f));
        assert(names.drop_first().skip(k - 1) =~= names.skip(k));
        assert forall|m: int| 0 <= m < k - 1 implies !mailbox_match(#[trigger] names.drop_first()[m], f) by {
            assert(names.drop_first()[m] == names[m + 1]);
        }
        lemma_first_name_step(names.drop_first(), f, k - 1);
    } else {
        assert(names.skip(0) =~= names);
    }
}

/// Chooses the sent folder from the preset and the listed mailbox names
/// (`None` when the listing failed).
pub fn sent_mailbox(preset: Option<&str>, names: Option<&[String]>) -> (r: String)
    ensures
        r@ == sent_mailbox_spec(crate::filesystem::opt_str_view(preset), opt_names_view(names)),
{
    if let Some(p) = preset {
        if eq_lit(&str_chars(p), "gmail") {
            return String::from_str("[Gmail]/Sent Mail");
        }
    }
    if let Some(ns) = names {
        let ghost f = true;
        let mut k: usize = 0;
        while k < ns.len()
            invariant
                k <= ns.len(),
                forall|m: int| 0 <= m < k ==> !mailbox_match(#[trigger] names_view(ns@)[m], f),
                f == true,
                names == Some(ns),
                crate::filesystem::opt_str_view(preset) != Some("gmail"@),
            decreases ns.len() - k,
        {
            let n = ns[k].as_str();
            assert(names_view(ns@)[k as int] == n@);
            if eq_ignore_case_exec(n, "Sent") || eq_ignore_case_exec(n, "INBOX.Sent")
                || eq_ignore_case_exec(n, "Sent Items") || eq_ignore_case_exec(n, "Sent Messages") {
                proof {
                    lemma_first_name_step(names_view(ns@), f, k as int);
                    assert(names_view(ns@).skip(k as int)[0] == n@);
                }
                return copy_string(&ns[k]);
            }
            k += 1;
        }
        proof {
            lemma_first_name_step(names_view(ns@), f, ns@.len() as int);
            assert(names_view(ns@).skip(ns@.len() as int).len() == 0);
        }
    }
    String::from_str("Sent")
}

/// Chooses the drafts folder from the preset and the listed mailbox names
/// (`None` when the listing failed).
pub fn drafts_mailbox(preset: Option<&str>, names: Option<&[String]>) -> (r: String)
    ensures
        r@ == drafts_mailbox_spec(crate::filesystem::opt_str_view(preset), opt_names_view(names)),
{
    if let Some(p) = preset {
        if eq_lit(&str_chars(p), "gmail") {
            return String::from_str("[Gmail]/Drafts");
        }
    }
    if let Some(ns) = names {
        let ghost f = false;
        let mut k: usize = 0;
        while k < ns.len()
            invariant
                k <= ns.len(),
                forall|m: int| 0 <= m < k ==> !mailbox_match(#[trigger] names_view(ns@)[m], f),
                f == false,
                names == Some(ns),
                crate::filesystem::opt_str_view(preset) != Some("gmail"@),
            decreases ns.len() - k,
        {
            let n = ns[k].as_str();
            assert(names_view(ns@)[k as int] == n@);
            if eq_ignore_case_exec(n, "Drafts") || eq_ignore_case_exec(n, "INBOX.Drafts")
                || eq_ignore_case_exec(n, "Draft") {
                proof {
                    lemma_first_name_step(names_view(ns@), f, k as int);
                    assert(names_view(ns@).skip(k as int)[0] == n@);
                }
                return copy_string(&ns[k]);
            }
            k += 1;
        }
        proof {
            lemma_first_name_step(names_view(ns@), f, ns@.len() as int);
            assert(names_view(ns@).skip(ns@.len() as int).len() == 0);
        }
    }
    String::from_str("Drafts")
}

} // verus!

verus! {

pub open spec fn uids_sorted_desc(s: Seq<u32>) -> bool {
    forall|i: int, j: int| 0 <= i < j < s.len() ==> s[i] >= s[j]
}

/// The message ids, newest (largest) first.
pub fn sort_uids_desc(uids: &[u32]) -> (r: Vec<u32>)
    ensures
        uids_sorted_desc(r@),
        r@.to_multiset() == uids@.to_multiset(),
{
    broadcast use vstd::seq_lib::to_multiset_insert;
    let mut out: Vec<u32> = Vec::new();
    let mut i: usize = 0;
    assert(out@ =~= uids@.take(0));
    while i < uids.len()
        invariant
            i <= uids.len(),
            uids_sorted_desc(out@),
            out@.to_multiset() == uids@.take(i as int).to_multiset(),
        decreases uids.len() - i,
    {
        let x = uids[i];
        let ghost ov = out@;
        let mut j: usize = 0;
        while j < out.len() && out[j] >= x
            invariant
                j <= out@.len(),
                ov == out@,
                forall|k: int| 0 <= k < j ==> #[trigger] ov[k] >= x,
            decreases out@.len() - j,
        {
            j += 1;
        }
        out.insert(j, x);
        proof {
            let nv = out@;
            assert(nv =~= ov.insert(j as int, x));
            assert forall|a: int, b: int| 0 <= a < b < nv.len() implies nv[a] >= nv[b] by {
                if b < j {
                } else if a < j && b == j {
                } else if a < j && b > j {
                    assert(nv[b] == ov[b - 1]);
                } else if a == j {
                    assert(nv[b] == ov[b - 1]);
                    if b - 1 > j {
                        assert(ov[j as int] >= ov[b - 1]);
                    }
                } else {
                    assert(nv[a] == ov[a - 1]);
                    assert(nv[b] == ov[b - 1]);
                }
            }
            assert(uids@.take(i + 1) =~= uids@.take(i as int).push(x));
            vstd::seq_lib::to_multiset_build(uids@.take(i as int), x);
            vstd::seq_lib::to_multiset_insert(ov, j as int, x);
        }
        i += 1;
    }
    assert(uids@.take(uids.len() as int) =~= uids@);
    out
}

/// Where page `page` (counted from 1; 0 counts as 1) of `limit` messages
/// starts.
pub open spec fn page_start_index(page: nat, limit: nat) -> nat {
    ((if page > 0 { page - 1 } else { 0 }) * limit) as nat
}

/// The ids newest first: the arrangement of the ids in descending order
/// (there is exactly one).
pub open spec fn newest_first(uids: Seq<u32>) -> Seq<u32> {
    choose|all: Seq<u32>| uids_sorted_desc(all) && all.to_multiset() == uids.to_multiset()
}

/// Where page `page` starts in a listing of `n` ids (its end where the page
/// lies past the last id).
pub open spec fn page_start_in(page: nat, limit: nat, n: nat) -> nat {
    if page_start_index(page, limit) < n {
        page_start_index(page, limit)
    } else {
        n
    }
}

/// The ids of page `page` of `limit` messages, newest first.
pub open spec fn uid_page(uids: Seq<u32>, page: nat, limit: nat) -> Seq<u32> {
    let all = newest_first(uids);
    let s = page_start_in(page, limit, all.len());
    all.skip(s as int).take(if limit < all.len() - s { limit as int } else { all.len() - s })
}

/// A descending arrangement of the ids is the one `newest_first` names.
proof fn lemma_newest_first_is(uids: Seq<u32>, all: Seq<u32>)
    requires
        uids_sorted_desc(all),
        all.to_multiset() == uids.to_multiset(),
    ensures
        newest_first(uids) == all,
{
    let leq = |a: u32, b: u32| a >= b;
    let chosen = newest_first(uids);
    assert(uids_sorted_desc(chosen) && chosen.to_multiset() == uids.to_multiset());
    assert(vstd::relations::sorted_by(all, leq));
    assert(vstd::relations::sorted_by(chosen, leq));
    assert(vstd::relations::total_ordering(leq));
    vstd::seq_lib::lemma_sorted_unique(chosen, all, leq);
}

/// One page of a mailbox listing: how many ids there are, and the ids of
/// page `page`, newest first.
pub fn page_of_uids(uids: &[u32], page: usize, limit: usize) -> (r: (usize, Vec<u32>))
    requires
        page_start_index(page as nat, limit as nat) <= usize::MAX,
    ensures
        r.0 == uids@.len(),
        r.1@ == uid_page(uids@, page as nat, limit as nat),
{
    let all = sort_uids_desc(uids);
    let p = if page > 0 { page - 1 } else { 0 };
    let start = p * limit;
    let s = if start < all.len() { start } else { all.len() };
    let rem = all.len() - s;
    let n = if limit < rem { limit } else { rem };
    let mut out: Vec<u32> = Vec::new();
    let mut k: usize = 0;
    let cl = all.len();
    while k < n
        invariant
            k <= n,
            cl == all@.len(),
            s + n <= cl,
            out@ =~= all@.skip(s as int).take(k as int),
        decreases n - k,
    {
        out.push(all[s + k]);
        k += 1;
    }
    proof {
        lemma_newest_first_is(uids@, all@);
    }
    (uids.len(), out)
}

/// Message ids as an IMAP id set (`1,2,3`).
pub open spec fn uid_set_spec(uids: Seq<u32>) -> Seq<char>
    decreases uids.len(),
{
    if uids.len() == 0 {
        seq![]
    } else if uids.len() == 1 {
        crate::text::decimal(uids[0] as nat)
    } else {
        uid_set_spec(uids.drop_last()) + seq![','] + crate::text::decimal(uids.last() as nat)
    }
}

pub fn uid_set(uids: &[u32]) -> (s: String)
    ensures
        s@ == uid_set_spec(uids@),
{
    let mut out: Vec<char> = Vec::new();
    let mut i: usize = 0;
    while i < uids.len()
        invariant
            i <= uids.len(),
            out@ == uid_set_spec(uids@.take(i as int)),
        decreases uids.len() - i,
    {
        let ghost before = out@;
        if i > 0 {
            out.push(',');
        }
        crate::text::append_chars(&mut out, &crate::text::decimal_vec(uids[i] as u64));
        assert(uids@.take(i + 1).drop_last() =~= uids@.take(i as int));
        assert(i == 0 ==> uids@.take(i + 1) =~= seq![uids@[0]]);
        assert(out@ =~= uid_set_spec(uids@.take(i + 1)));
        i += 1;
    }
    assert(uids@.take(uids.len() as int) =~= uids@);
    chars_to_string(&out)
}

/// The IMAP search for a listing: unread messages or all.
pub fn listing_query(unread_only: bool) -> (s: String)
    ensures
        s@ == (if unread_only { "UNSEEN"@ } else { "ALL"@ }),
{
    if unread_only { String::from_str("UNSEEN") } else { String::from_str("ALL") }
}

pub open spec fn criterion(key: Seq<char>, v: Option<Seq<char>>) -> Seq<Seq<char>> {
    match v {
        Some(x) => seq![key + " \""@ + x + "\""@],
        None => seq![],
    }
}

/// The IMAP search for the search tool: a quoted `TEXT`, `FROM`, `TO`,
/// `SUBJECT` and `SINCE` criterion for each filter given, joined by
/// spaces; `ALL` when none is.
pub open spec fn search_criteria_spec(
    query: Option<Seq<char>>,
    from: Option<Seq<char>>,
    to: Option<Seq<char>>,
    subject: Option<Seq<char>>,
    since: Option<Seq<char>>,
) -> Seq<char> {
    let c = criterion("TEXT"@, query) + criterion("FROM"@, from) + criterion("TO"@, to) + criterion(
        "SUBJECT"@,
        subject,
    ) + criterion("SINCE"@, since);
    if c.len() == 0 {
        "ALL"@
    } else {
        crate::lines::join_seq(c, seq![' '])
    }
}

fn push_criterion(parts: &mut Vec<Vec<char>>, key: &str, v: Option<&str>)
    ensures
        crate::lines::vv(final(parts)@) == crate::lines::vv(old(parts)@) + criterion(key@, opt_str(v)),
{
    let ghost before = crate::lines::vv(parts@);
    match v {
        Some(x) => {
            let mut c = str_chars(key);
            append_str(&mut c, " \"");
            append_str(&mut c, x);
            append_str(&mut c, "\"");
            parts.push(c);
            assert(crate::lines::vv(parts@) =~= before + criterion(key@, opt_str(v)));
        },
        None => {
            assert(crate::lines::vv(parts@) =~= before + criterion(key@, opt_str(v)));
        },
    }
}

pub open spec fn opt_str(o: Option<&str>) -> Option<Seq<char>> {
    match o {
        Some(s) => Some(s@),
        None => None,
    }
}

pub fn search_criteria(
    query: Option<&str>,
    from: Option<&str>,
    to: Option<&str>,
    subject: Option<&str>,
    since: Option<&str>,
) -> (s: String)
    ensures
        s@ == search_criteria_spec(opt_str(query), opt_str(from), opt_str(to), opt_str(subject), opt_str(since)),
{
    let mut parts: Vec<Vec<char>> = Vec::new();
    assert(crate::lines::vv(parts@) =~= Seq::<Seq<char>>::empty());
    push_criterion(&mut parts, "TEXT", query);
    push_criterion(&mut parts, "FROM", from);
    push_criterion(&mut parts, "TO", to);
    push_criterion(&mut parts, "SUBJECT", subject);
    push_criterion(&mut parts, "SINCE", since);
    assert(crate::lines::vv(parts@) =~= criterion("TEXT"@, opt_str(query)) + criterion("FROM"@, opt_str(from))
        + criterion("TO"@, opt_str(to)) + criterion("SUBJECT"@, opt_str(subject)) + criterion("SINCE"@, opt_str(since)));
    if parts.len() == 0 {
        String::from_str("ALL")
    } else {
        let sep = vec![' '];
        assert(sep@ =~= seq![' ']);
        chars_to_string(&crate::lines::join_vecs(&parts, &sep))
    }
}

/// How a sender is shown: `Name <address>` when a display name is given,
/// else the address (empty when unknown).
pub open spec fn sender_spec(name: Option<Seq<char>>, address: Option<Seq<char>>) -> Seq<char> {
    let a = match address {
        Some(x) => x,
        None => seq![],
    };
    match name {
        Some(n) => n + " <"@ + a + ">"@,
        None => a,
    }
}

pub fn sender_text(name: Option<&str>, address: Option<&str>) -> (s: String)
    ensures
        s@ == sender_spec(opt_str(name), opt_str(address)),
{
    let a: Vec<char> = match address {
        Some(x) => str_chars(x),
        None => Vec::new(),
    };
    match name {
        Some(n) => {
            let mut v = str_chars(n);
            append_str(&mut v, " <");
            crate::text::append_chars(&mut v, &a);
            append_str(&mut v, ">");
            chars_to_string(&v)
        },
        None => chars_to_string(&a),
    }
}

/// The subject of a reply: kept when it already starts with `re:` in any
/// ASCII case, else prefixed with `Re: `.
pub open spec fn reply_subject_spec(orig: Seq<char>) -> Seq<char> {
    if crate::text::starts_with(ascii_lower_seq(orig), "re:"@) {
        orig
    } else {
        "Re: "@ + orig
    }
}

pub fn reply_subject(orig: &str) -> (s: String)
    ensures
        s@ == reply_subject_spec(orig@),
{
    let o = str_chars(orig);
    let l = ascii_lower_vec(&o);
    if crate::text::starts_with_exec(&l, &str_chars("re:")) {
        String::from_str(orig)
    } else {
        let mut v = str_chars("Re: ");
        crate::text::append_chars(&mut v, &o);
        chars_to_string(&v)
    }
}

/// The IMAP flag change of a flag action.
pub open spec fn flag_command_spec(action: Seq<char>) -> Option<Seq<char>> {
    if action == "mark_read"@ {
        Some("+FLAGS (\\Seen)"@)
    } else if action == "mark_unread"@ {
        Some("-FLAGS (\\Seen)"@)
    } else if action == "star"@ {
        Some("+FLAGS (\\Flagged)"@)
    } else if action == "unstar"@ {
        Some("-FLAGS (\\Flagged)"@)
    } else {
        None
    }
}

pub fn flag_command(action: &str) -> (r: Result<String, String>)
    ensures
        match flag_command_spec(action@) {
            Some(c) => r matches Ok(x) && x@ == c,
            None => r matches Err(e) && e@ == "Unsupported action '"@ + action@ + "'"@,
        },
{
    let a = str_chars(action);
    if crate::markdown::is_word(&a, "mark_read") {
        Ok(String::from_str("+FLAGS (\\Seen)"))
    } else if crate::markdown::is_word(&a, "mark_unread") {
        Ok(String::from_str("-FLAGS (\\Seen)"))
    } else if crate::markdown::is_word(&a, "star") {
        Ok(String::from_str("+FLAGS (\\Flagged)"))
    } else if crate::markdown::is_word(&a, "unstar") {
        Ok(String::from_str("-FLAGS (\\Flagged)"))
    } else {
        let mut m = str_chars("Unsupported action '");
        crate::text::append_chars(&mut m, &a);
        append_str(&mut m, "'");
        Err(chars_to_string(&m))
    }
}

/// Whether an attachment is saved: the one at the asked index; else those
/// whose name equals the asked name in any ASCII case; else all.
pub open spec fn attachment_wanted_spec(idx: nat, name: Seq<char>, want_index: Option<usize>, want_name: Option<Seq<char>>) -> bool {
    match want_index {
        Some(t) => t == idx,
        None => match want_name {
            Some(n) => eq_ignore_case(name, n),
            None => true,
        },
    }
}

pub fn attachment_wanted(idx: usize, name: &str, want_index: Option<usize>, want_name: Option<&str>) -> (b: bool)
    ensures
        b == attachment_wanted_spec(idx as nat, name@, want_index, opt_str(want_name)),
{
    match want_index {
        Some(t) => t == idx,
        None => match want_name {
            Some(n) => eq_ignore_case_exec(name, n),
            None => true,
        },
    }
}

} // verus!

verus! {

/// The recipients of a comma-separated list: each trimmed, empty ones
/// dropped.
pub open spec fn address_list_spec(list: Seq<char>) -> Seq<Seq<char>> {
    address_filter(crate::filesystem::split_char(list, ','))
}

pub open spec fn address_filter(parts: Seq<Seq<char>>) -> Seq<Seq<char>>
    decreases parts.len(),
{
    if parts.len() == 0 {
        seq![]
    } else {
        let r = address_filter(parts.drop_last());
        let t = crate::text::trim_seq(parts.last());
        if t.len() == 0 {
            r
        } else {
            r.push(t)
        }
    }
}

pub fn split_addresses(list: &str) -> (r: Vec<String>)
    ensures
        crate::sidecar::strings_view(r@) == address_list_spec(list@),
{
    let parts = crate::filesystem::split_char_exec(&str_chars(list), ',');
    let ghost pv = crate::lines::vv(parts@);
    let mut out: Vec<String> = Vec::new();
    let mut i: usize = 0;
    while i < parts.len()
        invariant
            i <= parts.len(),
            pv == crate::lines::vv(parts@),
            crate::sidecar::strings_view(out@) == address_filter(pv.take(i as int)),
        decreases parts.len() - i,
    {
        let t = crate::text::trim_vec(&parts[i]);
        assert(pv.take(i + 1).drop_last() =~= pv.take(i as int));
        assert(pv.take(i + 1).last() == parts@[i as int]@);
        if t.len() > 0 {
            let ghost before = crate::sidecar::strings_view(out@);
            let s = chars_to_string(&t);
            out.push(s);
            assert(crate::sidecar::strings_view(out@) =~= before.push(t@));
        }
        i += 1;
    }
    assert(pv.take(parts.len() as int) =~= pv);
    out
}

pub open spec fn cc_filter(to: Seq<Seq<char>>, own: Seq<char>, orig_from: Seq<char>) -> Seq<Seq<char>>
    decreases to.len(),
{
    if to.len() == 0 {
        seq![]
    } else {
        let r = cc_filter(to.drop_last(), own, orig_from);
        if to.last() != own && to.last() != orig_from {
            r.push(to.last())
        } else {
            r
        }
    }
}

/// The copies of a reply to all: the original recipients other than this
/// account and the original sender, in order.
pub fn reply_all_cc(to: &[String], own: &str, orig_from: &str) -> (r: Vec<String>)
    ensures
        crate::sidecar::strings_view(r@) == cc_filter(crate::sidecar::strings_view(to@), own@, orig_from@),
{
    let ghost tv = crate::sidecar::strings_view(to@);
    let ov = str_chars(own);
    let fv = str_chars(orig_from);
    let mut out: Vec<String> = Vec::new();
    let mut i: usize = 0;
    while i < to.len()
        invariant
            i <= to.len(),
            tv == crate::sidecar::strings_view(to@),
            ov@ == own@,
            fv@ == orig_from@,
            crate::sidecar::strings_view(out@) == cc_filter(tv.take(i as int), own@, orig_from@),
        decreases to.len() - i,
    {
        let a = str_chars(to[i].as_str());
        assert(tv.take(i + 1).drop_last() =~= tv.take(i as int));
        assert(tv.take(i + 1).last() == a@);
        if !crate::markdown::same_chars(&a, &ov) && !crate::markdown::same_chars(&a, &fv) {
            let ghost before = crate::sidecar::strings_view(out@);
            out.push(to[i].clone());
            assert(crate::sidecar::strings_view(out@) =~= before.push(a@));
        }
        i += 1;
    }
    assert(tv.take(to.len() as int) =~= tv);
    out
}

/// Whether a sent message is also filed in the Sent mailbox: always but
/// with the `gmail` preset, whose server files it itself.
pub fn files_sent_copy(preset: Option<&str>) -> (b: bool)
    ensures
        b == !(preset matches Some(p) && p@ == "gmail"@),
{
    match preset {
        Some(p) => !crate::markdown::is_word(&str_chars(p), "gmail"),
        None => true,
    }
}

} // verus!

verus! {

/// Pages 1 to `k` of a listing, one after the other.
pub open spec fn first_pages(uids: Seq<u32>, k: nat, limit: nat) -> Seq<u32>
    decreases k,
{
    if k == 0 {
        Seq::empty()
    } else {
        first_pages(uids, (k - 1) as nat, limit) + uid_page(uids, k, limit)
    }
}

/// Paging through a listing reads it in order, without gaps or repeats:
/// pages 1 to `k` together are the first `k * limit` ids newest first (all
/// of them once `k * limit` reaches their number), and those are the ids
/// of the mailbox in descending order.
pub proof fn law_pages_read_listing_in_order(uids: Seq<u32>, k: nat, limit: nat)
    ensures
        first_pages(uids, k, limit) == newest_first(uids).take(
            if k * limit < uids.len() { (k * limit) as int } else { uids.len() as int },
        ),
        uids_sorted_desc(newest_first(uids)),
        newest_first(uids).to_multiset() == uids.to_multiset(),
    decreases k,
{
    let sorted = sort_spec_witness(uids);
    lemma_newest_first_is(uids, sorted);
    let all = newest_first(uids);
    assert(all.len() == uids.len()) by {
        all.to_multiset_ensures();
        uids.to_multiset_ensures();
    }
    if k == 0 {
        assert(k * limit == 0) by (nonlinear_arith)
            requires
                k == 0,
        ;
        assert(all.take(0) =~= Seq::<u32>::empty());
    } else {
        law_pages_read_listing_in_order(uids, (k - 1) as nat, limit);
        let n = all.len() as int;
        let prev = (k - 1) * limit;
        assert(k * limit == prev + limit) by (nonlinear_arith)
            requires
                k >= 1,
                prev == (k - 1) * limit,
        ;
        assert(page_start_index(k, limit) == prev);
        let s: int = if prev < n { prev } else { n };
        let t: int = if limit < n - s { limit as int } else { n - s };
        assert(page_start_in(k, limit, n as nat) == s);
        assert(uid_page(uids, k, limit) == all.skip(s).take(t));
        assert(first_pages(uids, (k - 1) as nat, limit) == all.take(s));
        assert(s + t == (if k * limit < n { (k * limit) as int } else { n }));
        assert(all.take(s) + all.skip(s).take(t) =~= all.take(s + t));
        assert(first_pages(uids, k, limit) == first_pages(uids, (k - 1) as nat, limit) + uid_page(
            uids,
            k,
            limit,
        ));
    }
}

/// Some descending arrangement of the ids exists.
proof fn sort_spec_witness(uids: Seq<u32>) -> (all: Seq<u32>)
    ensures
        uids_sorted_desc(all),
        all.to_multiset() == uids.to_multiset(),
{
    let leq = |a: u32, b: u32| a >= b;
    assert(vstd::relations::total_ordering(leq));
    uids.lemma_sort_by_ensures(leq);
    let all = uids.sort_by(leq);
    assert forall|i: int, j: int| 0 <= i < j < all.len() implies all[i] >= all[j] by {
        assert(leq(all[i], all[j]));
    }
    all
}

} // verus!

verus! {

/// The flag actions act on IMAP flags as their names say: `mark_read` adds
/// (`+FLAGS`) the `\Seen` flag and `mark_unread` removes (`-FLAGS`) that
/// same flag; `star` adds `\Flagged` and `unstar` removes it. Any other
/// action has no flag change.
pub proof fn law_flag_actions(action: Seq<char>)
    ensures
        ({
            let read = flag_command_spec("mark_read"@);
            let unread = flag_command_spec("mark_unread"@);
            &&& read is Some && unread is Some
            &&& read->0[0] == '+' && unread->0[0] == '-'
            &&& read->0.skip(1) == unread->0.skip(1)
            &&& read->0.skip(1) == "FLAGS (\\Seen)"@
        }),
        ({
            let star = flag_command_spec("star"@);
            let unstar = flag_command_spec("unstar"@);
            &&& star is Some && unstar is Some
            &&& star->0[0] == '+' && unstar->0[0] == '-'
            &&& star->0.skip(1) == unstar->0.skip(1)
            &&& star->0.skip(1) == "FLAGS (\\Flagged)"@
        }),
        flag_command_spec(action) is Some <==> (action == "mark_read"@ || action == "mark_unread"@
            || action == "star"@ || action == "unstar"@),
{
    reveal_strlit("mark_read");
    reveal_strlit("mark_unread");
    reveal_strlit("star");
    reveal_strlit("unstar");
    reveal_strlit("+FLAGS (\\Seen)");
    reveal_strlit("-FLAGS (\\Seen)");
    reveal_strlit("FLAGS (\\Seen)");
    reveal_strlit("+FLAGS (\\Flagged)");
    reveal_strlit("-FLAGS (\\Flagged)");
    reveal_strlit("FLAGS (\\Flagged)");
    assert("mark_unread"@.len() != "mark_read"@.len());
    assert("star"@.len() != "mark_read"@.len() && "star"@.len() != "mark_unread"@.len());
    assert("unstar"@.len() != "mark_read"@.len() && "unstar"@.len() != "mark_unread"@.len()
        && "unstar"@.len() != "star"@.len());
    assert("+FLAGS (\\Seen)"@.skip(1) =~= "FLAGS (\\Seen)"@);
    assert("-FLAGS (\\Seen)"@.skip(1) =~= "FLAGS (\\Seen)"@);
    assert("+FLAGS (\\Flagged)"@.skip(1) =~= "FLAGS (\\Flagged)"@);
    assert("-FLAGS (\\Flagged)"@.skip(1) =~= "FLAGS (\\Flagged)"@);
}

} // verus!
