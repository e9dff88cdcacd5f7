//! Reading mail messages: the parsed fields of a raw RFC 822 message, and
//! what the email tools report of them (header summaries, full messages,
//! the attachments to save, and the headers of a reply).
use vstd::prelude::*;
use crate::email::{
    attachment_wanted, attachment_wanted_spec, cc_filter, reply_all_cc, reply_subject,
    reply_subject_spec, sender_spec, sender_text, AttachmentInfo, MessageHeaderSummary,
};
use crate::media::opt_string_view;
use crate::sidecar::strings_view;
use crate::text::{chars_to_string, str_chars};

verus! {

/// An attachment of a parsed message: its file name and content type where
/// the message gives them, and its decoded contents.
#[derive(Debug, Clone)]
pub struct MailPart {
    pub name: Option<String>,
    pub content_type: Option<String>,
    pub contents: Vec<u8>,
}

/// The fields of a parsed message that the tools read: the subject, the
/// name and address of the first sender, the address of each recipient,
/// the date as RFC 3339 text, the message id, the first text and HTML
/// bodies, and the attachments.
#[derive(Debug, Clone)]
pub struct ParsedMail {
    pub subject: Option<String>,
    pub from_name: Option<String>,
    pub from_address: Option<String>,
    pub to: Vec<Option<String>>,
    pub date: Option<String>,
    pub message_id: Option<String>,
    pub body_text: Option<String>,
    pub body_html: Option<String>,
    pub attachments: Vec<MailPart>,
}

/// The model of an attachment.
pub struct MailPartView {
    pub name: Option<Seq<char>>,
    pub content_type: Option<Seq<char>>,
    pub contents: Seq<u8>,
}

/// The model of a parsed message.
pub struct ParsedMailView {
    pub subject: Option<Seq<char>>,
    pub from_name: Option<Seq<char>>,
    pub from_address: Option<Seq<char>>,
    pub to: Seq<Option<Seq<char>>>,
    pub date: Option<Seq<char>>,
    pub message_id: Option<Seq<char>>,
    pub body_text: Option<Seq<char>>,
    pub body_html: Option<Seq<char>>,
    pub attachments: Seq<MailPartView>,
}

pub open spec fn part_view(p: MailPart) -> MailPartView {
    MailPartView { name: opt_string_view(p.name), content_type: opt_string_view(p.content_type), contents: p.contents@ }
}

pub open spec fn mail_view(m: ParsedMail) -> ParsedMailView {
    ParsedMailView {
        subject: opt_string_view(m.subject),
        from_name: opt_string_view(m.from_name),
        from_address: opt_string_view(m.from_address),
        to: Seq::new(m.to@.len(), |i: int| opt_string_view(m.to@[i])),
        date: opt_string_view(m.date),
        message_id: opt_string_view(m.message_id),
        body_text: opt_string_view(m.body_text),
        body_html: opt_string_view(m.body_html),
        attachments: Seq::new(m.attachments@.len(), |i: int| part_view(m.attachments@[i])),
    }
}

pub open spec fn opt_mail_view(m: Option<ParsedMail>) -> Option<ParsedMailView> {
    match m {
        Some(x) => Some(mail_view(x)),
        None => None,
    }
}

/// The header fields of a parsed message: subject, the first sender's
/// name and address, the recipients' addresses, the date as RFC 3339 text
/// and the message id.
#[derive(Debug, Clone)]
pub struct MailHeaders {
    pub subject: Option<String>,
    pub from: Option<(Option<String>, Option<String>)>,
    pub to: Vec<Option<String>>,
    pub date: Option<String>,
    pub message_id: Option<String>,
}

/// The model of the header fields.
pub struct MailHeadersView {
    pub subject: Option<Seq<char>>,
    pub from: Option<(Option<Seq<char>>, Option<Seq<char>>)>,
    pub to: Seq<Option<Seq<char>>>,
    pub date: Option<Seq<char>>,
    pub message_id: Option<Seq<char>>,
}

pub open spec fn headers_view(h: MailHeaders) -> MailHeadersView {
    MailHeadersView {
        subject: opt_string_view(h.subject),
        from: match h.from {
            Some(f) => Some((opt_string_view(f.0), opt_string_view(f.1))),
            None => None,
        },
        to: Seq::new(h.to@.len(), |i: int| opt_string_view(h.to@[i])),
        date: opt_string_view(h.date),
        message_id: opt_string_view(h.message_id),
    }
}

/// What `mail_parser` reads from a raw message's headers
/// (`MessageParser::parse`, then `subject`, `from` (first), `to`, `date`
/// as RFC 3339, `message_id`); `None` where the message does not parse.
pub uninterp spec fn mime_headers(raw: Seq<u8>) -> Option<MailHeadersView>;

/// What `mail_parser` reads as a raw message's first text and HTML bodies
/// (`Message::body_text(0)`, `Message::body_html(0)`); `None` where the
/// message does not parse.
pub uninterp spec fn mime_bodies(raw: Seq<u8>) -> Option<(Option<Seq<char>>, Option<Seq<char>>)>;

/// What `mail_parser` reads as a raw message's attachments
/// (`Message::attachments`, each with its `attachment_name`, the main type
/// of its `content_type`, and its decoded `contents`); `None` where the
/// message does not parse.
pub uninterp spec fn mime_attachments(raw: Seq<u8>) -> Option<Seq<MailPartView>>;

/// The header fields of a raw message (`mail_parser`); the result is named
/// `mime_headers` and depends on the bytes alone.
#[verifier::external_body]
fn parse_headers(raw: &[u8]) -> (h: Option<MailHeaders>)
    ensures
        match h {
            Some(x) => mime_headers(raw@) == Some(headers_view(x)),
            None => mime_headers(raw@) is None,
        },
{
    let p = mail_parser::MessageParser::default().parse(raw)?;
    let s = |x: Option<&str>| x.map(String::from);
    Some(MailHeaders {
        subject: s(p.subject()),
        from: p.from().and_then(|f| f.first()).map(|a| (s(a.name()), s(a.address()))),
        to: p.to().map(|t| t.iter().map(|a| s(a.address())).collect()).unwrap_or_default(),
        date: p.date().map(|d| d.to_rfc3339()),
        message_id: s(p.message_id()),
    })
}

/// The first text and HTML bodies of a raw message (`mail_parser`); the
/// result is named `mime_bodies` and depends on the bytes alone.
#[verifier::external_body]
fn parse_bodies(raw: &[u8]) -> (b: Option<(Option<String>, Option<String>)>)
    ensures
        match b {
            Some(x) => mime_bodies(raw@) == Some((opt_string_view(x.0), opt_string_view(x.1))),
            None => mime_bodies(raw@) is None,
        },
{
    let p = mail_parser::MessageParser::default().parse(raw)?;
    Some((p.body_text(0).map(String::from), p.body_html(0).map(String::from)))
}

/// The attachments of a raw message (`mail_parser`); the result is named
/// `mime_attachments` and depends on the bytes alone.
#[verifier::external_body]
fn parse_attachments(raw: &[u8]) -> (a: Option<Vec<MailPart>>)
    ensures
        match a {
            Some(v) => mime_attachments(raw@) == Some(Seq::new(v@.len(), |i: int| part_view(v@[i]))),
            None => mime_attachments(raw@) is None,
        },
{
    let p = mail_parser::MessageParser::default().parse(raw)?;
    let s = |x: Option<&str>| x.map(String::from);
    let part = |a: &mail_parser::MessagePart| MailPart {
        name: s(mail_parser::MimeHeaders::attachment_name(a)),
        content_type: s(mail_parser::MimeHeaders::content_type(a).map(|c| c.ctype())),
        contents: a.contents().to_vec(),
    };
    Some(p.attachments().map(part).collect())
}

/// A raw message as the tools read it: its header fields, bodies and
/// attachments; `None` where it does not parse.
pub open spec fn mime_parse(raw: Seq<u8>) -> Option<ParsedMailView> {
    match (mime_headers(raw), mime_bodies(raw), mime_attachments(raw)) {
        (Some(h), Some(b), Some(a)) => Some(
            ParsedMailView {
                subject: h.subject,
                from_name: match h.from {
                    Some(f) => f.0,
                    None => None,
                },
                from_address: match h.from {
                    Some(f) => f.1,
                    None => None,
                },
                to: h.to,
                date: h.date,
                message_id: h.message_id,
                body_text: b.0,
                body_html: b.1,
                attachments: a,
            },
        ),
        _ => None,
    }
}

/// Parses a raw message into the fields the tools read.
pub fn parse_mime(raw: &[u8]) -> (m: Option<ParsedMail>)
    ensures
        opt_mail_view(m) == mime_parse(raw@),
{
    let h = match parse_headers(raw) {
        Some(h) => h,
        None => return None,
    };
    let b = match parse_bodies(raw) {
        Some(b) => b,
        None => return None,
    };
    let a = match parse_attachments(raw) {
        Some(a) => a,
        None => return None,
    };
    let ghost hv = headers_view(h);
    let (from_name, from_address) = match h.from {
        Some(f) => (f.0, f.1),
        None => (None, None),
    };
    let m = ParsedMail {
        subject: h.subject,
        from_name,
        from_address,
        to: h.to,
        date: h.date,
        message_id: h.message_id,
        body_text: b.0,
        body_html: b.1,
        attachments: a,
    };
    assert(mail_view(m).to =~= hv.to);
    assert(mail_view(m).attachments =~= Seq::new(m.attachments@.len(), |i: int| part_view(m.attachments@[i])));
    Some(m)
}

/// The text of an optional field, or `d` where it is missing.
pub open spec fn or_text(o: Option<Seq<char>>, d: Seq<char>) -> Seq<char> {
    match o {
        Some(x) => x,
        None => d,
    }
}

/// The recipients' addresses as text (empty where one has none).
pub open spec fn recipients_text(to: Seq<Option<Seq<char>>>) -> Seq<Seq<char>> {
    Seq::new(to.len(), |i: int| or_text(to[i], seq![]))
}

/// The recipients that have an address, in order.
pub open spec fn present_addresses(to: Seq<Option<Seq<char>>>) -> Seq<Seq<char>>
    decreases to.len(),
{
    if to.len() == 0 {
        seq![]
    } else {
        let before = present_addresses(to.drop_last());
        match to.last() {
            Some(a) => before.push(a),
            None => before,
        }
    }
}

fn copy_text(s: &String) -> (r: String)
    ensures
        r@ == s@,
{
    chars_to_string(&str_chars(s.as_str()))
}

fn text_or(o: &Option<String>, d: &str) -> (r: String)
    ensures
        r@ == or_text(opt_string_view(*o), d@),
{
    match o {
        Some(x) => copy_text(x),
        None => chars_to_string(&str_chars(d)),
    }
}

fn copy_opt_text(o: &Option<String>) -> (r: Option<String>)
    ensures
        opt_string_view(r) == opt_string_view(*o),
{
    match o {
        Some(x) => Some(copy_text(x)),
        None => None,
    }
}

fn recipients(to: &Vec<Option<String>>) -> (r: Vec<String>)
    ensures
        strings_view(r@) == recipients_text(Seq::new(to@.len(), |i: int| opt_string_view(to@[i]))),
{
    let ghost tv = Seq::new(to@.len(), |i: int| opt_string_view(to@[i]));
    let mut out: Vec<String> = Vec::new();
    let mut i: usize = 0;
    while i < to.len()
        invariant
            i <= to.len(),
            tv == Seq::new(to@.len(), |i: int| opt_string_view(to@[i])),
            out@.len() == i,
            forall|k: int| 0 <= k < i ==> (#[trigger] out@[k])@ == or_text(tv[k], seq![]),
        decreases to.len() - i,
    {
        let t = text_or(&to[i], "");
        proof {
            reveal_strlit("");
            assert(""@ =~= Seq::<char>::empty());
        }
        assert(tv[i as int] == opt_string_view(to@[i as int]));
        out.push(t);
        assert(out@[i as int]@ == or_text(tv[i as int], seq![]));
        i += 1;
    }
    assert(strings_view(out@) =~= recipients_text(tv));
    out
}

/// What a mailbox listing shows of a message from its flags, size and
/// header (`None` where the server sent no header): the subject (or
/// `(No Subject)`), the first sender, the recipients, the date and whether
/// it has attachments; all empty where the header does not parse.
pub open spec fn summary_ok(
    s: MessageHeaderSummary,
    uid: u32,
    is_read: bool,
    is_flagged: bool,
    size: u32,
    parsed: Option<ParsedMailView>,
) -> bool {
    &&& s.uid == uid && s.is_read == is_read && s.is_flagged == is_flagged && s.size_bytes == size
    &&& match parsed {
        Some(p) => {
            &&& s.subject@ == or_text(p.subject, "(No Subject)"@)
            &&& s.from@ == sender_spec(p.from_name, p.from_address)
            &&& strings_view(s.to@) == recipients_text(p.to)
            &&& opt_string_view(s.date) == p.date
            &&& s.has_attachments == (p.attachments.len() > 0)
        },
        None => {
            &&& s.subject@ == Seq::<char>::empty()
            &&& s.from@ == Seq::<char>::empty()
            &&& s.to@.len() == 0
            &&& s.date is None
            &&& !s.has_attachments
        },
    }
}

/// The listing entry of a message.
pub fn header_summary(uid: u32, is_read: bool, is_flagged: bool, size: u32, header: Option<&[u8]>) -> (s: MessageHeaderSummary)
    ensures
        summary_ok(s, uid, is_read, is_flagged, size, match header {
            Some(h) => mime_parse(h@),
            None => None,
        }),
{
    let parsed = match header {
        Some(h) => parse_mime(h),
        None => None,
    };
    match parsed {
        Some(p) => {
            let from = sender_text(
                match &p.from_name { Some(x) => Some(x.as_str()), None => None },
                match &p.from_address { Some(x) => Some(x.as_str()), None => None },
            );
            let to = recipients(&p.to);
            proof {
                assert(mail_view(p).to =~= Seq::new(p.to@.len(), |i: int| opt_string_view(p.to@[i])));
            }
            MessageHeaderSummary {
                uid,
                subject: text_or(&p.subject, "(No Subject)"),
                from,
                to,
                date: copy_opt_text(&p.date),
                is_read,
                is_flagged,
                has_attachments: p.attachments.len() > 0,
                size_bytes: size,
            }
        },
        None => {
            let s = MessageHeaderSummary {
                uid,
                subject: String::new(),
                from: String::new(),
                to: Vec::new(),
                date: None,
                is_read,
                is_flagged,
                has_attachments: false,
                size_bytes: size,
            };
            s
        },
    }
}

/// A message as `read_message` reports it.
#[derive(Debug, Clone)]
pub struct ReadMessageReply {
    pub uid: u32,
    pub mailbox: String,
    pub subject: String,
    pub from: String,
    pub date: Option<String>,
    pub message_id: String,
    pub body_text: Option<String>,
    pub body_html: Option<String>,
    pub attachments: Vec<AttachmentInfo>,
}

/// The report of attachment `i` of a message: its name (or
/// `unnamed_attachment`), content type (or `application/octet-stream`),
/// size and position.
pub open spec fn attachment_info_ok(a: AttachmentInfo, p: MailPartView, i: int) -> bool {
    &&& a.filename@ == or_text(p.name, "unnamed_attachment"@)
    &&& a.content_type@ == or_text(p.content_type, "application/octet-stream"@)
    &&& a.size_bytes == p.contents.len()
    &&& a.attachment_index == i
}

pub open spec fn unparsable_message() -> Seq<char> {
    "Failed to parse RFC822 MIME structure"@
}

/// The report of a raw message: an error where it does not parse; else
/// the subject (or `(No Subject)`), the first sender's address (or empty),
/// the date, the message id (or empty), the text and HTML bodies, and each
/// attachment in order.
pub fn read_message_reply(uid: u32, mailbox: &str, raw: &[u8]) -> (r: Result<ReadMessageReply, String>)
    ensures
        match mime_parse(raw@) {
            None => r matches Err(e) && e@ == unparsable_message(),
            Some(p) => r matches Ok(m) && {
                &&& m.uid == uid && m.mailbox@ == mailbox@
                &&& m.subject@ == or_text(p.subject, "(No Subject)"@)
                &&& m.from@ == or_text(p.from_address, seq![])
                &&& opt_string_view(m.date) == p.date
                &&& m.message_id@ == or_text(p.message_id, seq![])
                &&& opt_string_view(m.body_text) == p.body_text
                &&& opt_string_view(m.body_html) == p.body_html
                &&& m.attachments@.len() == p.attachments.len()
                &&& forall|i: int| 0 <= i < p.attachments.len() ==> attachment_info_ok(#[trigger] m.attachments@[i], p.attachments[i], i)
            },
        },
{
    proof {
        reveal_strlit("");
        assert(""@ =~= Seq::<char>::empty());
    }
    let parsed = parse_mime(raw);
    match parsed {
        None => Err(String::from_str("Failed to parse RFC822 MIME structure")),
        Some(p) => {
            let ghost pv = mail_view(p);
            let mut atts: Vec<AttachmentInfo> = Vec::new();
            let mut i: usize = 0;
            while i < p.attachments.len()
                invariant
                    i <= p.attachments.len(),
                    pv == mail_view(p),
                    atts@.len() == i,
                    forall|k: int| 0 <= k < i ==> attachment_info_ok(#[trigger] atts@[k], pv.attachments[k], k),
                decreases p.attachments.len() - i,
            {
                let part = &p.attachments[i];
                atts.push(AttachmentInfo {
                    filename: text_or(&part.name, "unnamed_attachment"),
                    content_type: text_or(&part.content_type, "application/octet-stream"),
                    size_bytes: part.contents.len(),
                    attachment_index: i,
                });
                i += 1;
            }
            Ok(ReadMessageReply {
                uid,
                mailbox: chars_to_string(&str_chars(mailbox)),
                subject: text_or(&p.subject, "(No Subject)"),
                from: text_or(&p.from_address, ""),
                date: copy_opt_text(&p.date),
                message_id: text_or(&p.message_id, ""),
                body_text: copy_opt_text(&p.body_text),
                body_html: copy_opt_text(&p.body_html),
                attachments: atts,
            })
        },
    }
}

/// The attachments of parts `0..n` to save, in order: each one chosen by
/// `attachment_wanted` under its name (or `attachment`), with its contents.
pub open spec fn saved_parts(parts: Seq<MailPartView>, n: int, want_index: Option<usize>, want_name: Option<Seq<char>>) -> Seq<(Seq<char>, Seq<u8>)>
    decreases n,
{
    if n <= 0 {
        seq![]
    } else {
        let before = saved_parts(parts, n - 1, want_index, want_name);
        let name = or_text(parts[n - 1].name, "attachment"@);
        if attachment_wanted_spec((n - 1) as nat, name, want_index, want_name) {
            before.push((name, parts[n - 1].contents))
        } else {
            before
        }
    }
}

pub open spec fn files_view(v: Seq<(String, Vec<u8>)>) -> Seq<(Seq<char>, Seq<u8>)> {
    Seq::new(v.len(), |i: int| (v[i].0@, v[i].1@))
}

/// The attachments of a raw message to save, by index or else by name
/// (in any ASCII case), or all; an error where the message does not parse.
pub fn attachments_to_save(raw: &[u8], want_index: Option<usize>, want_name: Option<&str>) -> (r: Result<Vec<(String, Vec<u8>)>, String>)
    ensures
        match mime_parse(raw@) {
            None => r matches Err(e) && e@ == "Failed to parse MIME structure"@,
            Some(p) => r matches Ok(v) && files_view(v@) == saved_parts(
                p.attachments,
                p.attachments.len() as int,
                want_index,
                crate::email::opt_str(want_name),
            ),
        },
{
    match parse_mime(raw) {
        None => Err(String::from_str("Failed to parse MIME structure")),
        Some(p) => {
            let ghost pv = mail_view(p);
            let mut out: Vec<(String, Vec<u8>)> = Vec::new();
            let mut i: usize = 0;
            while i < p.attachments.len()
                invariant
                    i <= p.attachments.len(),
                    pv == mail_view(p),
                    files_view(out@) == saved_parts(pv.attachments, i as int, want_index, crate::email::opt_str(want_name)),
                decreases p.attachments.len() - i,
            {
                let part = &p.attachments[i];
                let name = text_or(&part.name, "attachment");
                if attachment_wanted(i, name.as_str(), want_index, want_name) {
                    let ghost before = files_view(out@);
                    let data = part.contents.clone();
                    out.push((name, data));
                    assert(files_view(out@) =~= before.push((out@[out@.len() - 1].0@, out@[out@.len() - 1].1@)));
                }
                i += 1;
            }
            Ok(out)
        },
    }
}

/// The headers of a reply.
#[derive(Debug, Clone)]
pub struct ReplyHeaders {
    pub message_id: String,
    pub to: String,
    pub subject: String,
    pub cc: Vec<String>,
}

/// The headers of a reply to a raw message from account `own`: the
/// original's message id (or empty), its first sender's address (or empty)
/// as the recipient, `Re:` before its subject unless it has one, and, when
/// replying to all, copies to the original recipients other than `own` and
/// the sender; an error where the message does not parse.
pub fn reply_headers(raw: &[u8], own: &str, reply_all: bool) -> (r: Result<ReplyHeaders, String>)
    ensures
        match mime_parse(raw@) {
            None => r matches Err(e) && e@ == "Failed to parse original message MIME"@,
            Some(p) => r matches Ok(h) && {
                &&& h.message_id@ == or_text(p.message_id, seq![])
                &&& h.to@ == or_text(p.from_address, seq![])
                &&& h.subject@ == reply_subject_spec(or_text(p.subject, seq![]))
                &&& strings_view(h.cc@) == (if reply_all {
                    cc_filter(present_addresses(p.to), own@, or_text(p.from_address, seq![]))
                } else {
                    seq![]
                })
            },
        },
{
    proof {
        reveal_strlit("");
        assert(""@ =~= Seq::<char>::empty());
    }
    match parse_mime(raw) {
        None => Err(String::from_str("Failed to parse original message MIME")),
        Some(p) => {
            let ghost pv = mail_view(p);
            let to = text_or(&p.from_address, "");
            let subject = reply_subject(text_or(&p.subject, "").as_str());
            let cc = if reply_all {
                let mut present: Vec<String> = Vec::new();
                let mut i: usize = 0;
                while i < p.to.len()
                    invariant
                        i <= p.to.len(),
                        pv == mail_view(p),
                        strings_view(present@) == present_addresses(pv.to.take(i as int)),
                    decreases p.to.len() - i,
                {
                    assert(pv.to.take(i + 1).drop_last() =~= pv.to.take(i as int));
                    assert(pv.to.take(i + 1).last() == opt_string_view(p.to@[i as int]));
                    if let Some(a) = &p.to[i] {
                        let ghost before = strings_view(present@);
                        present.push(copy_text(a));
                        assert(strings_view(present@) =~= before.push(a@));
                    }
                    i += 1;
                }
                assert(pv.to.take(p.to.len() as int) =~= pv.to);
                reply_all_cc(&present, own, to.as_str())
            } else {
                let e: Vec<String> = Vec::new();
                assert(strings_view(e@) =~= Seq::<Seq<char>>::empty());
                e
            };
            Ok(ReplyHeaders { message_id: text_or(&p.message_id, ""), to, subject, cc })
        },
    }
}

} // verus!

verus! {

/// What parsing `text` as a mailbox
/// (`<lettre::message::Mailbox as FromStr>::from_str`) fails with, as the
/// error's text; `None` where it parses.
pub uninterp spec fn mailbox_error(text: Seq<char>) -> Option<Seq<char>>;

/// Parses a mailbox with lettre and gives the error's text, if any; the
/// result is named `mailbox_error` and depends on the text alone.
#[verifier::external_body]
fn mailbox_error_of(text: &str) -> (r: Option<String>)
    ensures
        opt_string_view(r) == mailbox_error(text@),
{
    text.parse::<lettre::message::Mailbox>().err().map(|e| e.to_string())
}

/// An address checked as a mailbox: the address, or `context: error`.
pub fn checked_address(text: &str, context: &str) -> (r: Result<String, String>)
    ensures
        match mailbox_error(text@) {
            None => r matches Ok(a) && a@ == text@,
            Some(e) => r matches Err(m) && m@ == context@ + ": "@ + e,
        },
{
    match mailbox_error_of(text) {
        None => Ok(chars_to_string(&str_chars(text))),
        Some(e) => {
            let mut m = str_chars(context);
            crate::text::append_str(&mut m, ": ");
            crate::text::append_str(&mut m, e.as_str());
            Err(chars_to_string(&m))
        },
    }
}

/// The message for an address of a list that does not parse.
pub open spec fn invalid_entry_message(label: Seq<char>, addr: Seq<char>, e: Seq<char>) -> Seq<char> {
    "Invalid "@ + label + " '"@ + addr + "': "@ + e
}

/// Index of the first address of a list that does not parse, or the
/// list's length.
pub open spec fn first_bad(addrs: Seq<Seq<char>>) -> int
    decreases addrs.len(),
{
    if addrs.len() == 0 {
        0
    } else if mailbox_error(addrs[0]) is Some {
        0
    } else {
        1 + first_bad(addrs.drop_first())
    }
}

proof fn lemma_first_bad(addrs: Seq<Seq<char>>, k: int)
    requires
        0 <= k <= addrs.len(),
        forall|j: int| 0 <= j < k ==> mailbox_error(#[trigger] addrs[j]) is None,
    ensures
        first_bad(addrs) == k + first_bad(addrs.skip(k)),
        0 <= first_bad(addrs) <= addrs.len(),
    decreases k,
{
    if k > 0 {
        assert(mailbox_error(addrs[0]) is None);
        assert(addrs.drop_first().skip(k - 1) =~= addrs.skip(k));
        assert forall|j: int| 0 <= j < k - 1 implies mailbox_error(#[trigger] addrs.drop_first()[j]) is None by {
            assert(addrs.drop_first()[j] == addrs[j + 1]);
        }
        lemma_first_bad(addrs.drop_first(), k - 1);
    } else {
        assert(addrs.skip(0) =~= addrs);
        lemma_first_bad_range(addrs);
    }
}

proof fn lemma_first_bad_range(addrs: Seq<Seq<char>>)
    ensures
        0 <= first_bad(addrs) <= addrs.len(),
        first_bad(addrs) < addrs.len() ==> mailbox_error(addrs[first_bad(addrs)]) is Some,
        forall|j: int| 0 <= j < first_bad(addrs) ==> mailbox_error(#[trigger] addrs[j]) is None,
    decreases addrs.len(),
{
    if addrs.len() > 0 && mailbox_error(addrs[0]) is None {
        lemma_first_bad_range(addrs.drop_first());
        assert forall|j: int| 0 <= j < first_bad(addrs) implies mailbox_error(#[trigger] addrs[j]) is None by {
            if j > 0 {
                assert(addrs[j] == addrs.drop_first()[j - 1]);
            }
        }
        if first_bad(addrs) < addrs.len() {
            assert(addrs[first_bad(addrs)] == addrs.drop_first()[first_bad(addrs) - 1]);
        }
    }
}

/// The addresses of a comma-separated list (trimmed, blanks dropped), each
/// checked as a mailbox: the list, or for the first that does not parse
/// `Invalid <label> '<address>': <error>`.
pub fn recipient_list(list: &str, label: &str) -> (r: Result<Vec<String>, String>)
    ensures
        ({
            let addrs = crate::email::address_list_spec(list@);
            let k = first_bad(addrs);
            if k < addrs.len() {
                r matches Err(m) && m@ == invalid_entry_message(label@, addrs[k], mailbox_error(addrs[k])->Some_0)
            } else {
                r matches Ok(v) && strings_view(v@) == addrs
            }
        }),
{
    let addrs = crate::email::split_addresses(list);
    let ghost av = strings_view(addrs@);
    proof {
        lemma_first_bad_range(av);
    }
    let mut i: usize = 0;
    while i < addrs.len()
        invariant
            i <= addrs.len(),
            av == strings_view(addrs@),
            av == crate::email::address_list_spec(list@),
            forall|j: int| 0 <= j < i ==> mailbox_error(#[trigger] av[j]) is None,
        decreases addrs.len() - i,
    {
        assert(av[i as int] == addrs@[i as int]@);
        match mailbox_error_of(addrs[i].as_str()) {
            Some(e) => {
                proof {
                    lemma_first_bad(av, i as int);
                    assert(av.skip(i as int)[0] == av[i as int]);
                    assert(first_bad(av.skip(i as int)) == 0);
                }
                let mut m = str_chars("Invalid ");
                crate::text::append_str(&mut m, label);
                crate::text::append_str(&mut m, " '");
                crate::text::append_str(&mut m, addrs[i].as_str());
                crate::text::append_str(&mut m, "': ");
                crate::text::append_str(&mut m, e.as_str());
                return Err(chars_to_string(&m));
            },
            None => {},
        }
        i += 1;
    }
    proof {
        lemma_first_bad(av, av.len() as int);
        assert(av.skip(av.len() as int).len() == 0);
    }
    Ok(addrs)
}

/// The addresses that parse as mailboxes, in order.
pub open spec fn parsable(addrs: Seq<Seq<char>>) -> Seq<Seq<char>>
    decreases addrs.len(),
{
    if addrs.len() == 0 {
        seq![]
    } else {
        let before = parsable(addrs.drop_last());
        if mailbox_error(addrs.last()) is None {
            before.push(addrs.last())
        } else {
            before
        }
    }
}

/// The copies of a reply to all that parse as mailboxes (the others are
/// passed over).
pub fn parsable_addresses(addrs: &[String]) -> (r: Vec<String>)
    ensures
        strings_view(r@) == parsable(strings_view(addrs@)),
{
    let ghost av = strings_view(addrs@);
    let mut out: Vec<String> = Vec::new();
    let mut i: usize = 0;
    while i < addrs.len()
        invariant
            i <= addrs.len(),
            av == strings_view(addrs@),
            strings_view(out@) == parsable(av.take(i as int)),
        decreases addrs.len() - i,
    {
        assert(av.take(i + 1).drop_last() =~= av.take(i as int));
        assert(av.take(i + 1).last() == addrs@[i as int]@);
        if mailbox_error_of(addrs[i].as_str()).is_none() {
            let ghost before = strings_view(out@);
            out.push(copy_text(&addrs[i]));
            assert(strings_view(out@) =~= before.push(addrs@[i as int]@));
        }
        i += 1;
    }
    assert(av.take(addrs.len() as int) =~= av);
    out
}

} // verus!
