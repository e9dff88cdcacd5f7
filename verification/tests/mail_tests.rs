use rune_kit::mail::{
    attachments_to_save, checked_address, header_summary, parsable_addresses, read_message_reply,
    recipient_list, reply_headers,
};

const RAW: &str = "From: Alice Example <alice@example.com>\r\n\
To: bob@example.com, carol@example.com\r\n\
Subject: Hello\r\n\
Date: Mon, 1 Jan 2024 10:00:00 +0000\r\n\
Message-ID: <abc123@example.com>\r\n\
MIME-Version: 1.0\r\n\
Content-Type: multipart/mixed; boundary=\"XYZ\"\r\n\
\r\n\
--XYZ\r\n\
Content-Type: text/plain\r\n\
\r\n\
Hi Bob\r\n\
--XYZ\r\n\
Content-Type: application/pdf; name=\"doc.pdf\"\r\n\
Content-Disposition: attachment; filename=\"doc.pdf\"\r\n\
Content-Transfer-Encoding: base64\r\n\
\r\n\
aGVsbG8=\r\n\
--XYZ--\r\n";

fn strings(v: &[&str]) -> Vec<String> {
    v.iter().map(|x| x.to_string()).collect()
}

#[test]
fn header_summaries_read_the_headers() {
    let s = header_summary(7, true, false, 420, Some(RAW.as_bytes()));
    assert_eq!(s.uid, 7);
    assert!(s.is_read && !s.is_flagged);
    assert_eq!(s.size_bytes, 420);
    assert_eq!(s.subject, "Hello");
    assert_eq!(s.from, "Alice Example <alice@example.com>");
    assert_eq!(s.to, strings(&["bob@example.com", "carol@example.com"]));
    assert_eq!(s.date, Some("2024-01-01T10:00:00Z".to_string()));
    assert!(s.has_attachments);
    let bare = header_summary(8, false, true, 0, Some(b"From: x@example.com\r\n\r\nbody"));
    assert_eq!(bare.subject, "(No Subject)");
    assert_eq!(bare.from, "x@example.com");
    assert!(!bare.has_attachments);
    let none = header_summary(9, false, false, 1, None);
    assert_eq!(none.subject, "");
    assert!(none.to.is_empty() && none.date.is_none());
}

#[test]
fn read_message_reports_bodies_and_attachments() {
    let m = read_message_reply(7, "INBOX", RAW.as_bytes()).unwrap();
    assert_eq!(m.mailbox, "INBOX");
    assert_eq!(m.subject, "Hello");
    assert_eq!(m.from, "alice@example.com");
    assert_eq!(m.message_id, "abc123@example.com");
    assert_eq!(m.body_text.as_deref().map(str::trim), Some("Hi Bob"));
    assert_eq!(m.attachments.len(), 1);
    assert_eq!(m.attachments[0].filename, "doc.pdf");
    assert_eq!(m.attachments[0].content_type, "application");
    assert_eq!(m.attachments[0].size_bytes, 5);
    assert_eq!(m.attachments[0].attachment_index, 0);
}

#[test]
fn attachments_are_chosen_by_index_or_name() {
    let all = attachments_to_save(RAW.as_bytes(), None, None).unwrap();
    assert_eq!(all, vec![("doc.pdf".to_string(), b"hello".to_vec())]);
    assert_eq!(attachments_to_save(RAW.as_bytes(), Some(0), None).unwrap().len(), 1);
    assert!(attachments_to_save(RAW.as_bytes(), Some(3), None).unwrap().is_empty());
    assert_eq!(attachments_to_save(RAW.as_bytes(), None, Some("DOC.PDF")).unwrap().len(), 1);
    assert!(attachments_to_save(RAW.as_bytes(), None, Some("other.pdf")).unwrap().is_empty());
}

#[test]
fn reply_headers_thread_the_reply() {
    let h = reply_headers(RAW.as_bytes(), "bob@example.com", true).unwrap();
    assert_eq!(h.message_id, "abc123@example.com");
    assert_eq!(h.to, "alice@example.com");
    assert_eq!(h.subject, "Re: Hello");
    assert_eq!(h.cc, strings(&["carol@example.com"]));
    let solo = reply_headers(RAW.as_bytes(), "bob@example.com", false).unwrap();
    assert!(solo.cc.is_empty());
}

#[test]
fn addresses_are_checked_as_mailboxes() {
    assert_eq!(checked_address("alice@example.com", "Invalid from address"), Ok("alice@example.com".to_string()));
    let bad = checked_address("not an address", "Invalid from address").unwrap_err();
    assert!(bad.starts_with("Invalid from address: "));
    assert_eq!(recipient_list(" a@example.com, ,b@example.com ", "recipient"), Ok(strings(&["a@example.com", "b@example.com"])));
    let err = recipient_list("a@example.com, nope", "CC").unwrap_err();
    assert!(err.starts_with("Invalid CC 'nope': "));
    assert_eq!(parsable_addresses(&strings(&["ok@example.com", "nope", "x@example.org"])), strings(&["ok@example.com", "x@example.org"]));
}
