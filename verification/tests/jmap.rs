use chrono::TimeZone;
use missive::error::{JmapErrorKind, MissiveError};
use missive::ids::{BlobId, EmailId, MailboxId};
use missive::jmap::{
    build_cid_map, draft_email, email_detail, email_detail_at, email_summary, email_summary_at,
    extract_html_body, extract_text_body,
    format_addresses, format_addresses_raw, format_file_size, format_timestamp,
    mailbox_id_for_role, mailboxes_from_entries, outgoing_email, parse_address_list,
    parse_recipient_emails, require_recipients, role_sort_priority, role_to_string,
    sort_mailboxes, submission, BodyPart, EmailAddress, EmailContent, EmailEntry, JmapUrl,
    MailboxEntry, MailboxInfo, Role, SearchQuery, ThreadingHeaders,
};

fn addr(name: Option<&str>, email: &str) -> EmailAddress {
    EmailAddress { name: name.map(|n| n.to_string()), email: email.to_string() }
}

fn mailbox(id: &str, name: &str, role: &str) -> MailboxInfo {
    MailboxInfo { id: MailboxId::from(id), name: name.to_string(), role: role.to_string(), unread_count: 0 }
}

fn entry() -> EmailEntry {
    EmailEntry {
        id: None,
        thread_id: None,
        from: None,
        to: None,
        cc: None,
        subject: None,
        received_at: None,
        preview: None,
        keywords: Vec::new(),
        has_attachment: false,
        size: 0,
        message_id: None,
        references: None,
        text_body: None,
        html_body: None,
        attachments: None,
        body_values: Vec::new(),
    }
}

fn part(part_id: Option<&str>, blob_id: Option<&str>, content_id: Option<&str>) -> BodyPart {
    BodyPart {
        part_id: part_id.map(String::from),
        blob_id: blob_id.map(String::from),
        name: None,
        size: 2048,
        content_id: content_id.map(String::from),
    }
}

// --- format_timestamp ---

#[test]
fn test_format_timestamp_today() {
    let now = chrono::Local.with_ymd_and_hms(2025, 6, 15, 18, 0, 0).unwrap();
    let ts = chrono::Utc.with_ymd_and_hms(2025, 6, 15, 15, 30, 0).unwrap().timestamp();
    let result = format_timestamp(ts, now.timestamp());
    assert!(result.contains(":30"), "Expected time format, got: {result}");
    assert!(!result.contains("Jun"), "Should not contain month for today, got: {result}");
}

#[test]
fn test_format_timestamp_this_week() {
    let now = chrono::Local.with_ymd_and_hms(2025, 6, 15, 18, 0, 0).unwrap();
    let ts = chrono::Local.with_ymd_and_hms(2025, 6, 11, 15, 30, 0).unwrap().timestamp();
    let result = format_timestamp(ts, now.timestamp());
    assert!(result.contains("Wed"), "Expected day name, got: {result}");
}

#[test]
fn test_format_timestamp_this_year() {
    let now = chrono::Local.with_ymd_and_hms(2025, 6, 15, 18, 0, 0).unwrap();
    let ts = chrono::Local.with_ymd_and_hms(2025, 1, 15, 15, 30, 0).unwrap().timestamp();
    let result = format_timestamp(ts, now.timestamp());
    assert!(result.contains("Jan") && result.contains("15"), "Expected 'Jan 15', got: {result}");
    assert!(!result.contains("2025"), "Should not contain year for same year, got: {result}");
}

#[test]
fn test_format_timestamp_older_year() {
    let now = chrono::Local.with_ymd_and_hms(2025, 6, 15, 18, 0, 0).unwrap();
    let ts = chrono::Local.with_ymd_and_hms(2023, 1, 15, 15, 30, 0).unwrap().timestamp();
    let result = format_timestamp(ts, now.timestamp());
    assert!(
        result.contains("Jan") && result.contains("15") && result.contains("2023"),
        "Expected 'Jan 15, 2023', got: {result}"
    );
}

// --- format_file_size ---

#[test]
fn test_format_file_size_bytes() {
    assert_eq!(format_file_size(500), "500 B");
}

#[test]
fn test_format_file_size_kb() {
    let result = format_file_size(2048);
    assert_eq!(result, "2.0 KB");
}

#[test]
fn test_format_file_size_mb() {
    let result = format_file_size(2 * 1024 * 1024);
    assert_eq!(result, "2.0 MB");
}

#[test]
fn format_file_size_rounds_to_nearest_tenth() {
    assert_eq!(format_file_size(1023), "1023 B");
    assert_eq!(format_file_size(1024), "1.0 KB");
    // 1.25 KB is a tie and goes to the even tenth
    assert_eq!(format_file_size(1280), "1.2 KB");
    // 1.75 KB is a tie and goes to the even tenth
    assert_eq!(format_file_size(1792), "1.8 KB");
    assert_eq!(format_file_size(1536), "1.5 KB");
    assert_eq!(format_file_size(1024 * 1024 - 1), "1024.0 KB");
    assert_eq!(format_file_size(1024 * 1024), "1.0 MB");
}

#[test]
fn format_file_size_agrees_with_float_formatting() {
    let samples: [usize; 8] = [1024, 1500, 4095, 123_456, 999_999, 1_048_577, 987_654_321, usize::MAX];
    for n in samples {
        let expected = if n < 1024 * 1024 {
            format!("{:.1} KB", n as f64 / 1024.0)
        } else {
            format!("{:.1} MB", n as f64 / (1024.0 * 1024.0))
        };
        assert_eq!(format_file_size(n), expected, "size {n}");
    }
}

// --- format_addresses ---

#[test]
fn test_format_addresses_none() {
    assert_eq!(format_addresses(None), "");
}

#[test]
fn test_format_addresses_with_name() {
    let addrs = vec![addr(Some("Alice"), "alice@example.com")];
    assert_eq!(format_addresses(Some(&addrs)), "Alice");
}

#[test]
fn test_format_addresses_without_name() {
    let addrs = vec![addr(None, "bob@example.com")];
    assert_eq!(format_addresses(Some(&addrs)), "bob@example.com");
}

#[test]
fn test_format_addresses_multiple() {
    let addrs = vec![addr(Some("Alice"), "alice@example.com"), addr(None, "bob@example.com")];
    assert_eq!(format_addresses(Some(&addrs)), "Alice, bob@example.com");
}

#[test]
fn format_addresses_empty_name_shows_address() {
    let addrs = vec![addr(Some(""), "carol@example.com")];
    assert_eq!(format_addresses(Some(&addrs)), "carol@example.com");
}

#[test]
fn format_addresses_raw_lists_addresses() {
    let addrs = vec![addr(Some("Alice"), "alice@example.com"), addr(None, "bob@example.com")];
    assert_eq!(format_addresses_raw(Some(&addrs)), "alice@example.com, bob@example.com");
    assert_eq!(format_addresses_raw(None), "");
}

// --- role_to_string ---

#[test]
fn test_role_to_string_known() {
    assert_eq!(role_to_string(&Role::Inbox), "inbox");
    assert_eq!(role_to_string(&Role::Sent), "sent");
    assert_eq!(role_to_string(&Role::Drafts), "drafts");
    assert_eq!(role_to_string(&Role::Trash), "trash");
    assert_eq!(role_to_string(&Role::Junk), "junk");
    assert_eq!(role_to_string(&Role::Archive), "archive");
    assert_eq!(role_to_string(&Role::Important), "important");
}

#[test]
fn test_role_to_string_other() {
    assert_eq!(role_to_string(&Role::Other("custom".into())), "custom");
}

#[test]
fn test_role_to_string_none() {
    assert_eq!(role_to_string(&Role::NoRole), "");
}

// --- typed ids ---

#[test]
fn typed_id_from_str() {
    let id = MailboxId::from("abc");
    assert_eq!(id.as_str(), "abc");
}

#[test]
fn typed_id_from_string() {
    let id = EmailId::from("123".to_string());
    assert_eq!(id.as_str(), "123");
}

#[test]
fn typed_id_display() {
    let id = BlobId::from("blob-xyz");
    assert_eq!(id.to_string(), "blob-xyz");
}

// --- JmapUrl ---

#[test]
fn jmap_url_host_with_scheme() {
    let url = JmapUrl::from("https://mail.example.com/jmap");
    assert_eq!(url.host(), "mail.example.com");
}

#[test]
fn jmap_url_host_without_scheme() {
    let url = JmapUrl::from("mail.example.com");
    assert_eq!(url.host(), "mail.example.com");
}

#[test]
fn jmap_url_host_with_port() {
    let url = JmapUrl::from("https://mail.example.com:443/jmap");
    assert_eq!(url.host(), "mail.example.com:443");
}

#[test]
fn jmap_url_host_stops_at_second_scheme_separator() {
    let url = JmapUrl::from("a://b://c/d");
    assert_eq!(url.host(), "b");
}

#[test]
fn jmap_url_display() {
    let url = JmapUrl::from("https://mail.example.com");
    assert_eq!(url.to_string(), "https://mail.example.com");
}

#[test]
fn jmap_url_is_empty() {
    assert!(JmapUrl::default().is_empty());
    assert!(!JmapUrl::from("https://example.com").is_empty());
}

#[test]
fn jmap_url_parse_valid() {
    let url = JmapUrl::parse("https://mail.example.com/jmap").unwrap();
    assert_eq!(url.as_str(), "https://mail.example.com/jmap");
}

#[test]
fn jmap_url_parse_empty_allowed() {
    let url = JmapUrl::parse("").unwrap();
    assert!(url.is_empty());
}

#[test]
fn jmap_url_parse_missing_scheme() {
    let err = JmapUrl::parse("mail.example.com").unwrap_err();
    assert_eq!(err.to_string(), "invalid JMAP URL: URL must include a scheme (e.g., https://)");
}

#[test]
fn jmap_url_parse_missing_host() {
    let err = JmapUrl::parse("https://").unwrap_err();
    assert_eq!(err.to_string(), "invalid JMAP URL: URL must include a host");
}

#[test]
fn jmap_url_from_str_valid() {
    let url: JmapUrl = "https://mail.example.com/jmap".parse().unwrap();
    assert_eq!(url.as_str(), "https://mail.example.com/jmap");
}

#[test]
fn jmap_url_from_str_invalid() {
    let result: Result<JmapUrl, _> = "mail.example.com".parse();
    assert!(result.is_err());
}

#[test]
fn jmap_url_validate_valid() {
    let url = JmapUrl::from("https://mail.example.com/jmap");
    assert!(url.validate().is_ok());
}

#[test]
fn jmap_url_validate_empty() {
    let url = JmapUrl::default();
    assert!(url.validate().is_ok());
}

#[test]
fn jmap_url_validate_invalid() {
    let url = JmapUrl::from("mail.example.com");
    assert!(url.validate().is_err());
}

#[test]
fn jmap_url_parsed_validates_and_has_host() {
    for s in ["https://mail.example.com/jmap", "http://localhost:8080", "x://y"] {
        let url = JmapUrl::parse(s).unwrap();
        assert!(url.validate().is_ok());
        assert!(!url.host().is_empty());
    }
}

// --- parse_address_list ---

#[test]
fn parse_address_list_single() {
    let result = parse_address_list("alice@example.com");
    assert_eq!(result.len(), 1);
    assert_eq!(result[0].email(), "alice@example.com");
}

#[test]
fn parse_address_list_multiple() {
    let result = parse_address_list("alice@example.com, bob@example.com");
    assert_eq!(result.len(), 2);
    assert_eq!(result[0].email(), "alice@example.com");
    assert_eq!(result[1].email(), "bob@example.com");
}

#[test]
fn parse_address_list_trailing_leading_commas() {
    let result = parse_address_list(",alice@example.com,");
    assert_eq!(result.len(), 1);
    assert_eq!(result[0].email(), "alice@example.com");
}

#[test]
fn parse_address_list_whitespace_trimmed() {
    let result = parse_address_list("  alice@example.com  ,  bob@example.com  ");
    assert_eq!(result.len(), 2);
    assert_eq!(result[0].email(), "alice@example.com");
    assert_eq!(result[1].email(), "bob@example.com");
}

#[test]
fn parse_address_list_empty() {
    let result = parse_address_list("");
    assert!(result.is_empty());
}

// --- parse_recipient_emails ---

#[test]
fn parse_recipient_emails_to_only() {
    let result = parse_recipient_emails("alice@example.com, bob@example.com");
    assert_eq!(result, vec!["alice@example.com", "bob@example.com"]);
}

#[test]
fn parse_recipient_emails_empty_cc() {
    let mut rcpt_to = parse_recipient_emails("alice@example.com");
    rcpt_to.extend(parse_recipient_emails(""));
    assert_eq!(rcpt_to, vec!["alice@example.com"]);
}

#[test]
fn parse_recipient_emails_to_and_cc() {
    let mut rcpt_to = parse_recipient_emails("alice@example.com");
    rcpt_to.extend(parse_recipient_emails("bob@example.com, carol@example.com"));
    assert_eq!(rcpt_to, vec!["alice@example.com", "bob@example.com", "carol@example.com"]);
}

#[test]
fn parse_recipient_emails_self_delivery() {
    let sender = "alice@example.com";
    let mut rcpt_to = parse_recipient_emails(sender);
    rcpt_to.extend(parse_recipient_emails(""));
    assert_eq!(rcpt_to, vec!["alice@example.com"]);
    assert!(rcpt_to.iter().any(|r| r == sender));
}

#[test]
fn parse_recipient_emails_dedup_across_to_and_cc() {
    let mut rcpt_to = parse_recipient_emails("alice@example.com, bob@example.com");
    rcpt_to.extend(parse_recipient_emails("bob@example.com, carol@example.com"));
    rcpt_to.sort_unstable();
    rcpt_to.dedup();
    assert_eq!(rcpt_to, vec!["alice@example.com", "bob@example.com", "carol@example.com"]);
}

// --- role_sort_priority ---

#[test]
fn test_role_sort_priority() {
    assert_eq!(role_sort_priority("inbox"), 0);
    assert_eq!(role_sort_priority("drafts"), 1);
    assert_eq!(role_sort_priority("sent"), 2);
    assert_eq!(role_sort_priority("archive"), 3);
    assert_eq!(role_sort_priority("junk"), 4);
    assert_eq!(role_sort_priority("trash"), 5);
    assert_eq!(role_sort_priority(""), 6);
    assert_eq!(role_sort_priority("other"), 7);
}

// --- SearchQuery ---

#[test]
fn search_query_empty_returns_none() {
    assert!(SearchQuery::new("").is_none());
}

#[test]
fn search_query_whitespace_returns_none() {
    assert!(SearchQuery::new("  ").is_none());
}

#[test]
fn search_query_valid_returns_some() {
    let q = SearchQuery::new("hello").unwrap();
    assert_eq!(q.as_ref(), "hello");
}

#[test]
fn search_query_trims_whitespace() {
    let q = SearchQuery::new(" hello world ").unwrap();
    assert_eq!(q.as_ref(), "hello world");
}

#[test]
fn search_query_display() {
    let q = SearchQuery::new("test").unwrap();
    assert_eq!(q.to_string(), "test");
}

// --- the mailbox list ---

#[test]
fn mailboxes_sorted_by_role_then_name() {
    let list = vec![
        mailbox("1", "Zeta", ""),
        mailbox("2", "Sent Items", "sent"),
        mailbox("3", "alpha", ""),
        mailbox("4", "Inbox", "inbox"),
        mailbox("5", "Custom", "important"),
        mailbox("6", "Bin", "trash"),
        mailbox("7", "Beta", ""),
    ];
    let sorted = sort_mailboxes(&list);
    let ids: Vec<&str> = sorted.iter().map(|m| m.id.as_str()).collect();
    assert_eq!(ids, vec!["4", "2", "6", "3", "7", "1", "5"]);
}

#[test]
fn mailboxes_from_entries_fill_defaults() {
    let entries = vec![
        MailboxEntry { id: None, name: None, role: Role::NoRole, unread_emails: 2 },
        MailboxEntry { id: Some("in".to_string()), name: Some("Inbox".to_string()), role: Role::Inbox, unread_emails: 5 },
    ];
    let list = mailboxes_from_entries(&entries);
    assert_eq!(list.len(), 2);
    assert_eq!(list[0].id.as_str(), "in");
    assert_eq!(list[0].unread_count, 5);
    assert_eq!(list[1].name, "(unnamed)");
    assert_eq!(list[1].id.as_str(), "");
}

#[test]
fn mailbox_for_role_is_found_or_reported() {
    let list = vec![mailbox("d", "Drafts", "drafts"), mailbox("s", "Sent", "sent")];
    assert_eq!(mailbox_id_for_role(&list, "sent").unwrap(), "s");
    let err = mailbox_id_for_role(&list, "trash").unwrap_err();
    assert_eq!(err, MissiveError::Jmap(JmapErrorKind::NoMailbox { role: "trash".to_string() }));
    assert_eq!(err.to_string(), "JMAP error: no trash mailbox found");
}

// --- saving and sending ---

fn content<'a>(from: &'a str, to: &'a str, cc: &'a str, threading: &'a ThreadingHeaders<'a>) -> EmailContent<'a> {
    EmailContent { from_email: from, to, cc, subject: "Hi", body_text: "Body", threading }
}

#[test]
fn draft_needs_drafts_mailbox() {
    let threading = ThreadingHeaders::default();
    let c = content("me@example.com", "", "", &threading);
    let err = draft_email(&[mailbox("i", "Inbox", "inbox")].to_vec(), &c).unwrap_err();
    assert_eq!(err, MissiveError::Jmap(JmapErrorKind::NoMailbox { role: "drafts".to_string() }));
    let draft = draft_email(&vec![mailbox("d", "Drafts", "drafts")], &c).unwrap();
    assert_eq!(draft.mailbox_id, "d");
    assert!(draft.is_draft);
    assert!(draft.to.is_none());
    assert!(draft.cc.is_none());
}

#[test]
fn draft_keeps_threading_headers() {
    let threading = ThreadingHeaders { in_reply_to: Some("<a@x>"), references: Some(" <r1@x>  <r2@x> ") };
    let c = content("me@example.com", "you@example.com", "", &threading);
    let draft = draft_email(&vec![mailbox("d", "Drafts", "drafts")], &c).unwrap();
    assert_eq!(draft.in_reply_to, Some(vec!["<a@x>".to_string()]));
    assert_eq!(draft.references, Some(vec!["<r1@x>".to_string(), "<r2@x>".to_string()]));
    assert_eq!(draft.to.unwrap()[0].email(), "you@example.com");
}

#[test]
fn sending_needs_a_recipient_first() {
    let threading = ThreadingHeaders::default();
    let c = content("me@example.com", " , ", "", &threading);
    assert_eq!(
        outgoing_email(&Vec::new(), &c).unwrap_err(),
        MissiveError::Jmap(JmapErrorKind::NoRecipient)
    );
    assert!(require_recipients(" , ").is_err());
}

#[test]
fn sending_needs_drafts_and_sent() {
    let threading = ThreadingHeaders::default();
    let c = content("me@example.com", "you@example.com", "", &threading);
    let err = outgoing_email(&vec![mailbox("d", "Drafts", "drafts")], &c).unwrap_err();
    assert_eq!(err, MissiveError::Jmap(JmapErrorKind::NoMailbox { role: "sent".to_string() }));
    let (email, drafts, sent) =
        outgoing_email(&vec![mailbox("d", "Drafts", "drafts"), mailbox("s", "Sent", "sent")], &c).unwrap();
    assert_eq!(drafts, "d");
    assert_eq!(sent, "s");
    assert!(!email.is_draft);
    assert_eq!(email.mailbox_id, "d");
}

#[test]
fn self_addressed_mail_also_goes_to_inbox() {
    let threading = ThreadingHeaders::default();
    let c = content("Me@Example.com", "you@example.com", "me@example.com", &threading);
    let boxes = vec![mailbox("i", "Inbox", "inbox")];
    let s = submission(&boxes, &c, "m1", "d".to_string(), "s".to_string()).unwrap();
    assert_eq!(s.rcpt_to, vec!["you@example.com", "me@example.com"]);
    assert_eq!(s.inbox_id.as_deref(), Some("i"));
    assert_eq!(s.mail_from, "Me@Example.com");
    let err = submission(&Vec::new(), &c, "m1", "d".to_string(), "s".to_string()).unwrap_err();
    assert_eq!(err, MissiveError::Jmap(JmapErrorKind::NoMailbox { role: "inbox".to_string() }));
}

#[test]
fn mail_to_others_skips_inbox() {
    let threading = ThreadingHeaders::default();
    let c = content("me@example.com", "you@example.com", "", &threading);
    let s = submission(&Vec::new(), &c, "m1", "d".to_string(), "s".to_string()).unwrap();
    assert!(s.inbox_id.is_none());
    assert_eq!(s.email_id, "m1");
}

// --- message views ---

#[test]
fn summary_marks_unread_and_defaults() {
    let mut e = entry();
    e.id = Some("e1".to_string());
    e.from = Some(vec![addr(Some("Alice"), "alice@example.com")]);
    e.keywords = vec!["$flagged".to_string()];
    let s = email_summary_at(&e, "Jan 1".to_string());
    assert_eq!(s.id.as_str(), "e1");
    assert_eq!(s.from, "Alice");
    assert_eq!(s.subject, "(no subject)");
    assert!(s.is_unread);
    e.keywords.push("$seen".to_string());
    assert!(!email_summary_at(&e, String::new()).is_unread);
}

#[test]
fn detail_reads_bodies_and_attachments() {
    let mut e = entry();
    e.subject = Some("Report".to_string());
    e.text_body = Some(vec![part(None, None, None), part(Some("t1"), None, None)]);
    e.html_body = Some(vec![part(Some("h0"), None, None), part(Some("h1"), None, None)]);
    e.body_values = vec![
        ("t1".to_string(), "plain text".to_string()),
        ("h0".to_string(), String::new()),
        ("h1".to_string(), "<p>Hi <img src=\"cid:logo\"></p><script>x</script>".to_string()),
    ];
    e.attachments = Some(vec![
        part(None, Some("blob-a"), None),
        part(None, Some("blob-logo"), Some("logo")),
        part(None, None, None),
    ]);
    e.message_id = Some(vec!["<m@x>".to_string()]);
    let d = email_detail_at(&e, &EmailId::from("e9"), "Jan 1".to_string());
    assert_eq!(d.id.as_str(), "e9");
    assert_eq!(d.subject, "Report");
    assert_eq!(d.body_text, "plain text");
    let html = d.body_html.unwrap();
    assert!(html.contains("/api/v1/attachments/blob-logo"));
    assert!(!html.contains("<script>"));
    assert_eq!(d.attachments.len(), 1);
    assert_eq!(d.attachments[0].blob_id.as_str(), "blob-a");
    assert_eq!(d.attachments[0].name, "attachment");
    assert_eq!(d.attachments[0].size_display, "2.0 KB");
    assert_eq!(d.message_id, vec!["<m@x>".to_string()]);
    assert!(d.references.is_empty());
}

#[test]
fn text_body_needs_a_value() {
    let mut e = entry();
    e.text_body = Some(vec![part(Some("t1"), None, None)]);
    assert_eq!(extract_text_body(&e), None);
    e.body_values = vec![("t1".to_string(), String::new())];
    assert_eq!(extract_text_body(&e), Some(String::new()));
}

#[test]
fn cid_map_keeps_last_blob_per_content_id() {
    let mut e = entry();
    e.attachments = Some(vec![
        part(None, Some("b1"), Some("c1")),
        part(None, Some("b2"), Some("c2")),
        part(None, Some("b3"), Some("c1")),
        part(None, None, Some("c3")),
    ]);
    let map = build_cid_map(&e);
    assert_eq!(map, vec![("c1".to_string(), "b3".to_string()), ("c2".to_string(), "b2".to_string())]);
}

// --- views that read the clock ---

#[test]
fn email_summary_reads_fields_besides_the_time() {
    let mut e = entry();
    e.id = Some("m1".to_string());
    e.from = Some(vec![addr(Some("Alice"), "alice@example.com")]);
    e.subject = Some("Hi".to_string());
    e.preview = Some("Hello there".to_string());
    e.received_at = Some(1_700_000_000);
    let s = email_summary(&e, 1_700_000_100);
    assert_eq!(s.id.as_str(), "m1");
    assert_eq!(s.from, "Alice");
    assert_eq!(s.subject, "Hi");
    assert_eq!(s.preview, "Hello there");
    assert!(s.is_unread);
    assert!(!s.received_at.is_empty());
}

#[test]
fn email_detail_reads_fields_besides_the_time() {
    let mut e = entry();
    e.subject = Some("Report".to_string());
    e.text_body = Some(vec![part(Some("1"), None, None)]);
    e.body_values = vec![("1".to_string(), "Numbers inside".to_string())];
    let d = email_detail(&e, &EmailId::from("m2"), 1_700_000_000);
    assert_eq!(d.id.as_str(), "m2");
    assert_eq!(d.subject, "Report");
    assert_eq!(d.body_text, "Numbers inside");
    assert!(d.body_html.is_none());
}

#[test]
fn extract_html_body_skips_empty_parts_and_sanitizes() {
    let mut e = entry();
    e.html_body = Some(vec![part(Some("1"), None, None), part(Some("2"), None, None)]);
    e.body_values = vec![
        ("1".to_string(), String::new()),
        ("2".to_string(), "<p>Hi<script>x()</script></p>".to_string()),
    ];
    let html = extract_html_body(&e, &Vec::new()).unwrap();
    assert!(html.contains("<p>Hi"));
    assert!(!html.contains("script"));
}

#[test]
fn extract_html_body_none_without_html() {
    let e = entry();
    assert!(extract_html_body(&e, &Vec::new()).is_none());
}

#[test]
fn recipients_of_joined_lists_are_both_lists() {
    let a = " alice@example.com , ";
    let b = "bob@example.com,carol@example.com";
    let joined = format!("{a},{b}");
    let mut both = parse_recipient_emails(a);
    both.extend(parse_recipient_emails(b));
    assert_eq!(parse_recipient_emails(&joined), both);
    assert_eq!(both, vec!["alice@example.com", "bob@example.com", "carol@example.com"]);
}
