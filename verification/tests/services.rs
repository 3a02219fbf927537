use missive::jmap::{EmailAddress, EmailEntry};
use missive::jmap_raw::{choose_default_calendar, extract_method_response, set_error_message, CalendarEntry, ResponseCall};
use missive::error::{JmapErrorKind, MissiveError};
use missive::push::{
    after_email_changes, bridge_step, classify_push_notification, AccountChanges,
    bridge_opened, BridgeEvent, Changes, DataType, PageEvent, PushNotification,
};
use missive::sanitize::{mail_html_policy, resolve_cid_urls, sanitize_email_html};
use missive::webhook::{
    addresses_to_payload, deleted_payload, email_to_webhook_payload, initial_backoff, needs_changes,
    next_backoff, worker_step, WorkerAction, WorkerEvent, plan_change_posts, rejected_post_message, sign_payload, webhook_email_properties,
    EmailProperty,
};

// --- sanitizing ---

fn sanitize(input: &str) -> String {
    sanitize_email_html(input, &Vec::new())
}

#[test]
fn strips_script_tags() {
    let result = sanitize(r#"<p>Hello</p><script>alert('xss')</script>"#);
    assert!(!result.contains("<script>"));
    assert!(result.contains("<p>Hello</p>"));
}

#[test]
fn strips_event_handlers() {
    let result = sanitize(r#"<p onclick="alert('xss')">Hello</p>"#);
    assert!(!result.contains("onclick"));
    assert!(result.contains("<p>Hello</p>"));
}

#[test]
fn allows_safe_html() {
    let result = sanitize(r#"<div style="color:red"><b>Bold</b> <a href="https://example.com">Link</a></div>"#);
    assert!(result.contains("color:red"));
    assert!(result.contains("<b>Bold</b>"));
    assert!(result.contains("https://example.com"));
}

#[test]
fn blocks_javascript_urls() {
    let result = sanitize(r#"<a href="javascript:alert('xss')">Click</a>"#);
    assert!(!result.contains("javascript:"));
}

#[test]
fn sets_target_blank_on_links() {
    let result = sanitize(r#"<a href="https://example.com">Link</a>"#);
    assert!(result.contains(r#"target="_blank""#));
    assert!(result.contains("noopener noreferrer"));
}

#[test]
fn prefixes_ids() {
    let result = sanitize(r#"<div id="main">Content</div>"#);
    assert!(result.contains(r#"id="email-main""#));
}

#[test]
fn filters_dangerous_css_properties() {
    let result = sanitize(r#"<div style="color:red; position:fixed; z-index:9999">Content</div>"#);
    assert!(result.contains("color:red"));
    assert!(!result.contains("position"));
    assert!(!result.contains("z-index"));
}

#[test]
fn strips_form_elements() {
    let result = sanitize(r#"<form action="/steal"><input type="text"><button>Submit</button></form>"#);
    assert!(!result.contains("<form"));
    assert!(!result.contains("<input"));
    assert!(!result.contains("<button"));
}

#[test]
fn allows_table_attributes() {
    let result = sanitize(
        r##"<table bgcolor="#fff" cellpadding="5"><tr><td valign="top" align="center">Cell</td></tr></table>"##,
    );
    assert!(result.contains("bgcolor"));
    assert!(result.contains("cellpadding"));
    assert!(result.contains("valign"));
    assert!(result.contains("align"));
}

#[test]
fn resolves_cid_urls() {
    let cid_map = vec![("image001@example.com".to_string(), "blob-abc123".to_string())];
    let input = r#"<img src="cid:image001@example.com" alt="logo">"#;
    let result = sanitize_email_html(input, &cid_map);
    assert!(result.contains("/api/v1/attachments/blob-abc123"));
    assert!(!result.contains("cid:"));
}

#[test]
fn cid_resolution_replaces_every_reference() {
    let cid_map = vec![("a".to_string(), "b1".to_string()), ("c".to_string(), "b2".to_string())];
    assert_eq!(
        resolve_cid_urls("cid:a cid:c cid:a", &cid_map),
        "/api/v1/attachments/b1 /api/v1/attachments/b2 /api/v1/attachments/b1"
    );
    assert_eq!(resolve_cid_urls("no images", &cid_map), "no images");
}

#[test]
fn mail_policy_lists() {
    let p = mail_html_policy();
    assert_eq!(p.tags.len(), 16);
    assert_eq!(p.style_properties.len(), 45);
    assert_eq!(p.id_prefix, "email-");
}

// --- push notifications ---

fn make_state_change(types: &[DataType]) -> PushNotification {
    PushNotification::StateChange(Changes {
        accounts: vec![AccountChanges {
            account_id: "account-1".to_string(),
            changed: types.iter().map(|t| (*t, "state-1".to_string())).collect(),
        }],
    })
}

#[test]
fn classify_email_change() {
    let notification = make_state_change(&[DataType::Email]);
    assert_eq!(classify_push_notification(&notification), vec!["emailsUpdated"]);
}

#[test]
fn classify_email_delivery_change() {
    let notification = make_state_change(&[DataType::EmailDelivery]);
    assert_eq!(classify_push_notification(&notification), vec!["emailsUpdated"]);
}

#[test]
fn classify_mailbox_change() {
    let notification = make_state_change(&[DataType::Mailbox]);
    assert_eq!(classify_push_notification(&notification), vec!["mailboxesUpdated"]);
}

#[test]
fn classify_email_and_mailbox_emits_both() {
    let notification = make_state_change(&[DataType::Email, DataType::Mailbox]);
    let events = classify_push_notification(&notification);
    assert!(events.contains(&"emailsUpdated"));
    assert!(events.contains(&"mailboxesUpdated"));
    assert_eq!(events.len(), 2);
}

#[test]
fn classify_unrelated_type_returns_empty() {
    let notification = make_state_change(&[DataType::Identity]);
    assert!(classify_push_notification(&notification).is_empty());
}

#[test]
fn classify_empty_state_change_returns_empty() {
    let notification = make_state_change(&[]);
    assert!(classify_push_notification(&notification).is_empty());
}

#[test]
fn test_classify_email_change_true_for_email() {
    assert!(missive::push::classify_email_change(&make_state_change(&[DataType::Email])));
}

#[test]
fn test_classify_email_change_true_for_delivery() {
    assert!(missive::push::classify_email_change(&make_state_change(&[DataType::EmailDelivery])));
}

#[test]
fn test_classify_email_change_false_for_mailbox() {
    assert!(!missive::push::classify_email_change(&make_state_change(&[DataType::Mailbox])));
}

#[test]
fn test_classify_email_change_false_for_empty() {
    assert!(!missive::push::classify_email_change(&make_state_change(&[])));
}

#[test]
fn calendar_alerts_change_nothing() {
    assert!(classify_push_notification(&PushNotification::CalendarAlert).is_empty());
    assert!(!needs_changes(&PushNotification::CalendarAlert));
}

#[test]
fn bridge_passes_events_on_and_stops_on_failure() {
    let step = bridge_step(&BridgeEvent::Notification(make_state_change(&[DataType::Email])));
    assert_eq!(step.broadcasts, vec![PageEvent { name: "emailsUpdated", data: "refresh" }]);
    assert!(step.check_new_emails && !step.stop);
    let step = bridge_step(&BridgeEvent::StreamError);
    assert!(step.stop && step.broadcasts.is_empty());
    assert_eq!(after_email_changes("s1".to_string(), Some((2, "s2".to_string()))), ("s2".to_string(), Some(PageEvent { name: "emailReceived", data: "new" })));
    assert_eq!(after_email_changes("s1".to_string(), Some((0, "s2".to_string()))), ("s2".to_string(), None));
    assert_eq!(after_email_changes("s1".to_string(), None), ("s1".to_string(), None));
}

// --- webhook ---

#[test]
fn test_sign_payload_sha256_format() {
    let signature = sign_payload(b"hello world", "secret");
    assert!(signature.starts_with("sha256="));
    assert_eq!(signature, "sha256=734cc62f32841568f45715aeb9f4d7891324e6d948e4c6c60c0621cdac48623a");
}

#[test]
fn test_sign_payload_empty_body() {
    let signature = sign_payload(b"", "secret");
    assert!(signature.starts_with("sha256="));
    assert_eq!(signature.len(), "sha256=".len() + 64);
}

#[test]
fn signature_depends_on_the_secret() {
    assert_ne!(sign_payload(b"hello world", "secret"), sign_payload(b"hello world", "other"));
}

#[test]
fn test_addresses_to_payload_none() {
    let result = addresses_to_payload(None);
    assert!(result.is_empty());
}

#[test]
fn test_addresses_to_payload_empty() {
    let result = addresses_to_payload(Some(&[]));
    assert!(result.is_empty());
}

#[test]
fn test_webhook_email_properties_without_body() {
    let props = webhook_email_properties(false);
    assert!(!props.contains(&EmailProperty::TextBody));
    assert!(!props.contains(&EmailProperty::BodyValues));
    assert!(props.contains(&EmailProperty::Subject));
}

#[test]
fn test_webhook_email_properties_with_body() {
    let props = webhook_email_properties(true);
    assert!(props.contains(&EmailProperty::TextBody));
    assert!(props.contains(&EmailProperty::BodyValues));
}

#[test]
fn deleted_payload_names_the_message() {
    let p = deleted_payload("abc-123");
    assert_eq!(p.event, "email.deleted");
    assert_eq!(p.email_id, "abc-123");
}

#[test]
fn payload_needs_an_id() {
    let mut e = EmailEntry {
        id: None,
        thread_id: Some("t1".to_string()),
        from: Some(vec![EmailAddress { name: Some("Ann".to_string()), email: "ann@example.com".to_string() }]),
        to: None,
        cc: None,
        subject: Some("Hi".to_string()),
        received_at: Some(42),
        preview: None,
        keywords: vec!["$seen".to_string()],
        has_attachment: true,
        size: 10,
        message_id: None,
        references: None,
        text_body: None,
        html_body: None,
        attachments: None,
        body_values: Vec::new(),
    };
    assert!(email_to_webhook_payload(&e, false, "email.received").is_none());
    e.id = Some("m1".to_string());
    let p = email_to_webhook_payload(&e, true, "email.received").unwrap();
    assert_eq!(p.email_id, "m1");
    assert_eq!(p.event, "email.received");
    assert_eq!(p.from.len(), 1);
    assert_eq!(p.from[0].name.as_deref(), Some("Ann"));
    assert!(p.to.is_empty());
    assert!(p.body_text.is_none());
    assert_eq!(p.received_at, Some(42));
    assert_eq!(p.size, 10);
}

#[test]
fn backoff_doubles_up_to_a_minute() {
    let mut b = initial_backoff();
    let mut seen = vec![b];
    for _ in 0..8 {
        b = next_backoff(b);
        seen.push(b);
    }
    assert_eq!(seen, vec![1, 2, 4, 8, 16, 32, 60, 60, 60]);
}

#[test]
fn change_posts_skip_empty_groups() {
    let posts = plan_change_posts(vec!["a".to_string()], Vec::new(), vec!["z".to_string()]);
    assert_eq!(posts.received, Some(vec!["a".to_string()]));
    assert!(posts.updated.is_none());
    assert_eq!(posts.deleted, Some(vec!["z".to_string()]));
    assert_eq!(rejected_post_message(500, "oops"), "webhook POST returned 500: oops");
}

// --- raw JMAP responses ---

fn call(name: &str, id: &str) -> ResponseCall {
    ResponseCall {
        is_invocation: true,
        name: Some(name.to_string()),
        call_id: Some(id.to_string()),
        error_type: None,
        error_description: None,
    }
}

#[test]
fn method_response_is_found_by_call_id() {
    let calls = vec![call("Email/get", "a"), call("Calendar/get", "c0")];
    assert_eq!(extract_method_response(Some(&calls), "c0").unwrap(), 1);
    let err = extract_method_response(Some(&calls), "zz").unwrap_err();
    assert_eq!(
        err,
        MissiveError::Jmap(JmapErrorKind::QueryFailed {
            method: "zz".to_string(),
            message: "call ID not found in response".to_string()
        })
    );
    let err = extract_method_response(None, "c0").unwrap_err();
    assert_eq!(err.to_string(), "JMAP error: c0 query failed: no methodResponses array");
}

#[test]
fn method_error_is_reported() {
    let mut e = call("error", "c0");
    e.error_type = Some("invalidArguments".to_string());
    let calls = vec![e];
    let err = extract_method_response(Some(&calls), "c0").unwrap_err();
    assert_eq!(err.to_string(), "JMAP error: c0 query failed: invalidArguments: ");
    assert_eq!(set_error_message(&None, &Some("desc".to_string())), "unknown: desc");
}

#[test]
fn default_calendar_is_chosen() {
    let cal = |id: Option<&str>, d: Option<bool>| CalendarEntry { id: id.map(String::from), is_default: d };
    assert_eq!(choose_default_calendar(&vec![cal(Some("a"), None), cal(Some("b"), Some(true))]).unwrap(), "b");
    assert_eq!(choose_default_calendar(&vec![cal(Some("a"), Some(false)), cal(Some("b"), None)]).unwrap(), "a");
    assert!(choose_default_calendar(&Vec::new()).is_err());
}

#[test]
fn test_sign_deleted_payload() {
    let payload = missive::webhook::deleted_payload("test-id");
    // the JSON body of a deleted-message post: its two fields, in order
    let body = format!("{{\"event\":\"{}\",\"email_id\":\"{}\"}}", payload.event, payload.email_id);
    let signature = sign_payload(body.as_bytes(), "secret");
    assert!(signature.starts_with("sha256="));
    assert_eq!(signature.len(), "sha256=".len() + 64);
}

#[test]
fn bridge_sends_connected_first_then_refreshes() {
    assert_eq!(bridge_opened(), PageEvent { name: "connected", data: "ok" });
    let step = bridge_step(&BridgeEvent::Notification(make_state_change(&[DataType::Mailbox, DataType::EmailDelivery])));
    assert_eq!(
        step.broadcasts,
        vec![
            PageEvent { name: "emailsUpdated", data: "refresh" },
            PageEvent { name: "mailboxesUpdated", data: "refresh" },
        ]
    );
}

#[test]
fn worker_resets_fetches_then_sleeps() {
    let step = worker_step(32, &WorkerEvent::Opened);
    assert!(step.actions.is_empty());
    assert_eq!(step.backoff, 1);
    let step = worker_step(4, &WorkerEvent::StreamEnded);
    assert_eq!(step.actions, vec![WorkerAction::FetchChanges, WorkerAction::Sleep(4)]);
    assert_eq!(step.backoff, 8);
    let step = worker_step(32, &WorkerEvent::OpenFailed);
    assert_eq!(step.actions, vec![WorkerAction::Sleep(32)]);
    assert_eq!(step.backoff, 60);
    let step = worker_step(8, &WorkerEvent::Notification(make_state_change(&[DataType::Email])));
    assert_eq!(step.actions, vec![WorkerAction::FetchChanges]);
    assert_eq!(step.backoff, 8);
    let step = worker_step(8, &WorkerEvent::Notification(make_state_change(&[DataType::Mailbox])));
    assert!(step.actions.is_empty());
}

#[test]
fn next_backoff_caps_large_waits() {
    assert_eq!(next_backoff(1_000_000), 60);
}

#[test]
fn event_source_failure_names_the_event_source() {
    assert_eq!(
        missive::push::event_source_error("refused"),
        MissiveError::Jmap(JmapErrorKind::ConnectionFailed {
            url: "EventSource".to_string(),
            message: "refused".to_string(),
        })
    );
}

#[test]
fn posts_are_signed_only_with_a_secret() {
    assert!(missive::webhook::signature_header(b"{}", None).is_none());
    let (name, value) = missive::webhook::signature_header(b"hello world", Some("secret")).unwrap();
    assert_eq!(name, "X-Signature");
    assert_eq!(value, "sha256=734cc62f32841568f45715aeb9f4d7891324e6d948e4c6c60c0621cdac48623a");
}
