use missive::actions::{
    bulk_flash_message, bulk_response_html, deletes_permanently, keyword_change, parse_bulk_action,
    parse_email_ids, plan_bulk_action, removal_response, target_role, BulkAction, BulkActionForm, BulkPlan,
};
use missive::compose::{
    build_reply_references, compose_for_email, filter_identities_for_user, format_forwarded_body,
    format_forwarded_body_html, prepend_subject_prefix, quote_body, quote_body_html, remove_address,
    ComposeMode, ComposeView,
};
use missive::ids::{EmailId, IdentityId, MailboxId};
use missive::jmap::{EmailDetail, IdentityInfo};

fn make_email_detail() -> EmailDetail {
    EmailDetail {
        id: EmailId::from("test-id"),
        from: "Alice <alice@example.com>".to_string(),
        to: "Bob <bob@example.com>".to_string(),
        cc: String::new(),
        subject: "Hello World".to_string(),
        received_at: "Jan 1, 2025".to_string(),
        body_text: "Line one\nLine two".to_string(),
        body_html: None,
        attachments: Vec::new(),
        message_id: vec!["<msg-1@example.com>".to_string()],
        references: Vec::new(),
        from_email: "alice@example.com".to_string(),
        to_emails: "bob@example.com".to_string(),
        cc_emails: String::new(),
    }
}

fn identity(id: &str, email: &str) -> IdentityInfo {
    IdentityInfo { id: IdentityId::from(id), name: String::new(), email: email.to_string() }
}

// --- prepend_subject_prefix ---

#[test]
fn prepend_re_when_missing() {
    assert_eq!(prepend_subject_prefix("Hello", "Re"), "Re: Hello");
}

#[test]
fn no_duplicate_re_prefix() {
    assert_eq!(prepend_subject_prefix("Re: Hello", "Re"), "Re: Hello");
}

#[test]
fn no_duplicate_re_case_insensitive() {
    assert_eq!(prepend_subject_prefix("re: Hello", "Re"), "re: Hello");
}

#[test]
fn prepend_fwd_when_missing() {
    assert_eq!(prepend_subject_prefix("Hello", "Fwd"), "Fwd: Hello");
}

#[test]
fn no_duplicate_fwd_prefix() {
    assert_eq!(prepend_subject_prefix("Fwd: Hello", "Fwd"), "Fwd: Hello");
}

#[test]
fn prepend_trims_whitespace() {
    assert_eq!(prepend_subject_prefix("  Hello  ", "Re"), "Re: Hello");
}

#[test]
fn prepend_to_empty_subject() {
    assert_eq!(prepend_subject_prefix("", "Re"), "Re: ");
}

// --- quote_body ---

#[test]
fn quote_body_prefixes_lines() {
    assert_eq!(quote_body("a\nb"), "> a\n> b");
}

#[test]
fn quote_body_empty() {
    assert_eq!(quote_body(""), "");
}

#[test]
fn quote_body_drops_carriage_returns_and_final_newline() {
    assert_eq!(quote_body("a\r\nb\n"), "> a\n> b");
    assert_eq!(quote_body("a\n\nb"), "> a\n> \n> b");
}

// --- build_reply_references ---

#[test]
fn build_refs_concatenates() {
    let refs = vec!["<a>".to_string()];
    let msg_id = vec!["<b>".to_string()];
    assert_eq!(build_reply_references(&refs, &msg_id), "<a> <b>");
}

#[test]
fn build_refs_deduplicates() {
    let refs = vec!["<a>".to_string(), "<b>".to_string()];
    let msg_id = vec!["<b>".to_string()];
    assert_eq!(build_reply_references(&refs, &msg_id), "<a> <b>");
}

#[test]
fn build_refs_empty() {
    let empty: Vec<String> = Vec::new();
    assert_eq!(build_reply_references(&empty, &empty), "");
}

// --- remove_address ---

#[test]
fn remove_address_filters_match() {
    assert_eq!(remove_address("alice@example.com, bob@example.com", "alice@example.com"), "bob@example.com");
}

#[test]
fn remove_address_case_insensitive() {
    assert_eq!(remove_address("Alice@Example.com, bob@example.com", "alice@example.com"), "bob@example.com");
}

#[test]
fn remove_address_no_match() {
    assert_eq!(remove_address("bob@example.com", "alice@example.com"), "bob@example.com");
}

#[test]
fn remove_address_empty_result() {
    assert_eq!(remove_address("alice@example.com", "alice@example.com"), "");
}

// --- forwarding ---

#[test]
fn format_forwarded_body_structure() {
    let email = make_email_detail();
    let result = format_forwarded_body(&email);
    assert!(result.contains("---------- Forwarded message ----------"));
    assert!(result.contains("From: Alice <alice@example.com>"));
    assert!(result.contains("Date: Jan 1, 2025"));
    assert!(result.contains("Subject: Hello World"));
    assert!(result.contains("To: Bob <bob@example.com>"));
    assert!(result.contains("Line one\nLine two"));
}

#[test]
fn quote_body_html_structure() {
    let result = quote_body_html("<p>Hello</p>", "Alice", "Jan 1, 2025");
    assert!(result.contains("<blockquote><p>Hello</p></blockquote>"));
    assert!(result.contains("On Jan 1, 2025, Alice wrote:"));
}

#[test]
fn format_forwarded_body_html_structure() {
    let mut email = make_email_detail();
    email.body_html = Some("<p>HTML body</p>".to_string());
    let result = format_forwarded_body_html(&email);
    assert!(result.contains("---------- Forwarded message ----------"));
    assert!(result.contains("From: Alice <alice@example.com>"));
    assert!(result.contains("<p>HTML body</p>"));
}

#[test]
fn format_forwarded_body_html_falls_back_to_text() {
    let email = make_email_detail();
    let result = format_forwarded_body_html(&email);
    assert!(result.contains("Line one\nLine two"));
}

// --- identities ---

#[test]
fn identities_of_the_user_or_all() {
    let ids = vec![identity("1", "a@example.com"), identity("2", "me@example.com"), identity("3", "me@example.com")];
    let mine = filter_identities_for_user(ids.clone(), "me@example.com");
    assert_eq!(mine.iter().map(|i| i.id.as_str()).collect::<Vec<_>>(), vec!["2", "3"]);
    let all = filter_identities_for_user(ids, "nobody@example.com");
    assert_eq!(all.len(), 3);
}

// --- compose_for_email ---

#[test]
fn reply_fills_the_form() {
    let email = make_email_detail();
    let view = compose_for_email(&email, vec![identity("1", "bob@example.com")], "bob@example.com", ComposeMode::Reply);
    match view {
        ComposeView::Form { form, title, identities } => {
            assert_eq!(title, "Reply");
            assert_eq!(identities.len(), 1);
            assert_eq!(form.to, "alice@example.com");
            assert_eq!(form.cc, "");
            assert_eq!(form.subject, "Re: Hello World");
            assert_eq!(form.body, "\n\nOn Jan 1, 2025, Alice <alice@example.com> wrote:\n> Line one\n> Line two");
            assert_eq!(form.in_reply_to, "<msg-1@example.com>");
            assert_eq!(form.references_header, "<msg-1@example.com>");
            assert_eq!(form.body_html, "");
        }
        ComposeView::NoIdentities => panic!("expected a form"),
    }
}

#[test]
fn reply_all_copies_others() {
    let mut email = make_email_detail();
    email.to_emails = "bob@example.com, me@example.com".to_string();
    email.cc_emails = "carol@example.com".to_string();
    let view = compose_for_email(&email, vec![identity("1", "me@example.com")], "ME@example.com", ComposeMode::ReplyAll);
    match view {
        ComposeView::Form { form, title, .. } => {
            assert_eq!(title, "Reply All");
            assert_eq!(form.cc, "bob@example.com, carol@example.com");
        }
        ComposeView::NoIdentities => panic!("expected a form"),
    }
}

#[test]
fn forward_carries_the_original() {
    let email = make_email_detail();
    let view = compose_for_email(&email, vec![identity("1", "x@example.com")], "me@example.com", ComposeMode::Forward);
    match view {
        ComposeView::Form { form, title, .. } => {
            assert_eq!(title, "Forward");
            assert_eq!(form.subject, "Fwd: Hello World");
            assert_eq!(form.to, "");
            assert_eq!(form.body, format_forwarded_body(&email));
            assert_eq!(form.body_html, format_forwarded_body_html(&email));
        }
        ComposeView::NoIdentities => panic!("expected a form"),
    }
}

#[test]
fn compose_without_identities() {
    let email = make_email_detail();
    assert!(matches!(
        compose_for_email(&email, Vec::new(), "me@example.com", ComposeMode::Reply),
        ComposeView::NoIdentities
    ));
}

// --- bulk actions ---

#[test]
fn bulk_actions_are_read() {
    assert_eq!(parse_bulk_action("delete"), Some(BulkAction::Delete));
    assert_eq!(parse_bulk_action("unflag"), Some(BulkAction::Unflag));
    assert_eq!(parse_bulk_action("Delete"), None);
    let ids = parse_email_ids(" a , ,b,");
    assert_eq!(ids.iter().map(|i| i.as_str()).collect::<Vec<_>>(), vec!["a", "b"]);
}

#[test]
fn bulk_plan_checks_selection_first() {
    let form = |ids: &str, action: &str| BulkActionForm {
        email_ids: ids.to_string(),
        action: action.to_string(),
        mailbox_id: MailboxId::from("inbox"),
    };
    assert!(matches!(plan_bulk_action(&form("", "bogus")), BulkPlan::NothingSelected));
    assert!(matches!(plan_bulk_action(&form("a", "bogus")), BulkPlan::UnknownAction));
    match plan_bulk_action(&form("a,b", "archive")) {
        BulkPlan::Act { action, ids } => {
            assert_eq!(action, BulkAction::Archive);
            assert_eq!(ids.len(), 2);
        }
        _ => panic!("expected an action"),
    }
}

#[test]
fn bulk_notices_and_targets() {
    assert_eq!(bulk_flash_message(BulkAction::Delete, 3, true), "3 emails permanently deleted");
    assert_eq!(bulk_flash_message(BulkAction::Delete, 3, false), "3 emails moved to trash");
    assert_eq!(bulk_flash_message(BulkAction::Spam, 1, false), "1 emails marked as spam");
    assert_eq!(bulk_flash_message(BulkAction::Unflag, 2, false), "2 emails unstarred");
    assert_eq!(target_role(BulkAction::Spam), Some("junk"));
    assert_eq!(target_role(BulkAction::Read), None);
    assert_eq!(keyword_change(BulkAction::Unread), Some(("$seen", false)));
    assert_eq!(keyword_change(BulkAction::Flag), Some(("$flagged", true)));
    assert!(deletes_permanently(&MailboxId::from("t"), &MailboxId::from("t")));
    assert!(!deletes_permanently(&MailboxId::from("i"), &MailboxId::from("t")));
}

#[test]
fn bulk_response_removes_rows_of_moved_messages() {
    let pane = "<div class=\"flex items-center justify-center h-full text-sm text-gray-400\">Select an email to read</div>";
    let ids = vec![EmailId::from("a"), EmailId::from("b")];
    assert_eq!(
        bulk_response_html(BulkAction::Archive, &ids),
        format!("{pane}<li id=\"email-row-a\" hx-swap-oob=\"delete\"></li><li id=\"email-row-b\" hx-swap-oob=\"delete\"></li>")
    );
    assert_eq!(bulk_response_html(BulkAction::Read, &ids), pane);
    assert_eq!(
        removal_response(&EmailId::from("x")),
        format!("{pane}<li id=\"email-row-x\" hx-swap-oob=\"delete\"></li>")
    );
}

// --- prefixing, references and recipients ---

#[test]
fn subject_prefix_is_added_once() {
    let once = prepend_subject_prefix("  Lunch plans ", "Re");
    assert_eq!(once, "Re: Lunch plans");
    let twice = prepend_subject_prefix(&once, "Re");
    assert_eq!(twice, once);
}

#[test]
fn subject_prefix_kept_in_other_case() {
    assert_eq!(prepend_subject_prefix("FWD: notes", "Fwd"), "FWD: notes");
}

#[test]
fn blank_subject_prefix_is_not_stable() {
    let once = prepend_subject_prefix("   ", "Re");
    assert_eq!(once, "Re: ");
    assert_eq!(prepend_subject_prefix(&once, "Re"), "Re:");
}

#[test]
fn reply_references_name_each_id_once() {
    let refs = vec!["<a@x>".to_string(), "<b@x>".to_string(), "<a@x>".to_string()];
    let ids = vec!["<b@x>".to_string(), "<c@x>".to_string()];
    assert_eq!(build_reply_references(&refs, &ids), "<a@x> <b@x> <c@x>");
}

#[test]
fn remove_address_drops_every_copy_in_any_case() {
    let got = remove_address("Me@Example.com, bob@x.org, me@example.com,  , carol@y.net", "me@example.com");
    assert_eq!(got, "bob@x.org, carol@y.net");
}

#[test]
fn comma_list_items_are_trimmed_and_never_empty() {
    let ids = parse_email_ids(" m1 ,, \t m2\n, ,m3 ");
    let got: Vec<&str> = ids.iter().map(|i| i.as_str()).collect();
    assert_eq!(got, vec!["m1", "m2", "m3"]);
}
