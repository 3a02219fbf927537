use missive::contacts::{
    contact_card_to_detail, contact_card_to_summary, context_label, extract_full_name,
    extract_organization, extract_primary_email, form_to_jscontact, format_address,
    group_contacts_alphabetically, titlecase_first, AddressComponent, ContactAddress,
    ContactEmail, ContactFormData, ContactName, ContactOrganization, ContactSummary,
    JsContactCard, NameComponent,
};
use missive::ids::ContactId;

fn make_card(id: &str, full_name: &str, email: &str) -> JsContactCard {
    let mut emails = Vec::new();
    if !email.is_empty() {
        emails.push((
            "e1".to_string(),
            ContactEmail {
                address: email.to_string(),
                contexts: Some(vec![("work".to_string(), true)]),
                pref: Some(1),
                label: None,
            },
        ));
    }
    JsContactCard {
        id: Some(id.to_string()),
        name: Some(ContactName { full: Some(full_name.to_string()), components: None }),
        emails: if emails.is_empty() { None } else { Some(emails) },
        ..Default::default()
    }
}

fn make_card_with_name_components(id: &str, given: &str, surname: &str) -> JsContactCard {
    JsContactCard {
        id: Some(id.to_string()),
        name: Some(ContactName {
            full: None,
            components: Some(vec![
                NameComponent { value: given.to_string(), kind: Some("given".to_string()) },
                NameComponent { value: surname.to_string(), kind: Some("surname".to_string()) },
            ]),
        }),
        ..Default::default()
    }
}

fn summary(id: &str, name: &str) -> ContactSummary {
    ContactSummary { id: ContactId::from(id), full_name: name.to_string(), primary_email: String::new() }
}

// --- extract_full_name ---

#[test]
fn full_name_from_full_name_field() {
    let card = make_card("1", "Alice Smith", "");
    assert_eq!(extract_full_name(&card), "Alice Smith");
}

#[test]
fn full_name_from_name_components() {
    let card = make_card_with_name_components("1", "Bob", "Jones");
    assert_eq!(extract_full_name(&card), "Bob Jones");
}

#[test]
fn full_name_empty_card() {
    let card = JsContactCard::default();
    assert_eq!(extract_full_name(&card), "");
}

#[test]
fn full_name_prefers_full_name_field() {
    let mut card = make_card_with_name_components("1", "Bob", "Jones");
    card.name.as_mut().unwrap().full = Some("Robert Jones III".to_string());
    assert_eq!(extract_full_name(&card), "Robert Jones III");
}

#[test]
fn full_name_blank_field_falls_back_to_components() {
    let mut card = make_card_with_name_components("1", "Bob", "Jones");
    card.name.as_mut().unwrap().full = Some("   ".to_string());
    assert_eq!(extract_full_name(&card), "Bob Jones");
}

// --- extract_primary_email ---

#[test]
fn primary_email_picks_preferred() {
    let map = vec![
        (
            "e1".to_string(),
            ContactEmail { address: "work@example.com".to_string(), contexts: None, pref: Some(2), label: None },
        ),
        (
            "e2".to_string(),
            ContactEmail { address: "pref@example.com".to_string(), contexts: None, pref: Some(1), label: None },
        ),
    ];
    assert_eq!(extract_primary_email(&Some(map)), "pref@example.com");
}

#[test]
fn primary_email_none() {
    assert_eq!(extract_primary_email(&None), "");
}

#[test]
fn primary_email_without_preference_is_last_choice() {
    let map = vec![
        ("e1".to_string(), ContactEmail { address: "a@example.com".to_string(), contexts: None, pref: None, label: None }),
        ("e2".to_string(), ContactEmail { address: "b@example.com".to_string(), contexts: None, pref: Some(5), label: None }),
    ];
    assert_eq!(extract_primary_email(&Some(map)), "b@example.com");
}

// --- extract_organization ---

#[test]
fn organization_from_map() {
    let map = vec![("o1".to_string(), ContactOrganization { name: Some("Acme Inc".to_string()), units: None })];
    assert_eq!(extract_organization(&Some(map)), "Acme Inc");
}

#[test]
fn organization_none() {
    assert_eq!(extract_organization(&None), "");
}

// --- context_label ---

#[test]
fn context_label_work() {
    let ctx = Some(vec![("work".to_string(), true)]);
    assert_eq!(context_label(&ctx), "Work");
}

#[test]
fn context_label_personal() {
    let ctx = Some(vec![("private".to_string(), true)]);
    assert_eq!(context_label(&ctx), "Private");
}

#[test]
fn context_label_none() {
    assert_eq!(context_label(&None), "");
}

#[test]
fn context_label_skips_unset_contexts() {
    let ctx = Some(vec![("work".to_string(), false), ("home".to_string(), true)]);
    assert_eq!(context_label(&ctx), "Home");
}

// --- format_address ---

#[test]
fn format_address_full() {
    let addr = ContactAddress {
        street: Some(vec![AddressComponent { value: "123 Main St".to_string(), kind: None }]),
        locality: Some("Springfield".to_string()),
        region: Some("IL".to_string()),
        postcode: Some("62701".to_string()),
        country: Some("USA".to_string()),
        country_code: None,
        contexts: None,
    };
    assert_eq!(format_address(&addr), "123 Main St, Springfield, IL, 62701, USA");
}

#[test]
fn format_address_partial() {
    let addr = ContactAddress {
        street: None,
        locality: Some("Denver".to_string()),
        region: Some("CO".to_string()),
        postcode: None,
        country: None,
        country_code: None,
        contexts: None,
    };
    assert_eq!(format_address(&addr), "Denver, CO");
}

// --- contact_card_to_summary ---

#[test]
fn summary_from_card() {
    let card = make_card("abc", "Jane Doe", "jane@example.com");
    let summary = contact_card_to_summary(&card).unwrap();
    assert_eq!(summary.id.as_str(), "abc");
    assert_eq!(summary.full_name, "Jane Doe");
    assert_eq!(summary.primary_email, "jane@example.com");
}

#[test]
fn contacts_summary_requires_id() {
    let card = JsContactCard {
        name: Some(ContactName { full: Some("No ID".to_string()), components: None }),
        ..Default::default()
    };
    assert!(contact_card_to_summary(&card).is_none());
}

// --- contact_card_to_detail ---

#[test]
fn detail_from_card_with_components() {
    let mut card = make_card_with_name_components("d1", "Alice", "Wonderland");
    card.name.as_mut().unwrap().full = Some("Alice Wonderland".to_string());
    let detail = contact_card_to_detail(&card).unwrap();
    assert_eq!(detail.given_name, "Alice");
    assert_eq!(detail.surname, "Wonderland");
    assert_eq!(detail.full_name, "Alice Wonderland");
}

#[test]
fn detail_lists_emails_with_labels() {
    let card = make_card("d2", "Jane Doe", "jane@example.com");
    let detail = contact_card_to_detail(&card).unwrap();
    assert_eq!(detail.emails.len(), 1);
    assert_eq!(detail.emails[0].address, "jane@example.com");
    assert_eq!(detail.emails[0].label, "Work");
    assert!(detail.emails[0].is_preferred);
}

// --- ContactSummary methods ---

#[test]
fn initials_two_words() {
    assert_eq!(summary("1", "John Doe").initials(), "JD");
}

#[test]
fn initials_single_word() {
    assert_eq!(summary("1", "Madonna").initials(), "M");
}

#[test]
fn sort_letter_alpha() {
    assert_eq!(summary("1", "alice").sort_letter(), 'A');
}

#[test]
fn sort_letter_non_alpha() {
    assert_eq!(summary("1", "123 Company").sort_letter(), 'C');
}

#[test]
fn sort_letter_without_letters_is_hash() {
    assert_eq!(summary("1", "123").sort_letter(), '#');
}

// --- group_contacts_alphabetically ---

#[test]
fn group_contacts_empty() {
    let groups = group_contacts_alphabetically(vec![]);
    assert!(groups.is_empty());
}

#[test]
fn group_contacts_multiple_letters() {
    let contacts = vec![summary("1", "Bob"), summary("2", "Alice"), summary("3", "Amy")];
    let groups = group_contacts_alphabetically(contacts);
    assert_eq!(groups.len(), 2);
    assert_eq!(groups[0].letter, 'A');
    assert_eq!(groups[0].contacts.len(), 2);
    assert_eq!(groups[1].letter, 'B');
    assert_eq!(groups[1].contacts.len(), 1);
}

#[test]
fn group_contacts_sorts_case_insensitively_and_stably() {
    let contacts = vec![summary("1", "bob"), summary("2", "Alice"), summary("3", "alice"), summary("4", "Bob")];
    let groups = group_contacts_alphabetically(contacts);
    let ids: Vec<&str> = groups.iter().flat_map(|g| g.contacts.iter().map(|c| c.id.as_str())).collect();
    assert_eq!(ids, vec!["2", "3", "1", "4"]);
}

// --- form_to_jscontact ---

#[test]
fn form_to_card_basic() {
    let form = ContactFormData {
        given_name: "Jane".to_string(),
        surname: "Doe".to_string(),
        email: "jane@example.com".to_string(),
        ..Default::default()
    };
    let card = form_to_jscontact(&form);
    assert_eq!(card.name.as_ref().unwrap().full.as_deref(), Some("Jane Doe"));
    let emails = card.emails.as_ref().unwrap();
    let e1 = &emails.iter().find(|(k, _)| k == "e1").unwrap().1;
    assert_eq!(e1.address, "jane@example.com");
}

#[test]
fn form_to_card_empty_fields_are_none() {
    let form = ContactFormData::default();
    let card = form_to_jscontact(&form);
    assert!(card.emails.is_none());
    assert!(card.phones.is_none());
    assert!(card.addresses.is_none());
    assert!(card.organizations.is_none());
    assert!(card.titles.is_none());
    assert!(card.notes.is_none());
}

#[test]
fn form_to_card_with_address() {
    let form = ContactFormData {
        street: "123 Main St".to_string(),
        city: "Denver".to_string(),
        state: "CO".to_string(),
        postal_code: "80202".to_string(),
        ..Default::default()
    };
    let card = form_to_jscontact(&form);
    let addrs = card.addresses.as_ref().unwrap();
    let addr = &addrs.iter().find(|(k, _)| k == "a1").unwrap().1;
    assert_eq!(addr.locality.as_deref(), Some("Denver"));
    assert_eq!(addr.region.as_deref(), Some("CO"));
}

#[test]
fn form_to_card_then_detail_keeps_names() {
    let form = ContactFormData {
        given_name: "Jane".to_string(),
        surname: "Doe".to_string(),
        ..Default::default()
    };
    let mut card = form_to_jscontact(&form);
    card.id = Some("c1".to_string());
    let detail = contact_card_to_detail(&card).unwrap();
    assert_eq!(detail.given_name, "Jane");
    assert_eq!(detail.surname, "Doe");
    assert_eq!(detail.full_name, "Jane Doe");
}

// --- titlecase_first ---

#[test]
fn titlecase_empty() {
    assert_eq!(titlecase_first(""), "");
}

#[test]
fn titlecase_lowercase() {
    assert_eq!(titlecase_first("work"), "Work");
}

#[test]
fn titlecase_already_upper() {
    assert_eq!(titlecase_first("Work"), "Work");
}

// --- a contact saved from the form comes back as entered ---

#[test]
fn contact_form_round_trip() {
    let form = ContactFormData {
        given_name: "  Ada ".to_string(),
        surname: "Lovelace".to_string(),
        email: " ada@example.com ".to_string(),
        phone: "+44 20 7946 0000".to_string(),
        organization: "Analytical Engines".to_string(),
        job_title: "Programmer".to_string(),
        notes: " First program ".to_string(),
        ..Default::default()
    };
    let mut card = form_to_jscontact(&form);
    card.id = Some("c1".to_string());
    let d = contact_card_to_detail(&card).unwrap();
    assert_eq!(d.full_name, "Ada Lovelace");
    assert_eq!(d.given_name, "Ada");
    assert_eq!(d.surname, "Lovelace");
    assert_eq!(d.organization, "Analytical Engines");
    assert_eq!(d.job_title, "Programmer");
    assert_eq!(d.notes, "First program");
    assert_eq!(d.emails.len(), 1);
    assert_eq!(d.emails[0].address, "ada@example.com");
    assert!(d.emails[0].is_preferred);
    assert_eq!(d.phones.len(), 1);
    assert_eq!(d.phones[0].number, "+44 20 7946 0000");
    assert!(d.phones[0].is_preferred);
}

#[test]
fn contact_form_round_trip_surname_only() {
    let form = ContactFormData { surname: "Hopper".to_string(), ..Default::default() };
    let mut card = form_to_jscontact(&form);
    card.id = Some("c2".to_string());
    let d = contact_card_to_detail(&card).unwrap();
    assert_eq!(d.full_name, "Hopper");
    assert_eq!(d.given_name, "");
    assert_eq!(d.surname, "Hopper");
    assert!(d.emails.is_empty());
    assert!(d.phones.is_empty());
}

#[test]
fn context_label_empty_exactly_without_a_set_context() {
    assert_eq!(context_label(&None), "");
    assert_eq!(context_label(&Some(vec![("home".to_string(), false)])), "");
    assert_eq!(context_label(&Some(vec![("home".to_string(), false), ("work".to_string(), true)])), "Work");
    assert_eq!(context_label(&Some(vec![("ß".to_string(), true)])), "SS");
}
