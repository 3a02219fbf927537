//! Contacts: JSContact cards and the views the interface shows of them.
//!
//! A JSON object keyed by identifiers (a map in the wire format) is held as a
//! vector of `(key, value)` pairs in the order in which the map is walked.

use vstd::prelude::*;

use crate::text::{
    chars_less, chars_lt, key_before, sort_order, lemma_chars_lt_irreflexive, lemma_chars_lt_total,
    lemma_chars_lt_transitive, lower_str, str_lower,
    alphabetic, ascii_upper, char_upper, clone_opt, clone_or_empty, extend, from_chars, is_alphabetic,
    join, join_chars, keep_nonempty, keep_nonempty_chars, opt_is, or_empty, ov, slice, str_upper,
    to_ascii_upper, to_chars, trim, trimmed, trim_string, upper_char, upper_str, views, is_ws,
    is_whitespace, titlecase, is_ascii_text, lemma_join_prepend, lemma_keep_nonempty_concat, ascii_lower_text, lemma_trim_ends, lemma_trim_nonempty, lemma_trim_twice,
};

pub use crate::ids::ContactId;

verus! {

// ---------------------------------------------------------------------------
// JSContact wire types
// ---------------------------------------------------------------------------

#[derive(Debug, Clone, Default)]
pub struct JsContactCard {
    pub id: Option<String>,
    pub card_type: Option<String>,
    pub version: Option<String>,
    pub uid: Option<String>,
    pub name: Option<ContactName>,
    pub emails: Option<Vec<(String, ContactEmail)>>,
    pub phones: Option<Vec<(String, ContactPhone)>>,
    pub addresses: Option<Vec<(String, ContactAddress)>>,
    pub organizations: Option<Vec<(String, ContactOrganization)>>,
    pub titles: Option<Vec<(String, ContactTitle)>>,
    pub notes: Option<Vec<(String, ContactNote)>>,
    pub address_book_ids: Option<Vec<(String, bool)>>,
}

#[derive(Debug, Clone, Default)]
pub struct ContactName {
    pub full: Option<String>,
    pub components: Option<Vec<NameComponent>>,
}

#[derive(Debug, Clone)]
pub struct NameComponent {
    pub value: String,
    pub kind: Option<String>,
}

#[derive(Debug, Clone)]
pub struct ContactEmail {
    pub address: String,
    pub contexts: Option<Vec<(String, bool)>>,
    pub pref: Option<u32>,
    pub label: Option<String>,
}

#[derive(Debug, Clone)]
pub struct ContactPhone {
    pub number: String,
    pub features: Option<Vec<(String, bool)>>,
    pub contexts: Option<Vec<(String, bool)>>,
    pub pref: Option<u32>,
    pub label: Option<String>,
}

#[derive(Debug, Clone)]
pub struct ContactAddress {
    pub street: Option<Vec<AddressComponent>>,
    pub locality: Option<String>,
    pub region: Option<String>,
    pub postcode: Option<String>,
    pub country: Option<String>,
    pub country_code: Option<String>,
    pub contexts: Option<Vec<(String, bool)>>,
}

#[derive(Debug, Clone)]
pub struct AddressComponent {
    pub value: String,
    pub kind: Option<String>,
}

#[derive(Debug, Clone)]
pub struct ContactOrganization {
    pub name: Option<String>,
    pub units: Option<Vec<OrgUnit>>,
}

#[derive(Debug, Clone)]
pub struct OrgUnit {
    pub name: String,
}

#[derive(Debug, Clone)]
pub struct ContactTitle {
    pub name: String,
    pub kind: Option<String>,
}

#[derive(Debug, Clone)]
pub struct ContactNote {
    pub note: String,
}

// ---------------------------------------------------------------------------
// View types
// ---------------------------------------------------------------------------

#[derive(Debug, Clone)]
pub struct ContactSummary {
    pub id: ContactId,
    pub full_name: String,
    pub primary_email: String,
}

#[derive(Debug, Clone)]
pub struct ContactDetail {
    pub id: ContactId,
    pub full_name: String,
    pub given_name: String,
    pub surname: String,
    pub emails: Vec<DisplayEmail>,
    pub phones: Vec<DisplayPhone>,
    pub addresses: Vec<DisplayAddress>,
    pub organization: String,
    pub job_title: String,
    pub notes: String,
}

#[derive(Debug, Clone)]
pub struct DisplayEmail {
    pub address: String,
    pub label: String,
    pub is_preferred: bool,
}

#[derive(Debug, Clone)]
pub struct DisplayPhone {
    pub number: String,
    pub label: String,
    pub is_preferred: bool,
}

#[derive(Debug, Clone)]
pub struct DisplayAddress {
    pub formatted: String,
    pub label: String,
}

#[derive(Debug, Clone)]
pub struct ContactGroup {
    pub letter: char,
    pub contacts: Vec<ContactSummary>,
}

/// The fields of the contact form, as submitted.
#[derive(Debug, Clone, Default)]
pub struct ContactFormData {
    pub given_name: String,
    pub surname: String,
    pub email: String,
    pub phone: String,
    pub organization: String,
    pub job_title: String,
    pub street: String,
    pub city: String,
    pub state: String,
    pub postal_code: String,
    pub country: String,
    pub notes: String,
}

// ---------------------------------------------------------------------------
// Specification
// ---------------------------------------------------------------------------

/// The values of the name components of kind `kind`, in order.
pub open spec fn component_values(cs: Seq<NameComponent>, kind: Seq<char>) -> Seq<Seq<char>>
    decreases cs.len(),
{
    if cs.len() == 0 {
        Seq::empty()
    } else {
        let prev = component_values(cs.drop_last(), kind);
        if ov(cs.last().kind) == Some(kind) {
            prev.push(cs.last().value@)
        } else {
            prev
        }
    }
}

/// The value of the first name component of kind `kind`, or nothing.
pub open spec fn first_component(cs: Seq<NameComponent>, kind: Seq<char>) -> Seq<char>
    decreases cs.len(),
{
    if cs.len() == 0 {
        Seq::empty()
    } else if ov(cs[0].kind) == Some(kind) {
        cs[0].value@
    } else {
        first_component(cs.drop_first(), kind)
    }
}

/// The full name shown for a card: the trimmed `full` name if it is not
/// empty, else the given names and the surnames, each joined by spaces.
pub open spec fn full_name_of(card: JsContactCard) -> Seq<char> {
    match card.name {
        None => Seq::empty(),
        Some(n) => {
            let full = trim(or_empty(n.full));
            if full.len() > 0 {
                full
            } else {
                match n.components {
                    None => Seq::empty(),
                    Some(cs) => trim(
                        join(component_values(cs@, "given"@), " "@) + " "@ + join(
                            component_values(cs@, "surname"@),
                            " "@,
                        ),
                    ),
                }
            }
        },
    }
}

/// The value of the first name component of kind `kind` on the card.
pub open spec fn name_part_of(card: JsContactCard, kind: Seq<char>) -> Seq<char> {
    match card.name {
        Some(n) => match n.components {
            Some(cs) => first_component(cs@, kind),
            None => Seq::empty(),
        },
        None => Seq::empty(),
    }
}

/// The label of the first context whose flag is set.
pub open spec fn first_context_label(es: Seq<(String, bool)>) -> Seq<char>
    decreases es.len(),
{
    if es.len() == 0 {
        Seq::empty()
    } else if es[0].1 {
        titlecase(es[0].0@)
    } else {
        first_context_label(es.drop_first())
    }
}

/// The key of the first context whose flag is set, or nothing.
pub open spec fn first_context_key(es: Seq<(String, bool)>) -> Seq<char>
    decreases es.len(),
{
    if es.len() == 0 {
        Seq::empty()
    } else if es[0].1 {
        es[0].0@
    } else {
        first_context_key(es.drop_first())
    }
}

/// The key of the first context whose flag is set, or nothing.
pub open spec fn context_key_of(contexts: Option<Vec<(String, bool)>>) -> Seq<char> {
    match contexts {
        Some(es) => first_context_key(es@),
        None => Seq::empty(),
    }
}

pub open spec fn context_label_of(contexts: Option<Vec<(String, bool)>>) -> Seq<char> {
    match contexts {
        Some(es) => first_context_label(es@),
        None => Seq::empty(),
    }
}

/// The rank of an address: its `pref`, or the largest `u32` without one.
pub open spec fn pref_rank(p: Option<u32>) -> u32 {
    match p {
        Some(v) => v,
        None => u32::MAX,
    }
}

/// The position of the first address of least rank (`Iterator::min_by_key`).
pub open spec fn best_email(es: Seq<(String, ContactEmail)>) -> int
    decreases es.len(),
{
    if es.len() <= 1 {
        0
    } else {
        let b = best_email(es.drop_last());
        if pref_rank(es.last().1.pref) < pref_rank(es[b].1.pref) {
            es.len() - 1
        } else {
            b
        }
    }
}

/// The position picked among addresses is that of the first address whose
/// rank is least: no address ranks lower, and every one before it ranks higher.
pub proof fn lemma_best_email_least(es: Seq<(String, ContactEmail)>)
    requires
        es.len() > 0,
    ensures
        0 <= best_email(es) < es.len(),
        forall|j: int| 0 <= j < es.len() ==> pref_rank(es[best_email(es)].1.pref) <= pref_rank(#[trigger] es[j].1.pref),
        forall|j: int| 0 <= j < best_email(es) ==> pref_rank(#[trigger] es[j].1.pref) > pref_rank(es[best_email(es)].1.pref),
    decreases es.len(),
{
    if es.len() > 1 {
        let init = es.drop_last();
        lemma_best_email_least(init);
        let b = best_email(init);
        assert(es[b] == init[b]);
        assert forall|j: int| 0 <= j < init.len() implies #[trigger] es[j] == init[j] by {}
        assert(es.last() == es[es.len() - 1]);
    }
}

/// The primary address is that of an entry whose `pref` rank is no greater
/// than that of any entry, the first such entry (an entry without `pref`
/// ranks as the largest `u32`).
pub proof fn lemma_primary_email_least_pref(emails: Vec<(String, ContactEmail)>)
    requires
        emails@.len() > 0,
    ensures
        exists|k: int|
            0 <= k < emails@.len() && primary_email_of(Some(emails)) == #[trigger] emails@[k].1.address@
                && (forall|j: int| 0 <= j < emails@.len() ==> pref_rank(emails@[k].1.pref) <= pref_rank(#[trigger] emails@[j].1.pref))
                && (forall|j: int| 0 <= j < k ==> pref_rank(#[trigger] emails@[j].1.pref) > pref_rank(emails@[k].1.pref)),
{
    lemma_best_email_least(emails@);
    let k = best_email(emails@);
    assert(primary_email_of(Some(emails)) == emails@[k].1.address@);
}

pub open spec fn primary_email_of(emails: Option<Vec<(String, ContactEmail)>>) -> Seq<char> {
    match emails {
        Some(es) => if es@.len() > 0 {
            es@[best_email(es@)].1.address@
        } else {
            Seq::empty()
        },
        None => Seq::empty(),
    }
}

pub open spec fn first_org_name(es: Seq<(String, ContactOrganization)>) -> Seq<char>
    decreases es.len(),
{
    if es.len() == 0 {
        Seq::empty()
    } else {
        match es[0].1.name {
            Some(n) => n@,
            None => first_org_name(es.drop_first()),
        }
    }
}

pub open spec fn organization_of(orgs: Option<Vec<(String, ContactOrganization)>>) -> Seq<char> {
    match orgs {
        Some(es) => first_org_name(es@),
        None => Seq::empty(),
    }
}

/// The name of the first title whose kind is not `role`.
pub open spec fn first_non_role(es: Seq<(String, ContactTitle)>) -> Option<Seq<char>>
    decreases es.len(),
{
    if es.len() == 0 {
        None
    } else if ov(es[0].1.kind) != Some("role"@) {
        Some(es[0].1.name@)
    } else {
        first_non_role(es.drop_first())
    }
}

pub open spec fn job_title_of(titles: Option<Vec<(String, ContactTitle)>>) -> Seq<char> {
    match titles {
        Some(es) => match first_non_role(es@) {
            Some(n) => n,
            None => if es@.len() > 0 {
                es@[0].1.name@
            } else {
                Seq::empty()
            },
        },
        None => Seq::empty(),
    }
}

pub open spec fn note_texts(es: Seq<(String, ContactNote)>) -> Seq<Seq<char>> {
    es.map_values(|e: (String, ContactNote)| e.1.note@)
}

pub open spec fn notes_of(notes: Option<Vec<(String, ContactNote)>>) -> Seq<char> {
    match notes {
        Some(es) => join(note_texts(es@), "\n"@),
        None => Seq::empty(),
    }
}

pub open spec fn street_values(parts: Seq<AddressComponent>) -> Seq<Seq<char>> {
    parts.map_values(|p: AddressComponent| p.value@)
}

/// The street parts of an address joined by `", "`.
pub open spec fn street_line(a: ContactAddress) -> Seq<char> {
    match a.street {
        Some(parts) => join(street_values(parts@), ", "@),
        None => Seq::empty(),
    }
}

/// The street components of an address stand first on its line, all of
/// them and in their order, their values joined by `", "`; then, where any
/// of locality, region, postcode and country is non-empty, `", "` and those
/// that are, joined by `", "`.
pub proof fn lemma_address_line(a: ContactAddress)
    ensures
        ({
            let street = match a.street {
                Some(ps) => join(ps@.map_values(|p: AddressComponent| p.value@), ", "@),
                None => Seq::empty(),
            };
            let rest = keep_nonempty(
                seq![or_empty(a.locality), or_empty(a.region), or_empty(a.postcode), or_empty(a.country)],
            );
            format_address_of(a) == if street.len() == 0 {
                join(rest, ", "@)
            } else if rest.len() == 0 {
                street
            } else {
                street + ", "@ + join(rest, ", "@)
            }
        }),
{
    let street = street_line(a);
    let tail = seq![or_empty(a.locality), or_empty(a.region), or_empty(a.postcode), or_empty(a.country)];
    let rest = keep_nonempty(tail);
    assert(seq![street, or_empty(a.locality), or_empty(a.region), or_empty(a.postcode), or_empty(a.country)]
        =~= seq![street] + tail);
    lemma_keep_nonempty_concat(seq![street], tail);
    let first = keep_nonempty(seq![street]);
    assert(seq![street].drop_last() =~= Seq::<Seq<char>>::empty());
    assert(keep_nonempty(Seq::<Seq<char>>::empty()) =~= Seq::<Seq<char>>::empty());
    if street.len() > 0 {
        assert(first =~= seq![street]);
        lemma_join_prepend(street, rest, ", "@);
    } else {
        assert(first =~= Seq::<Seq<char>>::empty());
        assert(first + rest =~= rest);
    }
}

/// An address on one line: street parts, locality, region, postcode and
/// country, the non-empty ones joined by `", "`.
pub open spec fn format_address_of(a: ContactAddress) -> Seq<char> {
    join(
        keep_nonempty(
            seq![
                street_line(a),
                or_empty(a.locality),
                or_empty(a.region),
                or_empty(a.postcode),
                or_empty(a.country),
            ],
        ),
        ", "@,
    )
}

pub open spec fn email_preferred(e: (String, ContactEmail)) -> bool {
    e.1.pref == Some(1u32)
}

pub open spec fn phone_preferred(e: (String, ContactPhone)) -> bool {
    e.1.pref == Some(1u32)
}

/// The addresses in display order: preferred ones first, each part in map order.
pub open spec fn email_order(es: Seq<(String, ContactEmail)>) -> Seq<(String, ContactEmail)> {
    es.filter(|e: (String, ContactEmail)| email_preferred(e)) + es.filter(
        |e: (String, ContactEmail)| !email_preferred(e),
    )
}

pub open spec fn phone_order(es: Seq<(String, ContactPhone)>) -> Seq<(String, ContactPhone)> {
    es.filter(|e: (String, ContactPhone)| phone_preferred(e)) + es.filter(
        |e: (String, ContactPhone)| !phone_preferred(e),
    )
}

pub open spec fn shows_email(d: DisplayEmail, e: (String, ContactEmail)) -> bool {
    &&& d.address@ == e.1.address@
    &&& d.label@ == context_label_of(e.1.contexts)
    &&& d.is_preferred == email_preferred(e)
}

pub open spec fn shows_phone(d: DisplayPhone, e: (String, ContactPhone)) -> bool {
    &&& d.number@ == e.1.number@
    &&& d.label@ == context_label_of(e.1.contexts)
    &&& d.is_preferred == phone_preferred(e)
}

pub open spec fn address_shown(e: (String, ContactAddress)) -> bool {
    format_address_of(e.1).len() > 0
}

pub open spec fn shows_address(d: DisplayAddress, e: (String, ContactAddress)) -> bool {
    &&& d.formatted@ == format_address_of(e.1)
    &&& d.label@ == context_label_of(e.1.contexts)
}

pub open spec fn email_list_of(
    emails: Option<Vec<(String, ContactEmail)>>,
) -> Seq<(String, ContactEmail)> {
    match emails {
        Some(es) => email_order(es@),
        None => Seq::empty(),
    }
}

pub open spec fn phone_list_of(phones: Option<Vec<(String, ContactPhone)>>) -> Seq<(String, ContactPhone)> {
    match phones {
        Some(es) => phone_order(es@),
        None => Seq::empty(),
    }
}

pub open spec fn address_list_of(
    addresses: Option<Vec<(String, ContactAddress)>>,
) -> Seq<(String, ContactAddress)> {
    match addresses {
        Some(es) => es@.filter(|e: (String, ContactAddress)| address_shown(e)),
        None => Seq::empty(),
    }
}

pub open spec fn summary_of(card: JsContactCard, s: ContactSummary) -> bool {
    &&& card.id matches Some(id) && s.id@ == id@
    &&& s.full_name@ == full_name_of(card)
    &&& s.primary_email@ == primary_email_of(card.emails)
}

pub open spec fn detail_of(card: JsContactCard, d: ContactDetail) -> bool {
    &&& card.id matches Some(id) && d.id@ == id@
    &&& d.full_name@ == full_name_of(card)
    &&& d.given_name@ == name_part_of(card, "given"@)
    &&& d.surname@ == name_part_of(card, "surname"@)
    &&& d.emails@.len() == email_list_of(card.emails).len()
    &&& forall|i: int|
        0 <= i < d.emails@.len() ==> shows_email(#[trigger] d.emails@[i], email_list_of(card.emails)[i])
    &&& d.phones@.len() == phone_list_of(card.phones).len()
    &&& forall|i: int|
        0 <= i < d.phones@.len() ==> shows_phone(#[trigger] d.phones@[i], phone_list_of(card.phones)[i])
    &&& d.addresses@.len() == address_list_of(card.addresses).len()
    &&& forall|i: int|
        0 <= i < d.addresses@.len() ==> shows_address(
            #[trigger] d.addresses@[i],
            address_list_of(card.addresses)[i],
        )
    &&& d.organization@ == organization_of(card.organizations)
    &&& d.job_title@ == job_title_of(card.titles)
    &&& d.notes@ == notes_of(card.notes)
}

/// The first character of each white-space separated word of `s`.
pub open spec fn word_initials(s: Seq<char>) -> Seq<char>
    decreases s.len(),
{
    if s.len() == 0 {
        Seq::empty()
    } else {
        let i = s.len() - 1;
        let prev = word_initials(s.drop_last());
        if !is_ws(s[i]) && (i == 0 || is_ws(s[i - 1])) {
            prev.push(s[i])
        } else {
            prev
        }
    }
}

/// The initials of a name: the first characters of its first two words, in upper case.
pub open spec fn initials_of(name: Seq<char>) -> Seq<char> {
    let w = word_initials(name);
    str_upper(
        if w.len() < 2 {
            w
        } else {
            w.take(2)
        },
    )
}

/// The first characters of the first two words of a name, as they stand.
pub open spec fn leading_initials(name: Seq<char>) -> Seq<char> {
    let w = word_initials(name);
    w.take(if w.len() < 2 {
        w.len() as int
    } else {
        2
    })
}

/// Each initial of a name is one of its characters, so the initials of an
/// ASCII name are ASCII.
pub proof fn lemma_word_initials_ascii(s: Seq<char>)
    requires
        is_ascii_text(s),
    ensures
        is_ascii_text(word_initials(s)),
    decreases s.len(),
{
    if s.len() > 0 {
        assert(is_ascii_text(s.drop_last())) by {
            assert forall|i: int| 0 <= i < s.drop_last().len() implies (#[trigger] s.drop_last()[i] as u32) < 128 by {
                assert(s.drop_last()[i] == s[i]);
            }
        }
        lemma_word_initials_ascii(s.drop_last());
        let prev = word_initials(s.drop_last());
        assert((s[s.len() - 1] as u32) < 128);
        assert(is_ascii_text(prev.push(s[s.len() - 1]))) by {
            assert forall|i: int| 0 <= i < prev.push(s[s.len() - 1]).len() implies (#[trigger] prev.push(s[s.len() - 1])[i] as u32) < 128 by {
                if i < prev.len() {
                    assert(prev.push(s[s.len() - 1])[i] == prev[i]);
                }
            }
        }
    }
}

/// The first alphabetic character of `s`.
pub open spec fn first_alphabetic(s: Seq<char>) -> Option<char>
    decreases s.len(),
{
    if s.len() == 0 {
        None
    } else if alphabetic(s[0]) {
        Some(s[0])
    } else {
        first_alphabetic(s.drop_first())
    }
}

/// The letter a name is filed under: its first alphabetic character in
/// ASCII upper case, or `#` where it has none.
pub open spec fn sort_letter_of(name: Seq<char>) -> char {
    match first_alphabetic(name) {
        Some(c) => ascii_upper(c),
        None => '#',
    }
}

// ---------------------------------------------------------------------------
// Names and labels
// ---------------------------------------------------------------------------

fn word_initial_chars(v: &Vec<char>) -> (r: Vec<char>)
    ensures
        r@ == word_initials(v@),
{
    let mut r: Vec<char> = Vec::new();
    let mut i: usize = 0;
    while i < v.len()
        invariant
            i <= v@.len(),
            r@ == word_initials(v@.take(i as int)),
        decreases v@.len() - i,
    {
        let ghost t = v@.take(i + 1);
        assert(t.drop_last() =~= v@.take(i as int));
        if !is_whitespace(v[i]) && (i == 0 || is_whitespace(v[i - 1])) {
            r.push(v[i]);
        }
        i = i + 1;
    }
    assert(v@.take(v@.len() as int) =~= v@);
    r
}

fn initials_from(name: &String) -> (r: String)
    ensures
        r@ == initials_of(name@),
        r@ == str_upper(leading_initials(name@)),
        is_ascii_text(name@) ==> r@.len() == leading_initials(name@).len(),
        is_ascii_text(name@) ==> forall|i: int|
            0 <= i < r@.len() ==> #[trigger] r@[i] == ascii_upper(leading_initials(name@)[i]),
{
    let v = to_chars(name.as_str());
    let w = word_initial_chars(&v);
    let n: usize = if w.len() < 2 {
        w.len()
    } else {
        2
    };
    let first_two = slice(&w, 0, n);
    assert(w@.subrange(0, n as int) =~= (if w@.len() < 2 {
        w@
    } else {
        w@.take(2)
    }));
    let s = from_chars(&first_two);
    proof {
        if is_ascii_text(name@) {
            lemma_word_initials_ascii(name@);
            assert forall|i: int| 0 <= i < s@.len() implies (#[trigger] s@[i] as u32) < 128 by {
                assert(s@[i] == w@[i]);
            }
        }
    }
    upper_str(s.as_str())
}

#[verifier::loop_isolation(false)]
fn sort_letter_from(name: &String) -> (r: char)
    ensures
        r == sort_letter_of(name@),
{
    let v = to_chars(name.as_str());
    let n = v.len();
    let mut i: usize = 0;
    assert(v@.subrange(0, n as int) =~= v@);
    while i < n
        invariant
            n == v@.len(),
            i <= n,
            first_alphabetic(v@) == first_alphabetic(v@.subrange(i as int, n as int)),
        decreases n - i,
    {
        assert(v@.subrange(i as int, n as int)[0] == v@[i as int]);
        if is_alphabetic(v[i]) {
            return to_ascii_upper(v[i]);
        }
        assert(v@.subrange(i as int, n as int).drop_first() =~= v@.subrange(i + 1, n as int));
        i = i + 1;
    }
    '#'
}

impl ContactSummary {
    /// The first characters of the first two words of the name, in upper case.
    pub fn initials(&self) -> (r: String)
        ensures
            r@ == initials_of(self.full_name@),
            r@ == str_upper(leading_initials(self.full_name@)),
            is_ascii_text(self.full_name@) ==> r@.len() == leading_initials(self.full_name@).len(),
            is_ascii_text(self.full_name@) ==> forall|i: int|
                0 <= i < r@.len() ==> #[trigger] r@[i] == ascii_upper(leading_initials(self.full_name@)[i]),
    {
        initials_from(&self.full_name)
    }

    /// The letter under which the contact is listed.
    pub fn sort_letter(&self) -> (r: char)
        ensures
            r == sort_letter_of(self.full_name@),
    {
        sort_letter_from(&self.full_name)
    }
}

impl ContactDetail {
    /// The first characters of the first two words of the name, in upper case.
    pub fn initials(&self) -> (r: String)
        ensures
            r@ == initials_of(self.full_name@),
            r@ == str_upper(leading_initials(self.full_name@)),
            is_ascii_text(self.full_name@) ==> r@.len() == leading_initials(self.full_name@).len(),
            is_ascii_text(self.full_name@) ==> forall|i: int|
                0 <= i < r@.len() ==> #[trigger] r@[i] == ascii_upper(leading_initials(self.full_name@)[i]),
    {
        initials_from(&self.full_name)
    }
}

/// `s` with its first character in upper case.
pub fn titlecase_first(s: &str) -> (r: String)
    ensures
        r@ == titlecase(s@),
        r@.len() == 0 <==> s@.len() == 0,
{
    let v = to_chars(s);
    if v.len() == 0 {
        return String::new();
    }
    let mut r = upper_char(v[0]);
    let rest = slice(&v, 1, v.len());
    let rest_s = from_chars(&rest);
    r.append(rest_s.as_str());
    assert(v@.subrange(1, v@.len() as int) =~= v@.drop_first());
    r
}

/// The label of the first context whose flag is set, its first letter in upper case.
#[verifier::loop_isolation(false)]
pub fn context_label(contexts: &Option<Vec<(String, bool)>>) -> (r: String)
    ensures
        r@ == context_label_of(*contexts),
        r@ == titlecase(context_key_of(*contexts)),
        r@.len() == 0 <==> context_key_of(*contexts).len() == 0,
{
    match contexts {
        None => String::new(),
        Some(es) => {
            let n = es.len();
            let mut i: usize = 0;
            assert(es@.subrange(0, n as int) =~= es@);
            while i < n
                invariant
                    n == es@.len(),
                    i <= n,
                    first_context_label(es@) == first_context_label(es@.subrange(i as int, n as int)),
                    first_context_key(es@) == first_context_key(es@.subrange(i as int, n as int)),
                decreases n - i,
            {
                assert(es@.subrange(i as int, n as int)[0] == es@[i as int]);
                if es[i].1 {
                    return titlecase_first(es[i].0.as_str());
                }
                assert(es@.subrange(i as int, n as int).drop_first() =~= es@.subrange(i + 1, n as int));
                i = i + 1;
            }
            String::new()
        },
    }
}

fn components_of_kind(cs: &Vec<NameComponent>, kind: &str) -> (r: Vec<Vec<char>>)
    ensures
        views(r@) == component_values(cs@, kind@),
{
    let mut r: Vec<Vec<char>> = Vec::new();
    let mut i: usize = 0;
    while i < cs.len()
        invariant
            i <= cs@.len(),
            views(r@) == component_values(cs@.take(i as int), kind@),
        decreases cs@.len() - i,
    {
        let ghost before = r@;
        assert(cs@.take(i + 1).drop_last() =~= cs@.take(i as int));
        if opt_is(&cs[i].kind, kind) {
            r.push(to_chars(cs[i].value.as_str()));
            assert(views(r@) =~= views(before).push(cs@[i as int].value@));
        }
        i = i + 1;
    }
    assert(cs@.take(cs@.len() as int) =~= cs@);
    r
}

fn first_of_kind(cs: &Vec<NameComponent>, kind: &str) -> (r: String)
    ensures
        r@ == first_component(cs@, kind@),
{
    let n = cs.len();
    let mut i: usize = 0;
    assert(cs@.subrange(0, n as int) =~= cs@);
    while i < n
        invariant
            n == cs@.len(),
            i <= n,
            first_component(cs@, kind@) == first_component(cs@.subrange(i as int, n as int), kind@),
        decreases n - i,
    {
        assert(cs@.subrange(i as int, n as int)[0] == cs@[i as int]);
        if opt_is(&cs[i].kind, kind) {
            return cs[i].value.clone();
        }
        assert(cs@.subrange(i as int, n as int).drop_first() =~= cs@.subrange(i + 1, n as int));
        i = i + 1;
    }
    String::new()
}

/// The name shown for a card.
pub fn extract_full_name(card: &JsContactCard) -> (r: String)
    ensures
        r@ == full_name_of(*card),
{
    match &card.name {
        None => String::new(),
        Some(name) => {
            if let Some(full) = &name.full {
                let t = trimmed(full.as_str());
                if t.len() > 0 {
                    return from_chars(&t);
                }
            }
            proof {
                if name.full is None {
                    assert(trim(Seq::<char>::empty()) =~= Seq::<char>::empty());
                }
            }
            match &name.components {
                None => String::new(),
                Some(cs) => {
                    let given = components_of_kind(cs, "given");
                    let surnames = components_of_kind(cs, "surname");
                    let space = to_chars(" ");
                    let mut all = join_chars(&given, &space);
                    extend(&mut all, &space);
                    let s = join_chars(&surnames, &space);
                    extend(&mut all, &s);
                    let t = crate::text::trim_chars(&all);
                    from_chars(&t)
                },
            }
        },
    }
}

fn extract_given_name(card: &JsContactCard) -> (r: String)
    ensures
        r@ == name_part_of(*card, "given"@),
{
    match &card.name {
        Some(n) => match &n.components {
            Some(cs) => first_of_kind(cs, "given"),
            None => String::new(),
        },
        None => String::new(),
    }
}

fn extract_surname(card: &JsContactCard) -> (r: String)
    ensures
        r@ == name_part_of(*card, "surname"@),
{
    match &card.name {
        Some(n) => match &n.components {
            Some(cs) => first_of_kind(cs, "surname"),
            None => String::new(),
        },
        None => String::new(),
    }
}

// ---------------------------------------------------------------------------
// Emails, organizations, titles, notes, addresses
// ---------------------------------------------------------------------------

/// The address of the first email of least `pref`, or an empty string.
pub fn extract_primary_email(emails: &Option<Vec<(String, ContactEmail)>>) -> (r: String)
    ensures
        r@ == primary_email_of(*emails),
        (match *emails {
            Some(es) => es@.len() > 0 ==> exists|k: int|
                0 <= k < es@.len() && r@ == #[trigger] es@[k].1.address@
                    && (forall|j: int| 0 <= j < es@.len() ==> pref_rank(es@[k].1.pref) <= pref_rank(#[trigger] es@[j].1.pref))
                    && (forall|j: int| 0 <= j < k ==> pref_rank(#[trigger] es@[j].1.pref) > pref_rank(es@[k].1.pref)),
            None => true,
        }),
{
    match emails {
        None => String::new(),
        Some(es) => {
            if es.len() == 0 {
                return String::new();
            }
            let mut best: usize = 0;
            let mut i: usize = 1;
            assert(es@.take(1).len() == 1);
            while i < es.len()
                invariant
                    1 <= i <= es@.len(),
                    best < i,
                    best as int == best_email(es@.take(i as int)),
                decreases es@.len() - i,
            {
                let ghost t = es@.take(i + 1);
                assert(t.drop_last() =~= es@.take(i as int));
                assert(t[best as int] == es@[best as int]);
                let rank_i: u32 = match es[i].1.pref {
                    Some(p) => p,
                    None => u32::MAX,
                };
                let rank_b: u32 = match es[best].1.pref {
                    Some(p) => p,
                    None => u32::MAX,
                };
                if rank_i < rank_b {
                    best = i;
                }
                i = i + 1;
            }
            assert(es@.take(es@.len() as int) =~= es@);
            proof {
                lemma_primary_email_least_pref(*es);
            }
            es[best].1.address.clone()
        },
    }
}

/// The name of the first organization that has one, or an empty string.
#[verifier::loop_isolation(false)]
pub fn extract_organization(orgs: &Option<Vec<(String, ContactOrganization)>>) -> (r: String)
    ensures
        r@ == organization_of(*orgs),
{
    match orgs {
        None => String::new(),
        Some(es) => {
            let n = es.len();
            let mut i: usize = 0;
            assert(es@.subrange(0, n as int) =~= es@);
            while i < n
                invariant
                    n == es@.len(),
                    i <= n,
                    first_org_name(es@) == first_org_name(es@.subrange(i as int, n as int)),
                decreases n - i,
            {
                assert(es@.subrange(i as int, n as int)[0] == es@[i as int]);
                if let Some(name) = &es[i].1.name {
                    return name.clone();
                }
                assert(es@.subrange(i as int, n as int).drop_first() =~= es@.subrange(i + 1, n as int));
                i = i + 1;
            }
            String::new()
        },
    }
}

#[verifier::loop_isolation(false)]
fn extract_job_title(titles: &Option<Vec<(String, ContactTitle)>>) -> (r: String)
    ensures
        r@ == job_title_of(*titles),
{
    match titles {
        None => String::new(),
        Some(es) => {
            let n = es.len();
            let mut i: usize = 0;
            assert(es@.subrange(0, n as int) =~= es@);
            while i < n
                invariant
                    n == es@.len(),
                    i <= n,
                    first_non_role(es@) == first_non_role(es@.subrange(i as int, n as int)),
                decreases n - i,
            {
                assert(es@.subrange(i as int, n as int)[0] == es@[i as int]);
                if !opt_is(&es[i].1.kind, "role") {
                    return es[i].1.name.clone();
                }
                assert(es@.subrange(i as int, n as int).drop_first() =~= es@.subrange(i + 1, n as int));
                i = i + 1;
            }
            if n > 0 {
                es[0].1.name.clone()
            } else {
                String::new()
            }
        },
    }
}

fn extract_notes(notes: &Option<Vec<(String, ContactNote)>>) -> (r: String)
    ensures
        r@ == notes_of(*notes),
{
    match notes {
        None => String::new(),
        Some(es) => {
            let mut parts: Vec<Vec<char>> = Vec::new();
            let mut i: usize = 0;
            while i < es.len()
                invariant
                    i <= es@.len(),
                    views(parts@) == note_texts(es@.take(i as int)),
                decreases es@.len() - i,
            {
                let ghost before = parts@;
                parts.push(to_chars(es[i].1.note.as_str()));
                assert(views(parts@) =~= views(before).push(es@[i as int].1.note@));
                assert(es@.take(i + 1) =~= es@.take(i as int).push(es@[i as int]));
                assert(note_texts(es@.take(i + 1)) =~= note_texts(es@.take(i as int)).push(
                    es@[i as int].1.note@,
                ));
                i = i + 1;
            }
            assert(es@.take(es@.len() as int) =~= es@);
            let sep = to_chars("\n");
            let j = join_chars(&parts, &sep);
            from_chars(&j)
        },
    }
}

/// The address on one line, its non-empty parts joined by `", "`.
pub fn format_address(addr: &ContactAddress) -> (r: String)
    ensures
        r@ == format_address_of(*addr),
{
    let comma = to_chars(", ");
    let street: Vec<char> = match &addr.street {
        Some(parts) => {
            let mut vs: Vec<Vec<char>> = Vec::new();
            let mut i: usize = 0;
            while i < parts.len()
                invariant
                    i <= parts@.len(),
                    views(vs@) == street_values(parts@.take(i as int)),
                decreases parts@.len() - i,
            {
                let ghost before = vs@;
                vs.push(to_chars(parts[i].value.as_str()));
                assert(views(vs@) =~= views(before).push(parts@[i as int].value@));
                assert(parts@.take(i + 1) =~= parts@.take(i as int).push(parts@[i as int]));
                assert(street_values(parts@.take(i + 1)) =~= street_values(
                    parts@.take(i as int),
                ).push(parts@[i as int].value@));
                i = i + 1;
            }
            assert(parts@.take(parts@.len() as int) =~= parts@);
            join_chars(&vs, &comma)
        },
        None => Vec::new(),
    };
    let mut all: Vec<Vec<char>> = Vec::new();
    all.push(street);
    all.push(to_chars(clone_or_empty(&addr.locality).as_str()));
    all.push(to_chars(clone_or_empty(&addr.region).as_str()));
    all.push(to_chars(clone_or_empty(&addr.postcode).as_str()));
    all.push(to_chars(clone_or_empty(&addr.country).as_str()));
    let kept = keep_nonempty_chars(&all);
    proof {
        let expected = seq![
            street_line(*addr),
            or_empty(addr.locality),
            or_empty(addr.region),
            or_empty(addr.postcode),
            or_empty(addr.country),
        ];
        assert(views(all@) =~= expected);
    }
    let j = join_chars(&kept, &comma);
    from_chars(&j)
}

fn build_display_emails(emails: &Option<Vec<(String, ContactEmail)>>) -> (r: Vec<DisplayEmail>)
    ensures
        r@.len() == email_list_of(*emails).len(),
        forall|i: int| 0 <= i < r@.len() ==> shows_email(#[trigger] r@[i], email_list_of(*emails)[i]),
{
    match emails {
        None => Vec::new(),
        Some(es) => {
            let ghost p = |e: (String, ContactEmail)| email_preferred(e);
            let ghost q = |e: (String, ContactEmail)| !email_preferred(e);
            let mut first: Vec<DisplayEmail> = Vec::new();
            let mut rest: Vec<DisplayEmail> = Vec::new();
            let mut i: usize = 0;
            while i < es.len()
                invariant
                    i <= es@.len(),
                    p == (|e: (String, ContactEmail)| email_preferred(e)),
                    q == (|e: (String, ContactEmail)| !email_preferred(e)),
                    first@.len() == es@.take(i as int).filter(p).len(),
                    rest@.len() == es@.take(i as int).filter(q).len(),
                    forall|k: int|
                        0 <= k < first@.len() ==> shows_email(
                            #[trigger] first@[k],
                            es@.take(i as int).filter(p)[k],
                        ),
                    forall|k: int|
                        0 <= k < rest@.len() ==> shows_email(
                            #[trigger] rest@[k],
                            es@.take(i as int).filter(q)[k],
                        ),
                decreases es@.len() - i,
            {
                let e = &es[i];
                let pref = match e.1.pref {
                    Some(v) => v == 1,
                    None => false,
                };
                let d = DisplayEmail {
                    address: e.1.address.clone(),
                    label: context_label(&e.1.contexts),
                    is_preferred: pref,
                };
                proof {
                    assert(es@.take(i + 1) =~= es@.take(i as int).push(es@[i as int]));
                    es@.take(i as int).lemma_filter_push(es@[i as int], p);
                    es@.take(i as int).lemma_filter_push(es@[i as int], q);
                }
                if pref {
                    first.push(d);
                } else {
                    rest.push(d);
                }
                i = i + 1;
            }
            assert(es@.take(es@.len() as int) =~= es@);
            let ghost f = first@;
            let ghost g = rest@;
            let mut out = first;
            let mut rest2 = rest;
            out.append(&mut rest2);
            assert(out@ =~= f + g);
            out
        },
    }
}

fn build_display_phones(phones: &Option<Vec<(String, ContactPhone)>>) -> (r: Vec<DisplayPhone>)
    ensures
        r@.len() == phone_list_of(*phones).len(),
        forall|i: int| 0 <= i < r@.len() ==> shows_phone(#[trigger] r@[i], phone_list_of(*phones)[i]),
{
    match phones {
        None => Vec::new(),
        Some(es) => {
            let ghost p = |e: (String, ContactPhone)| phone_preferred(e);
            let ghost q = |e: (String, ContactPhone)| !phone_preferred(e);
            let mut first: Vec<DisplayPhone> = Vec::new();
            let mut rest: Vec<DisplayPhone> = Vec::new();
            let mut i: usize = 0;
            while i < es.len()
                invariant
                    i <= es@.len(),
                    p == (|e: (String, ContactPhone)| phone_preferred(e)),
                    q == (|e: (String, ContactPhone)| !phone_preferred(e)),
                    first@.len() == es@.take(i as int).filter(p).len(),
                    rest@.len() == es@.take(i as int).filter(q).len(),
                    forall|k: int|
                        0 <= k < first@.len() ==> shows_phone(
                            #[trigger] first@[k],
                            es@.take(i as int).filter(p)[k],
                        ),
                    forall|k: int|
                        0 <= k < rest@.len() ==> shows_phone(
                            #[trigger] rest@[k],
                            es@.take(i as int).filter(q)[k],
                        ),
                decreases es@.len() - i,
            {
                let e = &es[i];
                let pref = match e.1.pref {
                    Some(v) => v == 1,
                    None => false,
                };
                let d = DisplayPhone {
                    number: e.1.number.clone(),
                    label: context_label(&e.1.contexts),
                    is_preferred: pref,
                };
                proof {
                    assert(es@.take(i + 1) =~= es@.take(i as int).push(es@[i as int]));
                    es@.take(i as int).lemma_filter_push(es@[i as int], p);
                    es@.take(i as int).lemma_filter_push(es@[i as int], q);
                }
                if pref {
                    first.push(d);
                } else {
                    rest.push(d);
                }
                i = i + 1;
            }
            assert(es@.take(es@.len() as int) =~= es@);
            let ghost f = first@;
            let ghost g = rest@;
            let mut out = first;
            let mut rest2 = rest;
            out.append(&mut rest2);
            assert(out@ =~= f + g);
            out
        },
    }
}

fn build_display_addresses(
    addresses: &Option<Vec<(String, ContactAddress)>>,
) -> (r: Vec<DisplayAddress>)
    ensures
        r@.len() == address_list_of(*addresses).len(),
        forall|i: int|
            0 <= i < r@.len() ==> shows_address(#[trigger] r@[i], address_list_of(*addresses)[i]),
{
    match addresses {
        None => Vec::new(),
        Some(es) => {
            let ghost p = |e: (String, ContactAddress)| address_shown(e);
            let mut out: Vec<DisplayAddress> = Vec::new();
            let mut i: usize = 0;
            while i < es.len()
                invariant
                    i <= es@.len(),
                    p == (|e: (String, ContactAddress)| address_shown(e)),
                    out@.len() == es@.take(i as int).filter(p).len(),
                    forall|k: int|
                        0 <= k < out@.len() ==> shows_address(
                            #[trigger] out@[k],
                            es@.take(i as int).filter(p)[k],
                        ),
                decreases es@.len() - i,
            {
                let formatted = format_address(&es[i].1);
                let label = context_label(&es[i].1.contexts);
                proof {
                    assert(es@.take(i + 1) =~= es@.take(i as int).push(es@[i as int]));
                    es@.take(i as int).lemma_filter_push(es@[i as int], p);
                }
                if !formatted.as_str().is_empty() {
                    out.push(DisplayAddress { formatted, label });
                }
                i = i + 1;
            }
            assert(es@.take(es@.len() as int) =~= es@);
            out
        },
    }
}

// ---------------------------------------------------------------------------
// Cards
// ---------------------------------------------------------------------------

/// The list entry for a card; `None` for a card without an id.
pub fn contact_card_to_summary(card: &JsContactCard) -> (r: Option<ContactSummary>)
    ensures
        r is None <==> card.id is None,
        r matches Some(s) ==> summary_of(*card, s),
{
    match &card.id {
        None => None,
        Some(id) => Some(
            ContactSummary {
                id: ContactId::new(id.as_str()),
                full_name: extract_full_name(card),
                primary_email: extract_primary_email(&card.emails),
            },
        ),
    }
}

/// The detail view of a card; `None` for a card without an id.
pub fn contact_card_to_detail(card: &JsContactCard) -> (r: Option<ContactDetail>)
    ensures
        r is None <==> card.id is None,
        r matches Some(d) ==> detail_of(*card, d),
{
    match &card.id {
        None => None,
        Some(id) => Some(
            ContactDetail {
                id: ContactId::new(id.as_str()),
                full_name: extract_full_name(card),
                given_name: extract_given_name(card),
                surname: extract_surname(card),
                emails: build_display_emails(&card.emails),
                phones: build_display_phones(&card.phones),
                addresses: build_display_addresses(&card.addresses),
                organization: extract_organization(&card.organizations),
                job_title: extract_job_title(&card.titles),
                notes: extract_notes(&card.notes),
            },
        ),
    }
}


// ---------------------------------------------------------------------------
// Form to card
// ---------------------------------------------------------------------------

/// The trimmed text of a form field, or nothing where it is blank.
pub open spec fn non_empty_of(s: Seq<char>) -> Option<Seq<char>> {
    if trim(s).len() == 0 {
        None
    } else {
        Some(trim(s))
    }
}

/// A context map that holds exactly `work`, set.
pub open spec fn work_context(c: Option<Vec<(String, bool)>>) -> bool {
    c matches Some(es) && es@.len() == 1 && es@[0].0@ == "work"@ && es@[0].1
}

/// The name components a form gives: its given name, then its surname, each where not blank.
pub open spec fn form_components(form: ContactFormData) -> Seq<(Seq<char>, Seq<char>)> {
    let g = trim(form.given_name@);
    let s = trim(form.surname@);
    (if g.len() > 0 {
        seq![(g, "given"@)]
    } else {
        Seq::empty()
    }) + (if s.len() > 0 {
        seq![(s, "surname"@)]
    } else {
        Seq::empty()
    })
}

/// The full name a form gives: given name and surname, trimmed.
pub open spec fn form_full_name(form: ContactFormData) -> Seq<char> {
    trim(trim(form.given_name@) + " "@ + trim(form.surname@))
}

pub open spec fn form_name_ok(form: ContactFormData, n: Option<ContactName>) -> bool {
    let comps = form_components(form);
    let full = form_full_name(form);
    if comps.len() == 0 && full.len() == 0 {
        n is None
    } else {
        &&& n matches Some(nm)
        &&& ov(nm.full) == (if full.len() == 0 {
            None
        } else {
            Some(full)
        })
        &&& if comps.len() == 0 {
            nm.components is None
        } else {
            &&& nm.components matches Some(cs)
            &&& cs@.len() == comps.len()
            &&& forall|i: int|
                0 <= i < comps.len() ==> (#[trigger] cs@[i]).value@ == comps[i].0 && ov(cs@[i].kind)
                    == Some(comps[i].1)
        }
    }
}

pub open spec fn form_email_ok(form: ContactFormData, m: Option<Vec<(String, ContactEmail)>>) -> bool {
    let a = trim(form.email@);
    if a.len() == 0 {
        m is None
    } else {
        &&& m matches Some(es)
        &&& es@.len() == 1
        &&& es@[0].0@ == "e1"@
        &&& es@[0].1.address@ == a
        &&& work_context(es@[0].1.contexts)
        &&& es@[0].1.pref == Some(1u32)
        &&& es@[0].1.label is None
    }
}

pub open spec fn form_phone_ok(form: ContactFormData, m: Option<Vec<(String, ContactPhone)>>) -> bool {
    let a = trim(form.phone@);
    if a.len() == 0 {
        m is None
    } else {
        &&& m matches Some(es)
        &&& es@.len() == 1
        &&& es@[0].0@ == "p1"@
        &&& es@[0].1.number@ == a
        &&& es@[0].1.features is None
        &&& work_context(es@[0].1.contexts)
        &&& es@[0].1.pref == Some(1u32)
        &&& es@[0].1.label is None
    }
}

pub open spec fn form_has_address(form: ContactFormData) -> bool {
    ||| trim(form.street@).len() > 0
    ||| trim(form.city@).len() > 0
    ||| trim(form.state@).len() > 0
    ||| trim(form.postal_code@).len() > 0
    ||| trim(form.country@).len() > 0
}

pub open spec fn form_address_ok(form: ContactFormData, m: Option<Vec<(String, ContactAddress)>>) -> bool {
    if !form_has_address(form) {
        m is None
    } else {
        &&& m matches Some(es)
        &&& es@.len() == 1
        &&& es@[0].0@ == "a1"@
        &&& ({
            let a = es@[0].1;
            &&& if trim(form.street@).len() == 0 {
                a.street is None
            } else {
                a.street matches Some(st) && st@.len() == 1 && st@[0].value@ == trim(form.street@)
                    && st@[0].kind is None
            }
            &&& ov(a.locality) == non_empty_of(form.city@)
            &&& ov(a.region) == non_empty_of(form.state@)
            &&& ov(a.postcode) == non_empty_of(form.postal_code@)
            &&& ov(a.country) == non_empty_of(form.country@)
            &&& a.country_code is None
            &&& work_context(a.contexts)
        })
    }
}

pub open spec fn form_org_ok(form: ContactFormData, m: Option<Vec<(String, ContactOrganization)>>) -> bool {
    let a = trim(form.organization@);
    if a.len() == 0 {
        m is None
    } else {
        &&& m matches Some(es)
        &&& es@.len() == 1
        &&& es@[0].0@ == "o1"@
        &&& ov(es@[0].1.name) == Some(a)
        &&& es@[0].1.units is None
    }
}

pub open spec fn form_title_ok(form: ContactFormData, m: Option<Vec<(String, ContactTitle)>>) -> bool {
    let a = trim(form.job_title@);
    if a.len() == 0 {
        m is None
    } else {
        &&& m matches Some(es)
        &&& es@.len() == 1
        &&& es@[0].0@ == "t1"@
        &&& es@[0].1.name@ == a
        &&& ov(es@[0].1.kind) == Some("title"@)
    }
}

pub open spec fn form_notes_ok(form: ContactFormData, m: Option<Vec<(String, ContactNote)>>) -> bool {
    let a = trim(form.notes@);
    if a.len() == 0 {
        m is None
    } else {
        &&& m matches Some(es)
        &&& es@.len() == 1
        &&& es@[0].0@ == "n1"@
        &&& es@[0].1.note@ == a
    }
}

/// The card that the contact form describes.
pub open spec fn card_from_form(form: ContactFormData, c: JsContactCard) -> bool {
    &&& c.id is None
    &&& ov(c.card_type) == Some("Card"@)
    &&& ov(c.version) == Some("1.0"@)
    &&& c.uid is None
    &&& c.address_book_ids is None
    &&& form_name_ok(form, c.name)
    &&& form_email_ok(form, c.emails)
    &&& form_phone_ok(form, c.phones)
    &&& form_address_ok(form, c.addresses)
    &&& form_org_ok(form, c.organizations)
    &&& form_title_ok(form, c.titles)
    &&& form_notes_ok(form, c.notes)
}

/// The card with the identifier the server gave it.
pub open spec fn with_id(c: JsContactCard, id: String) -> JsContactCard {
    JsContactCard { id: Some(id), ..c }
}

/// A contact saved from the form comes back as it was entered: once the
/// server has given the card an identifier, its page and its edit form show
/// the form's name, organization, job title, notes, e-mail address and phone
/// number, trimmed, the address and the number as the preferred ones.
pub proof fn lemma_contact_form_round_trip(
    form: ContactFormData,
    card: JsContactCard,
    id: String,
    d: ContactDetail,
)
    requires
        card_from_form(form, card),
        detail_of(with_id(card, id), d),
    ensures
        d.full_name@ == form_full_name(form),
        d.given_name@ == trim(form.given_name@),
        d.surname@ == trim(form.surname@),
        d.organization@ == trim(form.organization@),
        d.job_title@ == trim(form.job_title@),
        d.notes@ == trim(form.notes@),
        d.emails@.len() == (if trim(form.email@).len() == 0 {
            0int
        } else {
            1int
        }),
        d.emails@.len() == 1 ==> d.emails@[0].address@ == trim(form.email@) && d.emails@[0].is_preferred,
        d.phones@.len() == (if trim(form.phone@).len() == 0 {
            0int
        } else {
            1int
        }),
        d.phones@.len() == 1 ==> d.phones@[0].number@ == trim(form.phone@) && d.phones@[0].is_preferred,
{
    reveal_strlit("given");
    reveal_strlit("surname");
    reveal_strlit("role");
    reveal_strlit("title");
    let c = with_id(card, id);
    let g = trim(form.given_name@);
    let s = trim(form.surname@);
    let full = form_full_name(form);
    let comps = form_components(form);
    lemma_trim_ends(form.given_name@);
    lemma_trim_ends(form.surname@);
    lemma_trim_twice(g + " "@ + s);
    // a blank full name means a blank given name and surname
    if g.len() > 0 {
        reveal_strlit(" ");
        assert((g + " "@ + s)[0] == g[0]);
        lemma_trim_nonempty(g + " "@ + s, 0);
    }
    if s.len() > 0 {
        reveal_strlit(" ");
        let t = g + " "@ + s;
        assert(t[g.len() + 1int] == s[0]);
        lemma_trim_nonempty(t, g.len() + 1int);
    }
    // the name parts
    if comps.len() > 0 {
        let cs = c.name.unwrap().components.unwrap()@;
        assert(cs.len() == comps.len());
        if g.len() > 0 {
            assert(comps[0] == (g, "given"@));
            assert(first_component(cs, "given"@) == g);
            if s.len() > 0 {
                assert(comps[1] == (s, "surname"@));
                assert(cs[1].value@ == s);
                assert("given"@ != "surname"@) by {
                    assert("given"@.len() != "surname"@.len());
                }
                assert(cs.drop_first()[0] == cs[1]);
                assert(first_component(cs.drop_first(), "surname"@) == s);
                assert(first_component(cs, "surname"@) == s);
            } else {
                assert(cs.drop_first().len() == 0);
                assert(first_component(cs.drop_first(), "surname"@) == Seq::<char>::empty());
            }
        } else {
            assert(s.len() > 0);
            assert(comps[0] == (s, "surname"@));
            assert("given"@ != "surname"@) by {
                assert("given"@.len() != "surname"@.len());
            }
            assert(first_component(cs, "surname"@) == s);
            assert(cs.drop_first().len() == 0);
            assert(first_component(cs.drop_first(), "given"@) == Seq::<char>::empty());
        }
    }
    // the job title: a title of kind `title` is not a role
    if trim(form.job_title@).len() > 0 {
        let ts = c.titles.unwrap()@;
        assert("title"@ != "role"@) by {
            assert("title"@.len() != "role"@.len());
        }
        assert(first_non_role(ts) == Some(ts[0].1.name@));
    }
    // the notes: one note joins to itself
    if trim(form.notes@).len() > 0 {
        let ns = c.notes.unwrap()@;
        assert(note_texts(ns).len() == 1);
        assert(note_texts(ns)[0] == ns[0].1.note@);
    }
    // the e-mail address and the phone number: one preferred entry each
    if trim(form.email@).len() > 0 {
        let es = c.emails.unwrap()@;
        reveal_with_fuel(Seq::<(String, ContactEmail)>::filter, 2);
        assert(es.drop_last().len() == 0);
        assert(es.filter(|e: (String, ContactEmail)| email_preferred(e)) =~= es);
        assert(es.filter(|e: (String, ContactEmail)| !email_preferred(e)) =~= Seq::<(String, ContactEmail)>::empty());
        assert(email_order(es) =~= es);
    }
    if trim(form.phone@).len() > 0 {
        let ps = c.phones.unwrap()@;
        reveal_with_fuel(Seq::<(String, ContactPhone)>::filter, 2);
        assert(ps.drop_last().len() == 0);
        assert(ps.filter(|e: (String, ContactPhone)| phone_preferred(e)) =~= ps);
        assert(ps.filter(|e: (String, ContactPhone)| !phone_preferred(e)) =~= Seq::<(String, ContactPhone)>::empty());
        assert(phone_order(ps) =~= ps);
    }
}

/// The trimmed text of `s`, or `None` where it is blank.
pub fn non_empty_opt(s: &str) -> (r: Option<String>)
    ensures
        ov(r) == non_empty_of(s@),
{
    let t = trimmed(s);
    if t.len() == 0 {
        None
    } else {
        Some(from_chars(&t))
    }
}

fn work_contexts() -> (r: Option<Vec<(String, bool)>>)
    ensures
        work_context(r),
{
    let mut v: Vec<(String, bool)> = Vec::new();
    v.push(("work".to_owned(), true));
    Some(v)
}

/// The JSContact card for the contact form: each blank field leaves its
/// part of the card out.
pub fn form_to_jscontact(form: &ContactFormData) -> (r: JsContactCard)
    ensures
        card_from_form(*form, r),
{
    let given = trimmed(form.given_name.as_str());
    let surname = trimmed(form.surname.as_str());

    let mut name_components: Vec<NameComponent> = Vec::new();
    if given.len() > 0 {
        name_components.push(NameComponent { value: from_chars(&given), kind: Some("given".to_owned()) });
    }
    if surname.len() > 0 {
        name_components.push(
            NameComponent { value: from_chars(&surname), kind: Some("surname".to_owned()) },
        );
    }
    let ghost comps = form_components(*form);
    assert(name_components@.len() == comps.len());
    assert forall|i: int| 0 <= i < comps.len() implies (#[trigger] name_components@[i]).value@
        == comps[i].0 && ov(name_components@[i].kind) == Some(comps[i].1) by {
        if given@.len() > 0 && i == 0 {
        } else {
        }
    }

    let mut full: Vec<char> = given.clone();
    let space = to_chars(" ");
    extend(&mut full, &space);
    extend(&mut full, &surname);
    let full_name = crate::text::trim_chars(&full);

    let email = trimmed(form.email.as_str());
    let emails = if email.len() == 0 {
        None
    } else {
        let mut m: Vec<(String, ContactEmail)> = Vec::new();
        m.push(
            (
                "e1".to_owned(),
                ContactEmail {
                    address: from_chars(&email),
                    contexts: work_contexts(),
                    pref: Some(1),
                    label: None,
                },
            ),
        );
        Some(m)
    };

    let phone = trimmed(form.phone.as_str());
    let phones = if phone.len() == 0 {
        None
    } else {
        let mut m: Vec<(String, ContactPhone)> = Vec::new();
        m.push(
            (
                "p1".to_owned(),
                ContactPhone {
                    number: from_chars(&phone),
                    features: None,
                    contexts: work_contexts(),
                    pref: Some(1),
                    label: None,
                },
            ),
        );
        Some(m)
    };

    let street = trimmed(form.street.as_str());
    let city = trimmed(form.city.as_str());
    let state = trimmed(form.state.as_str());
    let postal = trimmed(form.postal_code.as_str());
    let country = trimmed(form.country.as_str());
    let addresses = if street.len() == 0 && city.len() == 0 && state.len() == 0 && postal.len() == 0
        && country.len() == 0 {
        None
    } else {
        let street_parts = if street.len() == 0 {
            None
        } else {
            let mut parts: Vec<AddressComponent> = Vec::new();
            parts.push(AddressComponent { value: from_chars(&street), kind: None });
            Some(parts)
        };
        let mut m: Vec<(String, ContactAddress)> = Vec::new();
        m.push(
            (
                "a1".to_owned(),
                ContactAddress {
                    street: street_parts,
                    locality: non_empty_opt(form.city.as_str()),
                    region: non_empty_opt(form.state.as_str()),
                    postcode: non_empty_opt(form.postal_code.as_str()),
                    country: non_empty_opt(form.country.as_str()),
                    country_code: None,
                    contexts: work_contexts(),
                },
            ),
        );
        Some(m)
    };

    let org = trimmed(form.organization.as_str());
    let organizations = if org.len() == 0 {
        None
    } else {
        let mut m: Vec<(String, ContactOrganization)> = Vec::new();
        m.push(("o1".to_owned(), ContactOrganization { name: Some(from_chars(&org)), units: None }));
        Some(m)
    };

    let job = trimmed(form.job_title.as_str());
    let titles = if job.len() == 0 {
        None
    } else {
        let mut m: Vec<(String, ContactTitle)> = Vec::new();
        m.push(
            ("t1".to_owned(), ContactTitle { name: from_chars(&job), kind: Some("title".to_owned()) }),
        );
        Some(m)
    };

    let note = trimmed(form.notes.as_str());
    let notes = if note.len() == 0 {
        None
    } else {
        let mut m: Vec<(String, ContactNote)> = Vec::new();
        m.push(("n1".to_owned(), ContactNote { note: from_chars(&note) }));
        Some(m)
    };

    let name = if name_components.len() == 0 && full_name.len() == 0 {
        None
    } else {
        Some(
            ContactName {
                full: if full_name.len() == 0 {
                    None
                } else {
                    Some(from_chars(&full_name))
                },
                components: if name_components.len() == 0 {
                    None
                } else {
                    Some(name_components)
                },
            },
        )
    };

    JsContactCard {
        id: None,
        card_type: Some("Card".to_owned()),
        version: Some("1.0".to_owned()),
        uid: None,
        name,
        emails,
        phones,
        addresses,
        organizations,
        titles,
        notes,
        address_book_ids: None,
    }
}


// ---------------------------------------------------------------------------
// Grouping the contact list
// ---------------------------------------------------------------------------

/// The key contacts are listed by: the name in lower case.
pub open spec fn name_key(c: ContactSummary) -> Seq<char> {
    str_lower(c.full_name@)
}

/// `output` holds the contacts of `input` ordered by `name_key`, contacts of
/// equal key in their order in `input`; `output[k]` is `input[p[k]]`.
pub open spec fn sorted_from(
    input: Seq<ContactSummary>,
    output: Seq<ContactSummary>,
    p: Seq<int>,
) -> bool {
    &&& output.len() == input.len()
    &&& p.len() == input.len()
    &&& forall|k: int| 0 <= k < p.len() ==> 0 <= #[trigger] p[k] < input.len() && output[k] == input[p[k]]
    &&& forall|a: int, b: int| 0 <= a < b < p.len() ==> #[trigger] p[a] != #[trigger] p[b]
    &&& forall|a: int, b: int|
        0 <= a < b < p.len() ==> chars_lt(name_key(#[trigger] output[a]), name_key(#[trigger] output[b]))
            || (name_key(output[a]) == name_key(output[b]) && p[a] < p[b])
}

/// `output` is the stable sort of `input` by `name_key`.
pub open spec fn stable_sorted(input: Seq<ContactSummary>, output: Seq<ContactSummary>) -> bool {
    exists|p: Seq<int>| sorted_from(input, output, p)
}

/// The contacts of the groups, group after group.
pub open spec fn group_contents(gs: Seq<ContactGroup>) -> Seq<ContactSummary>
    decreases gs.len(),
{
    if gs.len() == 0 {
        Seq::empty()
    } else {
        group_contents(gs.drop_last()) + gs.last().contacts@
    }
}

/// Every group is non-empty, holds only contacts filed under its letter,
/// and differs in letter from the group after it.
pub open spec fn well_grouped(gs: Seq<ContactGroup>) -> bool {
    &&& forall|g: int| 0 <= g < gs.len() ==> (#[trigger] gs[g]).contacts@.len() > 0
    &&& forall|g: int, k: int|
        0 <= g < gs.len() && 0 <= k < gs[g].contacts@.len() ==> sort_letter_of(
            (#[trigger] gs[g].contacts@[k]).full_name@,
        ) == gs[g].letter
    &&& forall|g: int| 0 <= g < gs.len() - 1 ==> (#[trigger] gs[g]).letter != gs[g + 1].letter
}

impl ContactSummary {
    /// A copy of the summary.
    pub fn duplicate(&self) -> (r: Self)
        ensures
            r == *self,
    {
        ContactSummary {
            id: self.id.duplicate(),
            full_name: self.full_name.clone(),
            primary_email: self.primary_email.clone(),
        }
    }
}

/// The contacts sorted by lower-case name (ties in their given order) and
/// split into runs that share a sort letter.
pub fn group_contacts_alphabetically(contacts: Vec<ContactSummary>) -> (r: Vec<ContactGroup>)
    ensures
        well_grouped(r@),
        stable_sorted(contacts@, group_contents(r@)),
        forall|q: int|
            0 <= q < contacts@.len() && is_ascii_text((#[trigger] contacts@[q]).full_name@) ==> name_key(
                contacts@[q],
            ) == ascii_lower_text(contacts@[q].full_name@),
{
    let n = contacts.len();
    let mut keys: Vec<Vec<char>> = Vec::new();
    let mut k: usize = 0;
    while k < n
        invariant
            k <= n,
            n == contacts@.len(),
            keys@.len() == k,
            forall|q: int| 0 <= q < k ==> (#[trigger] keys@[q])@ == name_key(contacts@[q]),
            forall|q: int|
                0 <= q < k && is_ascii_text((#[trigger] contacts@[q]).full_name@) ==> name_key(contacts@[q])
                    == ascii_lower_text(contacts@[q].full_name@),
        decreases n - k,
    {
        let lower = lower_str(contacts[k].full_name.as_str());
        keys.push(to_chars(lower.as_str()));
        k = k + 1;
    }
    let perm = sort_order(&keys);
    let ghost pi = perm@.map_values(|x: usize| x as int);

    let mut groups: Vec<ContactGroup> = Vec::new();
    let mut cur: Vec<ContactSummary> = Vec::new();
    let mut cur_letter: char = '#';
    let ghost mut done: Seq<ContactSummary> = Seq::empty();
    let mut i: usize = 0;
    while i < n
        invariant
            i <= n,
            n == contacts@.len(),
            n == perm@.len(),
            n == keys@.len(),
            pi == perm@.map_values(|x: usize| x as int),
            forall|q: int| 0 <= q < n ==> (#[trigger] perm@[q]) < n,
            forall|q: int| 0 <= q < n ==> (#[trigger] keys@[q])@ == name_key(contacts@[q]),
            done.len() == i,
            forall|q: int| 0 <= q < i ==> #[trigger] done[q] == contacts@[perm@[q] as int],
            group_contents(groups@) + cur@ == done,
            well_grouped(groups@),
            i > 0 ==> cur@.len() > 0,
            i == 0 ==> cur@.len() == 0,
            forall|q: int| 0 <= q < cur@.len() ==> sort_letter_of((#[trigger] cur@[q]).full_name@) == cur_letter,
            groups@.len() > 0 ==> groups@.last().letter != cur_letter,
        decreases n - i,
    {
        let c = contacts[perm[i]].duplicate();
        let letter = c.sort_letter();
        let ghost old_groups = groups@;
        let ghost old_cur = cur@;
        if cur.len() > 0 && letter != cur_letter {
            let finished = ContactGroup { letter: cur_letter, contacts: cur };
            groups.push(finished);
            cur = Vec::new();
            proof {
                assert(groups@.drop_last() =~= old_groups);
                assert(group_contents(groups@) =~= group_contents(old_groups) + old_cur);
                assert forall|g: int, q: int|
                    0 <= g < groups@.len() && 0 <= q < groups@[g].contacts@.len() implies sort_letter_of(
                    (#[trigger] groups@[g].contacts@[q]).full_name@,
                ) == groups@[g].letter by {
                    if g < old_groups.len() {
                        assert(groups@[g] == old_groups[g]);
                    }
                }
            }
        }
        cur_letter = letter;
        cur.push(c);
        proof {
            done = done.push(contacts@[perm@[i as int] as int]);
            assert(group_contents(groups@) + cur@ =~= done);
        }
        i = i + 1;
    }
    let ghost before_last = groups@;
    if cur.len() > 0 {
        groups.push(ContactGroup { letter: cur_letter, contacts: cur });
        proof {
            assert(groups@.drop_last() =~= before_last);
            assert forall|g: int, q: int|
                0 <= g < groups@.len() && 0 <= q < groups@[g].contacts@.len() implies sort_letter_of(
                (#[trigger] groups@[g].contacts@[q]).full_name@,
            ) == groups@[g].letter by {
                if g < before_last.len() {
                    assert(groups@[g] == before_last[g]);
                }
            }
        }
    } else {
        assert(cur@ =~= Seq::<ContactSummary>::empty());
        assert(group_contents(groups@) =~= done);
    }
    proof {
        let out = group_contents(groups@);
        assert(out =~= done);
        assert forall|a: int, b: int| 0 <= a < b < pi.len() implies chars_lt(
            name_key(#[trigger] out[a]),
            name_key(#[trigger] out[b]),
        ) || (name_key(out[a]) == name_key(out[b]) && pi[a] < pi[b]) by {
            assert(key_before(keys@, perm@[a] as int, perm@[b] as int));
            assert(keys@[perm@[a] as int]@ == name_key(contacts@[perm@[a] as int]));
            assert(keys@[perm@[b] as int]@ == name_key(contacts@[perm@[b] as int]));
        }
        assert forall|a: int, b: int| 0 <= a < b < pi.len() implies #[trigger] pi[a] != #[trigger] pi[b] by {
            assert(perm@[a] != perm@[b]);
        }
        assert(sorted_from(contacts@, out, pi));
    }
    groups
}

} // verus!
