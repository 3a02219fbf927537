//! Composing mail: the compose form, and how replies and forwards fill it
//! from the message they answer.

use vstd::prelude::*;

use crate::jmap::{EmailDetail, IdentityInfo};
use crate::text::{
    append_str, byte_len, byte_range, chars_eq_ignore_case, comma_items, comma_items_chars,
    eq_ignore_case, extend, find, find_char, from_chars, join, join_chars, lemma_find_bounds,
    slice, str_eq, to_chars, trim, trimmed, views, is_ws, lemma_trim_ends, lemma_trim_unchanged,
};

verus! {

// ---------------------------------------------------------------------------
// Subjects
// ---------------------------------------------------------------------------

/// Where `str` slicing of the trimmed subject at the length of `prefix:`
/// would cut a character in two (the one input on which the subject check
/// panics).
pub open spec fn prefix_cut_inside_char(subject: Seq<char>, prefix: Seq<char>) -> bool {
    let t = trim(subject);
    let check = prefix + ":"@;
    byte_len(t) >= byte_len(check) && byte_range(t, 0, byte_len(check) as int) is None
}

/// The subject of a reply or forward: the trimmed subject, with `prefix: `
/// in front unless it already starts with `prefix:` in any ASCII case.
pub open spec fn prefixed_subject(subject: Seq<char>, prefix: Seq<char>) -> Seq<char> {
    let t = trim(subject);
    let check = prefix + ":"@;
    if t.len() >= check.len() && eq_ignore_case(t.take(check.len() as int), check) {
        t
    } else {
        prefix + ": "@ + t
    }
}

/// Prefixing is done once: a subject that already carries the prefix keeps
/// it, so replying to a reply does not stack `Re: Re:`. This holds for any
/// subject that is not blank, and any prefix that does not begin with white
/// space.
pub proof fn lemma_subject_prefix_once(subject: Seq<char>, prefix: Seq<char>)
    requires
        trim(subject).len() > 0,
        prefix.len() > 0 ==> !is_ws(prefix[0]),
    ensures
        prefixed_subject(prefixed_subject(subject, prefix), prefix) == prefixed_subject(
            subject,
            prefix,
        ),
{
    reveal_strlit(":");
    reveal_strlit(": ");
    let t = trim(subject);
    let check = prefix + ":"@;
    lemma_trim_ends(subject);
    lemma_trim_unchanged(t);
    let r1 = prefixed_subject(subject, prefix);
    if r1 == t {
    } else {
        assert(r1 == prefix + ": "@ + t);
        assert(r1[0] != ' ' && !is_ws(r1[0])) by {
            if prefix.len() == 0 {
                assert(r1[0] == ':');
            } else {
                assert(r1[0] == prefix[0]);
            }
        }
        assert(r1.last() == t.last());
        lemma_trim_unchanged(r1);
        assert(r1.take(check.len() as int) =~= check);
        assert(eq_ignore_case(r1.take(check.len() as int), check));
    }
}

pub fn prepend_subject_prefix(subject: &str, prefix: &str) -> (r: String)
    requires
        !prefix_cut_inside_char(subject@, prefix@),
    ensures
        r@ == prefixed_subject(subject@, prefix@),
{
    let t = trimmed(subject);
    let mut check = to_chars(prefix);
    extend(&mut check, &to_chars(":"));
    if t.len() >= check.len() {
        let head = slice(&t, 0, check.len());
        assert(head@ =~= t@.take(check@.len() as int));
        if chars_eq_ignore_case(&head, &check) {
            return from_chars(&t);
        }
    }
    let mut out = to_chars(prefix);
    extend(&mut out, &to_chars(": "));
    extend(&mut out, &t);
    from_chars(&out)
}

// ---------------------------------------------------------------------------
// Quoting
// ---------------------------------------------------------------------------

/// A line without the carriage return of a `\r\n` ending.
pub open spec fn strip_cr(line: Seq<char>) -> Seq<char> {
    if line.len() > 0 && line.last() == '\r' {
        line.drop_last()
    } else {
        line
    }
}

/// The lines of `s`, as `str::lines` gives them: split after each `\n`, a
/// `\r` before it dropped, no empty line after a final `\n`.
pub open spec fn lines(s: Seq<char>) -> Seq<Seq<char>>
    decreases s.len(),
{
    if s.len() == 0 {
        Seq::empty()
    } else {
        match find(s, '\n') {
            Some(i) => if 0 <= i < s.len() {
                seq![strip_cr(s.take(i))] + lines(s.skip(i + 1))
            } else {
                seq![s]
            },
            None => seq![s],
        }
    }
}

/// Each line prefixed with `> `.
pub open spec fn quoted_lines(ls: Seq<Seq<char>>) -> Seq<Seq<char>> {
    ls.map_values(|l: Seq<char>| "> "@ + l)
}

/// The body quoted for a reply: each line prefixed with `> `, joined by `\n`.
pub open spec fn quoted(body: Seq<char>) -> Seq<char> {
    join(quoted_lines(lines(body)), "\n"@)
}

fn strip_cr_chars(v: &Vec<char>) -> (r: Vec<char>)
    ensures
        r@ == strip_cr(v@),
{
    if v.len() > 0 && v[v.len() - 1] == '\r' {
        let r = slice(v, 0, v.len() - 1);
        assert(r@ =~= v@.drop_last());
        r
    } else {
        v.clone()
    }
}

pub fn quote_body(body: &str) -> (r: String)
    ensures
        r@ == quoted(body@),
{
    let v = to_chars(body);
    let n = v.len();
    let mut parts: Vec<Vec<char>> = Vec::new();
    let mut pos: usize = 0;
    assert(v@.skip(0) =~= v@);
    while pos < n
        invariant
            n == v@.len(),
            pos <= n,
            quoted_lines(lines(v@)) == views(parts@) + quoted_lines(lines(v@.skip(pos as int))),
        decreases n - pos,
    {
        let ghost rest = v@.skip(pos as int);
        let rest_v = slice(&v, pos, n);
        assert(rest_v@ =~= rest);
        let ghost before = parts@;
        match find_char(&rest_v, '\n') {
            Some(i) => {
                proof {
                    lemma_find_bounds(rest, '\n');
                }
                let line = strip_cr_chars(&slice(&rest_v, 0, i));
                let mut q = to_chars("> ");
                extend(&mut q, &line);
                parts.push(q);
                proof {
                    assert(rest.skip(i + 1) =~= v@.skip(pos + i + 1));
                    assert(quoted_lines(seq![strip_cr(rest.take(i as int))] + lines(rest.skip(i + 1)))
                        =~= seq!["> "@ + strip_cr(rest.take(i as int))] + quoted_lines(lines(rest.skip(i + 1))));
                    assert(views(parts@) =~= views(before).push(q@));
                }
                pos = pos + i + 1;
            },
            None => {
                let mut q = to_chars("> ");
                extend(&mut q, &rest_v);
                parts.push(q);
                proof {
                    assert(quoted_lines(seq![rest]) =~= seq!["> "@ + rest]);
                    assert(views(parts@) =~= views(before).push(q@));
                    assert(v@.skip(n as int) =~= Seq::<char>::empty());
                    assert(quoted_lines(lines(v@.skip(n as int))) =~= Seq::<Seq<char>>::empty());
                    assert(views(parts@) + Seq::<Seq<char>>::empty() =~= views(parts@));
                }
                pos = n;
            },
        }
    }
    proof {
        assert(v@.skip(n as int) =~= Seq::<char>::empty());
        assert(quoted_lines(lines(v@.skip(n as int))) =~= Seq::<Seq<char>>::empty());
        assert(views(parts@) + Seq::<Seq<char>>::empty() =~= views(parts@));
    }
    from_chars(&join_chars(&parts, &to_chars("\n")))
}

// ---------------------------------------------------------------------------
// References and recipients
// ---------------------------------------------------------------------------

/// The items of `s`, each at its first occurrence only.
pub open spec fn first_occurrences(s: Seq<Seq<char>>) -> Seq<Seq<char>>
    decreases s.len(),
{
    if s.len() == 0 {
        Seq::empty()
    } else {
        let prev = first_occurrences(s.drop_last());
        if prev.contains(s.last()) {
            prev
        } else {
            prev.push(s.last())
        }
    }
}

/// `first_occurrences` keeps every item of `s`, and each only once.
pub proof fn lemma_first_occurrences(s: Seq<Seq<char>>)
    ensures
        first_occurrences(s).no_duplicates(),
        forall|x: Seq<char>| first_occurrences(s).contains(x) <==> s.contains(x),
    decreases s.len(),
{
    if s.len() > 0 {
        let init = s.drop_last();
        lemma_first_occurrences(init);
        let prev = first_occurrences(init);
        assert forall|x: Seq<char>| s.contains(x) <==> (init.contains(x) || x == s.last()) by {
            if s.contains(x) {
                let k = choose|k: int| 0 <= k < s.len() && s[k] == x;
                if k < s.len() - 1 {
                    assert(init[k] == x);
                }
            }
            if init.contains(x) {
                let k = choose|k: int| 0 <= k < init.len() && init[k] == x;
                assert(s[k] == x);
            }
            if x == s.last() {
                assert(s[s.len() - 1] == x);
            }
        }
        if !prev.contains(s.last()) {
            let next = prev.push(s.last());
            assert forall|x: Seq<char>| next.contains(x) <==> (prev.contains(x) || x == s.last()) by {
                if next.contains(x) {
                    let k = choose|k: int| 0 <= k < next.len() && next[k] == x;
                    if k < prev.len() {
                        assert(prev[k] == x);
                    }
                }
                if prev.contains(x) {
                    let k = choose|k: int| 0 <= k < prev.len() && prev[k] == x;
                    assert(next[k] == x);
                }
                if x == s.last() {
                    assert(next[prev.len() as int] == x);
                }
            }
            assert forall|i: int, j: int|
                0 <= i < next.len() && 0 <= j < next.len() && i != j implies next[i] != next[j] by {
                if i == prev.len() {
                    assert(prev.contains(next[j]));
                } else if j == prev.len() {
                    assert(prev.contains(next[i]));
                }
            }
        }
    }
}

/// The `References` of a reply name every reference and message id of the
/// original, each exactly once.
pub proof fn lemma_reply_references_once(refs: Seq<String>, msg_ids: Seq<String>)
    ensures
        ({
            let all = string_views(refs) + string_views(msg_ids);
            let ids = first_occurrences(all);
            &&& reply_references(refs, msg_ids) == join(ids, " "@)
            &&& ids.no_duplicates()
            &&& forall|x: Seq<char>| ids.contains(x) <==> all.contains(x)
        }),
{
    lemma_first_occurrences(string_views(refs) + string_views(msg_ids));
}

pub open spec fn string_views(v: Seq<String>) -> Seq<Seq<char>> {
    v.map_values(|s: String| s@)
}

/// The `References` of a reply: the original's references, then its
/// message ids, each once, separated by spaces.
pub open spec fn reply_references(refs: Seq<String>, msg_ids: Seq<String>) -> Seq<char> {
    join(first_occurrences(string_views(refs) + string_views(msg_ids)), " "@)
}

fn contains_chars(v: &Vec<Vec<char>>, x: &Vec<char>) -> (r: bool)
    ensures
        r == views(v@).contains(x@),
{
    let mut i: usize = 0;
    while i < v.len()
        invariant
            i <= v@.len(),
            forall|k: int| 0 <= k < i ==> v@[k]@ != x@,
        decreases v@.len() - i,
    {
        if crate::text::chars_eq(&v[i], x) {
            assert(views(v@)[i as int] == x@);
            return true;
        }
        i = i + 1;
    }
    assert forall|k: int| 0 <= k < views(v@).len() implies views(v@)[k] != x@ by {
        assert(views(v@)[k] == v@[k]@);
    }
    false
}

fn push_if_new(ids: &mut Vec<Vec<char>>, item: Vec<char>)
    ensures
        views(final(ids)@) == (if views(old(ids)@).contains(item@) {
            views(old(ids)@)
        } else {
            views(old(ids)@).push(item@)
        }),
{
    if !contains_chars(ids, &item) {
        let ghost before = ids@;
        ids.push(item);
        assert(views(ids@) =~= views(before).push(item@));
    }
}

pub fn build_reply_references(original_refs: &Vec<String>, original_msg_id: &Vec<String>) -> (r: String)
    ensures
        r@ == reply_references(original_refs@, original_msg_id@),
{
    let ghost all = string_views(original_refs@) + string_views(original_msg_id@);
    let ghost nr = original_refs@.len();
    let mut ids: Vec<Vec<char>> = Vec::new();
    let mut i: usize = 0;
    while i < original_refs.len()
        invariant
            i <= nr,
            nr == original_refs@.len(),
            all == string_views(original_refs@) + string_views(original_msg_id@),
            views(ids@) == first_occurrences(all.take(i as int)),
        decreases nr - i,
    {
        let item = to_chars(original_refs[i].as_str());
        assert(item@ == all[i as int]);
        assert(all.take(i + 1).drop_last() =~= all.take(i as int));
        push_if_new(&mut ids, item);
        i = i + 1;
    }
    let mut j: usize = 0;
    while j < original_msg_id.len()
        invariant
            j <= original_msg_id@.len(),
            nr == original_refs@.len(),
            all == string_views(original_refs@) + string_views(original_msg_id@),
            views(ids@) == first_occurrences(all.take(nr + j)),
        decreases original_msg_id@.len() - j,
    {
        let item = to_chars(original_msg_id[j].as_str());
        assert(item@ == all[nr + j]);
        assert(all.take(nr + j + 1).drop_last() =~= all.take(nr + j));
        push_if_new(&mut ids, item);
        j = j + 1;
    }
    assert(all.take(nr + j) =~= all);
    from_chars(&join_chars(&ids, &to_chars(" ")))
}

/// The items of the address list that are not `to_remove` in any ASCII case.
pub open spec fn without_address(items: Seq<Seq<char>>, to_remove: Seq<char>) -> Seq<Seq<char>>
    decreases items.len(),
{
    if items.len() == 0 {
        Seq::empty()
    } else {
        let prev = without_address(items.drop_last(), to_remove);
        if eq_ignore_case(items.last(), to_remove) {
            prev
        } else {
            prev.push(items.last())
        }
    }
}

/// Removing an address keeps exactly the other addresses: none that equals
/// `to_remove` in any ASCII case is left, and every other one stays.
pub proof fn lemma_without_address(items: Seq<Seq<char>>, to_remove: Seq<char>)
    ensures
        forall|x: Seq<char>|
            without_address(items, to_remove).contains(x) <==> (items.contains(x) && !eq_ignore_case(
                x,
                to_remove,
            )),
    decreases items.len(),
{
    if items.len() > 0 {
        let init = items.drop_last();
        lemma_without_address(init, to_remove);
        let prev = without_address(init, to_remove);
        assert forall|x: Seq<char>| items.contains(x) <==> (init.contains(x) || x == items.last()) by {
            if items.contains(x) {
                let k = choose|k: int| 0 <= k < items.len() && items[k] == x;
                if k < items.len() - 1 {
                    assert(init[k] == x);
                }
            }
            if init.contains(x) {
                let k = choose|k: int| 0 <= k < init.len() && init[k] == x;
                assert(items[k] == x);
            }
            if x == items.last() {
                assert(items[items.len() - 1] == x);
            }
        }
        if !eq_ignore_case(items.last(), to_remove) {
            let next = prev.push(items.last());
            assert forall|x: Seq<char>| next.contains(x) <==> (prev.contains(x) || x == items.last()) by {
                if next.contains(x) {
                    let k = choose|k: int| 0 <= k < next.len() && next[k] == x;
                    if k < prev.len() {
                        assert(prev[k] == x);
                    }
                }
                if prev.contains(x) {
                    let k = choose|k: int| 0 <= k < prev.len() && prev[k] == x;
                    assert(next[k] == x);
                }
                if x == items.last() {
                    assert(next[prev.len() as int] == x);
                }
            }
        }
    }
}

/// The addresses of a comma-separated list other than `to_remove`, trimmed
/// and joined by `, `.
pub open spec fn remaining_addresses(addresses: Seq<char>, to_remove: Seq<char>) -> Seq<char> {
    join(without_address(comma_items(addresses), to_remove), ", "@)
}

pub fn remove_address(addresses: &str, to_remove: &str) -> (r: String)
    ensures
        r@ == remaining_addresses(addresses@, to_remove@),
{
    let items = comma_items_chars(addresses);
    let target = to_chars(to_remove);
    let mut kept: Vec<Vec<char>> = Vec::new();
    let mut i: usize = 0;
    while i < items.len()
        invariant
            i <= items@.len(),
            target@ == to_remove@,
            views(kept@) == without_address(views(items@).take(i as int), to_remove@),
        decreases items@.len() - i,
    {
        assert(views(items@).take(i + 1).drop_last() =~= views(items@).take(i as int));
        assert(views(items@).take(i + 1).last() == items@[i as int]@);
        if !chars_eq_ignore_case(&items[i], &target) {
            let ghost before = kept@;
            kept.push(items[i].clone());
            assert(views(kept@) =~= views(before).push(items@[i as int]@));
        }
        i = i + 1;
    }
    assert(views(items@).take(items@.len() as int) =~= views(items@));
    from_chars(&join_chars(&kept, &to_chars(", ")))
}

// ---------------------------------------------------------------------------
// Forwarding
// ---------------------------------------------------------------------------

/// The plain-text body of a forward: a header block naming the original's
/// sender, date, subject and recipients, then its text.
pub open spec fn forwarded_text(e: EmailDetail) -> Seq<char> {
    "\n\n---------- Forwarded message ----------\nFrom: "@ + e.from@ + "\nDate: "@ + e.received_at@
        + "\nSubject: "@ + e.subject@ + "\nTo: "@ + e.to@ + "\n\n"@ + e.body_text@
}

pub fn format_forwarded_body(email: &EmailDetail) -> (r: String)
    ensures
        r@ == forwarded_text(*email),
{
    let mut out = String::new();
    append_str(&mut out, "\n\n---------- Forwarded message ----------\nFrom: ");
    append_str(&mut out, email.from.as_str());
    append_str(&mut out, "\nDate: ");
    append_str(&mut out, email.received_at.as_str());
    append_str(&mut out, "\nSubject: ");
    append_str(&mut out, email.subject.as_str());
    append_str(&mut out, "\nTo: ");
    append_str(&mut out, email.to.as_str());
    append_str(&mut out, "\n\n");
    append_str(&mut out, email.body_text.as_str());
    out
}

/// The HTML of a reply: the original's HTML in a block quote after a line
/// naming its date and sender.
pub open spec fn quoted_html(html: Seq<char>, from: Seq<char>, date: Seq<char>) -> Seq<char> {
    "<br><br><p>On "@ + date + ", "@ + from + " wrote:</p><blockquote>"@ + html + "</blockquote>"@
}

pub fn quote_body_html(html: &str, from: &str, date: &str) -> (r: String)
    ensures
        r@ == quoted_html(html@, from@, date@),
{
    let mut out = String::new();
    append_str(&mut out, "<br><br><p>On ");
    append_str(&mut out, date);
    append_str(&mut out, ", ");
    append_str(&mut out, from);
    append_str(&mut out, " wrote:</p><blockquote>");
    append_str(&mut out, html);
    append_str(&mut out, "</blockquote>");
    out
}

/// The HTML body of a forward: the header block, then the original's HTML
/// (or its text where it has no HTML).
pub open spec fn forwarded_html(e: EmailDetail) -> Seq<char> {
    let body = match e.body_html {
        Some(h) => h@,
        None => e.body_text@,
    };
    "<br><br><hr><p><b>---------- Forwarded message ----------</b><br>From: "@ + e.from@
        + "<br>Date: "@ + e.received_at@ + "<br>Subject: "@ + e.subject@ + "<br>To: "@ + e.to@
        + "</p><br>"@ + body
}

pub fn format_forwarded_body_html(email: &EmailDetail) -> (r: String)
    ensures
        r@ == forwarded_html(*email),
{
    let mut out = String::new();
    append_str(&mut out, "<br><br><hr><p><b>---------- Forwarded message ----------</b><br>From: ");
    append_str(&mut out, email.from.as_str());
    append_str(&mut out, "<br>Date: ");
    append_str(&mut out, email.received_at.as_str());
    append_str(&mut out, "<br>Subject: ");
    append_str(&mut out, email.subject.as_str());
    append_str(&mut out, "<br>To: ");
    append_str(&mut out, email.to.as_str());
    append_str(&mut out, "</p><br>");
    match &email.body_html {
        Some(h) => append_str(&mut out, h.as_str()),
        None => append_str(&mut out, email.body_text.as_str()),
    }
    out
}

// ---------------------------------------------------------------------------
// Identities
// ---------------------------------------------------------------------------

impl IdentityInfo {
    /// A copy of the identity.
    pub fn duplicate(&self) -> (r: Self)
        ensures
            r == *self,
    {
        IdentityInfo { id: self.id.duplicate(), name: self.name.clone(), email: self.email.clone() }
    }
}

/// The identities whose address is the user name, in order.
pub open spec fn user_identities(ids: Seq<IdentityInfo>, username: Seq<char>) -> Seq<IdentityInfo>
    decreases ids.len(),
{
    if ids.len() == 0 {
        Seq::empty()
    } else {
        let prev = user_identities(ids.drop_last(), username);
        if ids.last().email@ == username {
            prev.push(ids.last())
        } else {
            prev
        }
    }
}

/// The identities the user may send as: those whose address is the user
/// name, or all of them where none is.
pub open spec fn identities_for(ids: Seq<IdentityInfo>, username: Seq<char>) -> Seq<IdentityInfo> {
    if user_identities(ids, username).len() == 0 {
        ids
    } else {
        user_identities(ids, username)
    }
}

pub fn filter_identities_for_user(identities: Vec<IdentityInfo>, username: &str) -> (r: Vec<IdentityInfo>)
    ensures
        r@ == identities_for(identities@, username@),
{
    let mut filtered: Vec<IdentityInfo> = Vec::new();
    let mut i: usize = 0;
    while i < identities.len()
        invariant
            i <= identities@.len(),
            filtered@ == user_identities(identities@.take(i as int), username@),
        decreases identities@.len() - i,
    {
        assert(identities@.take(i + 1).drop_last() =~= identities@.take(i as int));
        if str_eq(identities[i].email.as_str(), username) {
            filtered.push(identities[i].duplicate());
        }
        i = i + 1;
    }
    assert(identities@.take(identities@.len() as int) =~= identities@);
    if filtered.len() == 0 {
        identities
    } else {
        filtered
    }
}

// ---------------------------------------------------------------------------
// The compose form
// ---------------------------------------------------------------------------

/// The fields of the compose form.
#[derive(Debug, Clone, Default)]
pub struct ComposeFormData {
    pub identity_id: String,
    pub to: String,
    pub cc: String,
    pub bcc: String,
    pub subject: String,
    pub body: String,
    pub body_html: String,
    pub in_reply_to: String,
    pub references_header: String,
    /// The attachments, as a JSON array of `{blob_id, name, content_type}`.
    pub attachments_json: String,
}

/// How a message is answered.
#[derive(Debug, Clone, Copy, PartialEq, Eq, Structural)]
pub enum ComposeMode {
    Reply,
    ReplyAll,
    Forward,
}

/// What the compose view shows.
#[derive(Debug, Clone)]
pub enum ComposeView {
    /// The user has no identity to send as.
    NoIdentities,
    /// The form, filled in, under a title, with the identities to pick from.
    Form { identities: Vec<IdentityInfo>, form: ComposeFormData, title: String },
}

/// The plain-text body of a reply: a line naming the date and sender of
/// the original, then its quoted text.
pub open spec fn reply_text(e: EmailDetail) -> Seq<char> {
    "\n\nOn "@ + e.received_at@ + ", "@ + e.from@ + " wrote:\n"@ + quoted(e.body_text@)
}

/// The HTML body of a reply: the original's HTML quoted, or nothing.
pub open spec fn reply_html(e: EmailDetail) -> Seq<char> {
    match e.body_html {
        Some(h) => quoted_html(h@, e.from@, e.received_at@),
        None => Seq::empty(),
    }
}

/// The recipients of the original other than its sender: To, then Cc.
pub open spec fn all_recipients(e: EmailDetail) -> Seq<char> {
    if e.cc_emails@.len() == 0 {
        e.to_emails@
    } else {
        e.to_emails@ + ", "@ + e.cc_emails@
    }
}

/// The prefix the subject of an answer gets.
pub open spec fn mode_prefix(mode: ComposeMode) -> Seq<char> {
    match mode {
        ComposeMode::Forward => "Fwd"@,
        _ => "Re"@,
    }
}

/// The form that answers `e` in the given way for the user `username`:
/// replies go to the sender and thread under the original; a reply to all
/// copies the other recipients except the user; a forward carries the
/// original in its body.
pub open spec fn answer_form(e: EmailDetail, username: Seq<char>, mode: ComposeMode, title: Seq<char>, f: ComposeFormData) -> bool {
    &&& f.identity_id@.len() == 0
    &&& f.bcc@.len() == 0
    &&& f.attachments_json@.len() == 0
    &&& f.subject@ == prefixed_subject(e.subject@, mode_prefix(mode))
    &&& match mode {
        ComposeMode::Forward => {
            &&& title == "Forward"@
            &&& f.to@.len() == 0 && f.cc@.len() == 0
            &&& f.body@ == forwarded_text(e)
            &&& f.body_html@ == forwarded_html(e)
            &&& f.in_reply_to@.len() == 0 && f.references_header@.len() == 0
        },
        _ => {
            &&& title == (if mode == ComposeMode::Reply {
                "Reply"@
            } else {
                "Reply All"@
            })
            &&& f.to@ == e.from_email@
            &&& f.cc@ == (if mode == ComposeMode::Reply {
                Seq::empty()
            } else {
                remaining_addresses(all_recipients(e), username)
            })
            &&& f.body@ == reply_text(e)
            &&& f.body_html@ == reply_html(e)
            &&& f.in_reply_to@ == (if e.message_id@.len() > 0 {
                e.message_id@[0]@
            } else {
                Seq::empty()
            })
            &&& f.references_header@ == reply_references(e.references@, e.message_id@)
        },
    }
}

fn answer(email: &EmailDetail, username: &str, mode: ComposeMode) -> (r: (String, ComposeFormData))
    requires
        !prefix_cut_inside_char(email.subject@, mode_prefix(mode)),
    ensures
        answer_form(*email, username@, mode, r.0@, r.1),
{
    match mode {
        ComposeMode::Forward => {
            let form = ComposeFormData {
                identity_id: String::new(),
                to: String::new(),
                cc: String::new(),
                bcc: String::new(),
                subject: prepend_subject_prefix(email.subject.as_str(), "Fwd"),
                body: format_forwarded_body(email),
                body_html: format_forwarded_body_html(email),
                in_reply_to: String::new(),
                references_header: String::new(),
                attachments_json: String::new(),
            };
            ("Forward".to_owned(), form)
        },
        _ => {
            let in_reply_to = if email.message_id.len() > 0 {
                email.message_id[0].clone()
            } else {
                String::new()
            };
            let references_header = build_reply_references(&email.references, &email.message_id);
            let mut body = String::new();
            append_str(&mut body, "\n\nOn ");
            append_str(&mut body, email.received_at.as_str());
            append_str(&mut body, ", ");
            append_str(&mut body, email.from.as_str());
            append_str(&mut body, " wrote:\n");
            append_str(&mut body, quote_body(email.body_text.as_str()).as_str());
            let body_html = match &email.body_html {
                Some(h) => quote_body_html(h.as_str(), email.from.as_str(), email.received_at.as_str()),
                None => String::new(),
            };
            let (title, cc) = if mode == ComposeMode::Reply {
                ("Reply".to_owned(), String::new())
            } else {
                let recipients = if to_chars(email.cc_emails.as_str()).len() == 0 {
                    email.to_emails.clone()
                } else {
                    let mut all = email.to_emails.clone();
                    append_str(&mut all, ", ");
                    append_str(&mut all, email.cc_emails.as_str());
                    all
                };
                ("Reply All".to_owned(), remove_address(recipients.as_str(), username))
            };
            let form = ComposeFormData {
                identity_id: String::new(),
                to: email.from_email.clone(),
                cc,
                bcc: String::new(),
                subject: prepend_subject_prefix(email.subject.as_str(), "Re"),
                body,
                body_html,
                in_reply_to,
                references_header,
                attachments_json: String::new(),
            };
            (title, form)
        },
    }
}

/// The compose view that answers `email`: nothing but the notice that the
/// user has no identity to send as, else the filled-in form.
pub fn compose_for_email(
    email: &EmailDetail,
    identities: Vec<IdentityInfo>,
    username: &str,
    mode: ComposeMode,
) -> (r: ComposeView)
    requires
        !prefix_cut_inside_char(email.subject@, mode_prefix(mode)),
    ensures
        match r {
            ComposeView::NoIdentities => identities_for(identities@, username@).len() == 0,
            ComposeView::Form { identities: ids, form, title } => {
                &&& ids@ == identities_for(identities@, username@)
                &&& ids@.len() > 0
                &&& answer_form(*email, username@, mode, title@, form)
            },
        },
{
    let ids = filter_identities_for_user(identities, username);
    if ids.len() == 0 {
        return ComposeView::NoIdentities;
    }
    let (title, form) = answer(email, username, mode);
    ComposeView::Form { identities: ids, form, title }
}

} // verus!
