//! What the message actions do and answer: single and bulk deletes and
//! moves, keyword changes, and the HTML fragments that update the page.

use vstd::prelude::*;

use crate::ids::{EmailId, MailboxId};
use crate::text::{append_str, comma_items, comma_items_chars, decimal, decimal_chars, from_chars, str_eq};

verus! {

/// An action on the selected messages.
#[derive(Debug, Clone, Copy, PartialEq, Eq, Structural)]
pub enum BulkAction {
    Delete,
    Archive,
    Spam,
    Read,
    Unread,
    Flag,
    Unflag,
}

/// The action a form value names.
pub open spec fn action_named(name: Seq<char>) -> Option<BulkAction> {
    if name == "delete"@ {
        Some(BulkAction::Delete)
    } else if name == "archive"@ {
        Some(BulkAction::Archive)
    } else if name == "spam"@ {
        Some(BulkAction::Spam)
    } else if name == "read"@ {
        Some(BulkAction::Read)
    } else if name == "unread"@ {
        Some(BulkAction::Unread)
    } else if name == "flag"@ {
        Some(BulkAction::Flag)
    } else if name == "unflag"@ {
        Some(BulkAction::Unflag)
    } else {
        None
    }
}

pub fn parse_bulk_action(name: &str) -> (r: Option<BulkAction>)
    ensures
        r == action_named(name@),
{
    if str_eq(name, "delete") {
        Some(BulkAction::Delete)
    } else if str_eq(name, "archive") {
        Some(BulkAction::Archive)
    } else if str_eq(name, "spam") {
        Some(BulkAction::Spam)
    } else if str_eq(name, "read") {
        Some(BulkAction::Read)
    } else if str_eq(name, "unread") {
        Some(BulkAction::Unread)
    } else if str_eq(name, "flag") {
        Some(BulkAction::Flag)
    } else if str_eq(name, "unflag") {
        Some(BulkAction::Unflag)
    } else {
        None
    }
}

/// The ids of the selected messages: the trimmed, non-empty pieces between commas.
pub fn parse_email_ids(email_ids: &str) -> (r: Vec<EmailId>)
    ensures
        r@.len() == comma_items(email_ids@).len(),
        forall|i: int| 0 <= i < r@.len() ==> (#[trigger] r@[i])@ == comma_items(email_ids@)[i],
{
    let items = comma_items_chars(email_ids);
    let mut out: Vec<EmailId> = Vec::new();
    let mut i: usize = 0;
    while i < items.len()
        invariant
            i <= items@.len(),
            crate::text::views(items@) == comma_items(email_ids@),
            out@.len() == i,
            forall|k: int| 0 <= k < i ==> (#[trigger] out@[k])@ == comma_items(email_ids@)[k],
        decreases items@.len() - i,
    {
        assert(crate::text::views(items@)[i as int] == items@[i as int]@);
        out.push(EmailId::from_string(from_chars(&items[i])));
        i = i + 1;
    }
    out
}

/// The bulk action form.
#[derive(Debug, Clone)]
pub struct BulkActionForm {
    pub email_ids: String,
    pub action: String,
    pub mailbox_id: MailboxId,
}

/// What a bulk action form asks for.
#[derive(Debug, Clone)]
pub enum BulkPlan {
    /// No message is selected.
    NothingSelected,
    /// The action is not one of the known ones.
    UnknownAction,
    /// The action, on these messages.
    Act { action: BulkAction, ids: Vec<EmailId> },
}

/// Reads a bulk action form: the selection is checked before the action.
pub fn plan_bulk_action(form: &BulkActionForm) -> (r: BulkPlan)
    ensures
        match r {
            BulkPlan::NothingSelected => comma_items(form.email_ids@).len() == 0,
            BulkPlan::UnknownAction => comma_items(form.email_ids@).len() > 0 && action_named(
                form.action@,
            ) is None,
            BulkPlan::Act { action, ids } => {
                &&& action_named(form.action@) == Some(action)
                &&& ids@.len() == comma_items(form.email_ids@).len() > 0
                &&& forall|i: int| 0 <= i < ids@.len() ==> (#[trigger] ids@[i])@ == comma_items(form.email_ids@)[i]
            },
        },
{
    let ids = parse_email_ids(form.email_ids.as_str());
    if ids.len() == 0 {
        return BulkPlan::NothingSelected;
    }
    match parse_bulk_action(form.action.as_str()) {
        None => BulkPlan::UnknownAction,
        Some(action) => BulkPlan::Act { action, ids },
    }
}

/// The role of the mailbox an action moves messages to: deletes go to the
/// trash (unless already there), archiving to the archive, spam to junk.
pub open spec fn target_role_of(action: BulkAction) -> Option<Seq<char>> {
    match action {
        BulkAction::Delete => Some("trash"@),
        BulkAction::Archive => Some("archive"@),
        BulkAction::Spam => Some("junk"@),
        _ => None,
    }
}

pub fn target_role(action: BulkAction) -> (r: Option<&'static str>)
    ensures
        match r {
            Some(s) => target_role_of(action) == Some(s@),
            None => target_role_of(action) is None,
        },
{
    match action {
        BulkAction::Delete => Some("trash"),
        BulkAction::Archive => Some("archive"),
        BulkAction::Spam => Some("junk"),
        _ => None,
    }
}

/// The keyword an action sets or clears, and whether it sets it.
pub open spec fn keyword_of(action: BulkAction) -> Option<(Seq<char>, bool)> {
    match action {
        BulkAction::Read => Some(("$seen"@, true)),
        BulkAction::Unread => Some(("$seen"@, false)),
        BulkAction::Flag => Some(("$flagged"@, true)),
        BulkAction::Unflag => Some(("$flagged"@, false)),
        _ => None,
    }
}

pub fn keyword_change(action: BulkAction) -> (r: Option<(&'static str, bool)>)
    ensures
        match r {
            Some((k, v)) => keyword_of(action) == Some((k@, v)),
            None => keyword_of(action) is None,
        },
{
    match action {
        BulkAction::Read => Some(("$seen", true)),
        BulkAction::Unread => Some(("$seen", false)),
        BulkAction::Flag => Some(("$flagged", true)),
        BulkAction::Unflag => Some(("$flagged", false)),
        _ => None,
    }
}

/// A delete from the trash itself destroys the messages for good.
pub fn deletes_permanently(mailbox_id: &MailboxId, trash_id: &MailboxId) -> (r: bool)
    ensures
        r == (mailbox_id@ == trash_id@),
{
    str_eq(mailbox_id.as_str(), trash_id.as_str())
}

/// The notice after a bulk action on `count` messages.
pub open spec fn bulk_notice(action: BulkAction, count: nat, permanently: bool) -> Seq<char> {
    decimal(count) + match action {
        BulkAction::Delete => if permanently {
            " emails permanently deleted"@
        } else {
            " emails moved to trash"@
        },
        BulkAction::Archive => " emails archived"@,
        BulkAction::Spam => " emails marked as spam"@,
        BulkAction::Read => " emails marked as read"@,
        BulkAction::Unread => " emails marked as unread"@,
        BulkAction::Flag => " emails starred"@,
        BulkAction::Unflag => " emails unstarred"@,
    }
}

pub fn bulk_flash_message(action: BulkAction, count: usize, permanently: bool) -> (r: String)
    ensures
        r@ == bulk_notice(action, count as nat, permanently),
{
    let mut out = from_chars(&decimal_chars(count as u64));
    let tail = match action {
        BulkAction::Delete => if permanently {
            " emails permanently deleted"
        } else {
            " emails moved to trash"
        },
        BulkAction::Archive => " emails archived",
        BulkAction::Spam => " emails marked as spam",
        BulkAction::Read => " emails marked as read",
        BulkAction::Unread => " emails marked as unread",
        BulkAction::Flag => " emails starred",
        BulkAction::Unflag => " emails unstarred",
    };
    append_str(&mut out, tail);
    out
}

/// The placeholder the detail pane shows when no message is open.
pub open spec fn empty_pane() -> Seq<char> {
    "<div class=\"flex items-center justify-center h-full text-sm text-gray-400\">Select an email to read</div>"@
}

/// The fragment that removes a message's row from the list.
pub open spec fn row_removal(id: Seq<char>) -> Seq<char> {
    "<li id=\"email-row-"@ + id + "\" hx-swap-oob=\"delete\"></li>"@
}

/// The row removals for the messages, in order.
pub open spec fn row_removals(ids: Seq<EmailId>) -> Seq<char>
    decreases ids.len(),
{
    if ids.len() == 0 {
        Seq::empty()
    } else {
        row_removals(ids.drop_last()) + row_removal(ids.last()@)
    }
}

/// The answer to a single move or delete: the empty detail pane, and the
/// message's row removed from the list.
pub fn removal_response(id: &EmailId) -> (r: String)
    ensures
        r@ == empty_pane() + row_removal(id@),
{
    let mut out = String::new();
    append_str(
        &mut out,
        "<div class=\"flex items-center justify-center h-full text-sm text-gray-400\">Select an email to read</div>",
    );
    append_str(&mut out, "<li id=\"email-row-");
    append_str(&mut out, id.as_str());
    append_str(&mut out, "\" hx-swap-oob=\"delete\"></li>");
    out
}

/// The answer to a bulk action: the empty detail pane, and for deletes and
/// moves the rows of the messages removed.
pub open spec fn bulk_response(action: BulkAction, ids: Seq<EmailId>) -> Seq<char> {
    empty_pane() + match action {
        BulkAction::Delete | BulkAction::Archive | BulkAction::Spam => row_removals(ids),
        _ => Seq::empty(),
    }
}

pub fn bulk_response_html(action: BulkAction, ids: &Vec<EmailId>) -> (r: String)
    ensures
        r@ == bulk_response(action, ids@),
{
    let mut out = String::new();
    append_str(
        &mut out,
        "<div class=\"flex items-center justify-center h-full text-sm text-gray-400\">Select an email to read</div>",
    );
    match action {
        BulkAction::Delete | BulkAction::Archive | BulkAction::Spam => {
            let ghost start = out@;
            let mut i: usize = 0;
            while i < ids.len()
                invariant
                    i <= ids@.len(),
                    out@ == start + row_removals(ids@.take(i as int)),
                decreases ids@.len() - i,
            {
                append_str(&mut out, "<li id=\"email-row-");
                append_str(&mut out, ids[i].as_str());
                append_str(&mut out, "\" hx-swap-oob=\"delete\"></li>");
                assert(ids@.take(i + 1).drop_last() =~= ids@.take(i as int));
                i = i + 1;
            }
            assert(ids@.take(ids@.len() as int) =~= ids@);
        },
        _ => {},
    }
    out
}

} // verus!
