//! Reading raw JMAP responses: finding the response to a method call and
//! reporting the errors a server returns.

use vstd::prelude::*;

use crate::error::{JmapErrorKind, MissiveError};
use crate::text::{append_str, opt_is, or_empty, ov, str_eq};

verus! {

/// The JMAP capabilities that contact requests use.
#[allow(non_snake_case)]
pub fn USING_CONTACTS() -> (r: [&'static str; 2])
    ensures
        r@[0]@ == "urn:ietf:params:jmap:core"@,
        r@[1]@ == "urn:ietf:params:jmap:contacts"@,
{
    ["urn:ietf:params:jmap:core", "urn:ietf:params:jmap:contacts"]
}

/// The JMAP capabilities that calendar requests use.
#[allow(non_snake_case)]
pub fn USING_CALENDARS() -> (r: [&'static str; 2])
    ensures
        r@[0]@ == "urn:ietf:params:jmap:core"@,
        r@[1]@ == "urn:ietf:params:jmap:calendars"@,
{
    ["urn:ietf:params:jmap:core", "urn:ietf:params:jmap:calendars"]
}

/// What the lookup reads of one entry of `methodResponses`.
#[derive(Debug, Clone)]
pub struct ResponseCall {
    /// The entry is an array of at least three elements.
    pub is_invocation: bool,
    /// Its first element, where that is a string.
    pub name: Option<String>,
    /// Its third element, where that is a string.
    pub call_id: Option<String>,
    /// `type` of its second element, where that is a string.
    pub error_type: Option<String>,
    /// `description` of its second element, where that is a string.
    pub error_description: Option<String>,
}

/// The entry answers the call `call_id`.
pub open spec fn answers(c: ResponseCall, call_id: Seq<char>) -> bool {
    c.is_invocation && ov(c.call_id) == Some(call_id)
}

/// The position of the first entry that answers the call.
pub open spec fn answer_index(calls: Seq<ResponseCall>, call_id: Seq<char>) -> Option<int>
    decreases calls.len(),
{
    if calls.len() == 0 {
        None
    } else if answers(calls[0], call_id) {
        Some(0)
    } else {
        match answer_index(calls.drop_first(), call_id) {
            Some(i) => Some(i + 1),
            None => None,
        }
    }
}

/// The message of an error a server returned: its type (`unknown` where
/// missing) and its description.
pub open spec fn server_error_text(err_type: Option<String>, description: Option<String>) -> Seq<char> {
    (match err_type {
        Some(t) => t@,
        None => "unknown"@,
    }) + ": "@ + or_empty(description)
}

/// The message of an error a server returned.
pub fn set_error_message(err_type: &Option<String>, description: &Option<String>) -> (r: String)
    ensures
        r@ == server_error_text(*err_type, *description),
{
    let mut out = match err_type {
        Some(t) => t.clone(),
        None => "unknown".to_owned(),
    };
    append_str(&mut out, ": ");
    match description {
        Some(d) => append_str(&mut out, d.as_str()),
        None => {},
    }
    out
}

/// The query failure reported for the call.
pub open spec fn query_failed(e: MissiveError, call_id: Seq<char>, message: Seq<char>) -> bool {
    e matches MissiveError::Jmap(JmapErrorKind::QueryFailed { method, message: m }) && method@ == call_id
        && m@ == message
}

/// The position of the response to the call `call_id` among the method
/// responses (`None` where the response holds no such array): the first
/// entry that answers it, unless that entry is an `error`, which is
/// reported with its type and description.
#[verifier::loop_isolation(false)]
pub fn extract_method_response(calls: Option<&Vec<ResponseCall>>, call_id: &str) -> (r: Result<usize, MissiveError>)
    ensures
        match calls {
            None => r matches Err(e) && query_failed(e, call_id@, "no methodResponses array"@),
            Some(cs) => match answer_index(cs@, call_id@) {
                None => r matches Err(e) && query_failed(e, call_id@, "call ID not found in response"@),
                Some(i) => if ov(cs@[i].name) == Some("error"@) {
                    r matches Err(e) && query_failed(
                        e,
                        call_id@,
                        server_error_text(cs@[i].error_type, cs@[i].error_description),
                    )
                } else {
                    r == Ok::<usize, MissiveError>(i as usize)
                },
            },
        },
{
    let cs = match calls {
        None => {
            return Err(
                MissiveError::Jmap(
                    JmapErrorKind::QueryFailed {
                        method: call_id.to_owned(),
                        message: "no methodResponses array".to_owned(),
                    },
                ),
            );
        },
        Some(cs) => cs,
    };
    let n = cs.len();
    let mut i: usize = 0;
    assert(cs@.subrange(0, n as int) =~= cs@);
    while i < n
        invariant
            n == cs@.len(),
            i <= n,
            answer_index(cs@, call_id@) == match answer_index(cs@.subrange(i as int, n as int), call_id@) {
                Some(k) => Some(k + i),
                None => None::<int>,
            },
        decreases n - i,
    {
        let ghost rest = cs@.subrange(i as int, n as int);
        assert(rest[0] == cs@[i as int]);
        assert(rest.drop_first() =~= cs@.subrange(i + 1, n as int));
        let c = &cs[i];
        if c.is_invocation && opt_is(&c.call_id, call_id) {
            if opt_is(&c.name, "error") {
                return Err(
                    MissiveError::Jmap(
                        JmapErrorKind::QueryFailed {
                            method: call_id.to_owned(),
                            message: set_error_message(&c.error_type, &c.error_description),
                        },
                    ),
                );
            }
            return Ok(i);
        }
        i = i + 1;
    }
    Err(
        MissiveError::Jmap(
            JmapErrorKind::QueryFailed {
                method: call_id.to_owned(),
                message: "call ID not found in response".to_owned(),
            },
        ),
    )
}

/// What the calendar lookup reads of a calendar.
#[derive(Debug, Clone)]
pub struct CalendarEntry {
    pub id: Option<String>,
    pub is_default: Option<bool>,
}

/// The calendar new events go to: the first marked as default, else the
/// first listed.
pub open spec fn default_calendar(cs: Seq<CalendarEntry>) -> Option<CalendarEntry> {
    if exists|i: int| 0 <= i < cs.len() && (#[trigger] cs[i]).is_default == Some(true) {
        let i = choose|i: int|
            0 <= i < cs.len() && (#[trigger] cs[i]).is_default == Some(true) && forall|j: int|
                0 <= j < i ==> cs[j].is_default != Some(true);
        Some(cs[i])
    } else if cs.len() > 0 {
        Some(cs[0])
    } else {
        None
    }
}

/// The id of the calendar new events go to; the error where there is no
/// calendar, or the chosen one has no id.
pub fn choose_default_calendar(calendars: &Vec<CalendarEntry>) -> (r: Result<String, MissiveError>)
    ensures
        match default_calendar(calendars@) {
            Some(c) => match c.id {
                Some(id) => r matches Ok(x) && x@ == id@,
                None => r matches Err(e) && query_failed(e, "Calendar/get"@, "no calendars found"@),
            },
            None => r matches Err(e) && query_failed(e, "Calendar/get"@, "no calendars found"@),
        },
{
    let mut chosen: Option<usize> = None;
    let mut i: usize = 0;
    while i < calendars.len()
        invariant
            i <= calendars@.len(),
            chosen is None ==> forall|j: int| 0 <= j < i ==> calendars@[j].is_default != Some(true),
            chosen matches Some(k) ==> k < calendars@.len() && calendars@[k as int].is_default == Some(true)
                && forall|j: int| 0 <= j < k ==> calendars@[j].is_default != Some(true),
        decreases calendars@.len() - i,
    {
        if chosen.is_none() {
            if let Some(true) = calendars[i].is_default {
                chosen = Some(i);
            }
        }
        i = i + 1;
    }
    let pick: Option<usize> = match chosen {
        Some(k) => Some(k),
        None => if calendars.len() > 0 {
            Some(0)
        } else {
            None
        },
    };
    proof {
        if let Some(k) = chosen {
            let w = choose|i: int|
                0 <= i < calendars@.len() && (#[trigger] calendars@[i]).is_default == Some(true) && forall|j: int|
                    0 <= j < i ==> calendars@[j].is_default != Some(true);
            assert(calendars@[k as int].is_default == Some(true));
            if w < k {
                assert(calendars@[w].is_default != Some(true));
            }
            if k < w {
                assert(calendars@[k as int].is_default != Some(true));
            }
        }
    }
    match pick {
        Some(k) => match &calendars[k].id {
            Some(id) => Ok(id.clone()),
            None => Err(
                MissiveError::Jmap(
                    JmapErrorKind::QueryFailed {
                        method: "Calendar/get".to_owned(),
                        message: "no calendars found".to_owned(),
                    },
                ),
            ),
        },
        None => Err(
            MissiveError::Jmap(
                JmapErrorKind::QueryFailed {
                    method: "Calendar/get".to_owned(),
                    message: "no calendars found".to_owned(),
                },
            ),
        ),
    }
}

} // verus!
