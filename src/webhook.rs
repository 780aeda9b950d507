use vstd::prelude::*;

use crate::text::{branch_name, same_text, strip_heads};

verus! {

/// The two fields read from a push notification's JSON body.
pub struct HookPayload {
    pub ref_field: String,
    pub repository_name: String,
}

/// A push to `branch` of `repository`.
pub struct PushEvent {
    pub repository: String,
    pub branch: String,
}

/// Why an inbound notification was dropped before any lookup.
#[derive(Debug, Clone, Copy, PartialEq, Eq, Structural)]
pub enum Rejected {
    MissingEventHeader,
    NotPush,
    MalformedBody,
}

/// The event-type value of a push notification.
pub open spec fn push_literal() -> Seq<char> {
    seq!['p', 'u', 's', 'h']
}

pub open spec fn is_push(event_type: Option<&str>) -> bool {
    event_type matches Some(e) && e@ == push_literal()
}

/// Turns the event-type header (absent: `None`) and the body's fields (`None` when the
/// body lacks them) into a push event, or says why the notification is dropped.
pub fn decode(event_type: Option<&str>, payload: Option<HookPayload>) -> (r: Result<
    PushEvent,
    Rejected,
>)
    ensures
        event_type is None ==> r matches Err(Rejected::MissingEventHeader),
        event_type is Some && !is_push(event_type) ==> r matches Err(Rejected::NotPush),
        is_push(event_type) && payload is None ==> r matches Err(Rejected::MalformedBody),
        is_push(event_type) && payload is Some <==> r is Ok,
        r matches Ok(ev) ==> ev.repository@ == payload->0.repository_name@ && ev.branch@
            == branch_name(payload->0.ref_field@),
{
    let e = match event_type {
        None => {
            return Err(Rejected::MissingEventHeader);
        },
        Some(e) => e,
    };
    let push = "push";
    proof {
        reveal_strlit("push");
        assert(push@ =~= push_literal());
    }
    if !same_text(e, push) {
        return Err(Rejected::NotPush);
    }
    match payload {
        None => Err(Rejected::MalformedBody),
        Some(p) => {
            let branch = strip_heads(p.ref_field.as_str());
            Ok(PushEvent { repository: p.repository_name, branch })
        },
    }
}

} // verus!
