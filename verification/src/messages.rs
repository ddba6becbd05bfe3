//! The stored messages of a task's chat.
use vstd::prelude::*;
use vstd::string::*;

use crate::ids::{new_id, now_rfc3339};
use crate::text::{concat, str_eq};

verus! {

broadcast use vstd::string::group_string_axioms;

/// A stored chat message.
#[derive(Debug)]
pub struct Message {
    pub id: String,
    pub task_id: String,
    pub role: String,
    pub content: String,
    pub tool_calls: Option<String>,
    pub created_at: String,
}

/// A chat message to store.
#[derive(Debug)]
pub struct InsertMessagePayload {
    pub task_id: String,
    pub role: String,
    pub content: String,
    pub tool_calls: Option<String>,
}

/// The roles a stored message may have.
pub open spec fn valid_role(role: Seq<char>) -> bool {
    role == "user"@ || role == "assistant"@ || role == "system"@
}

/// Accept the roles `user`, `assistant` and `system`.
pub fn check_role(role: &str) -> (r: Result<(), String>)
    ensures
        r is Ok <==> valid_role(role@),
        r matches Err(e) ==> e@ == "Invalid role '"@ + role@
            + "'. Must be one of: user, assistant, system"@,
{
    if str_eq(role, "user") || str_eq(role, "assistant") || str_eq(role, "system") {
        Ok(())
    } else {
        Err(
            concat(
                concat("Invalid role '", role).as_str(),
                "'. Must be one of: user, assistant, system",
            ),
        )
    }
}

/// The message stored for a payload, with its id and creation time.
pub fn message_from_parts(id: String, payload: InsertMessagePayload, now: String) -> (r: Message)
    ensures
        r.id@ == id@,
        r.task_id@ == payload.task_id@,
        r.role@ == payload.role@,
        r.content@ == payload.content@,
        r.tool_calls == payload.tool_calls,
        r.created_at@ == now@,
{
    Message {
        id,
        task_id: payload.task_id,
        role: payload.role,
        content: payload.content,
        tool_calls: payload.tool_calls,
        created_at: now,
    }
}

/// The message to store for a payload with a fresh id, created now; an
/// error for a role that is not allowed, or when no id or no time could be
/// had.
pub fn new_message(payload: InsertMessagePayload) -> (r: Result<Message, String>)
    ensures
        r is Ok ==> valid_role(payload.role@),
        r matches Ok(m) ==> m.task_id@ == payload.task_id@ && m.role@ == payload.role@
            && m.content@ == payload.content@ && m.tool_calls == payload.tool_calls && m.id@.len()
            == 36,
        !valid_role(payload.role@) ==> (r matches Err(e) && e@ == "Invalid role '"@
            + payload.role@ + "'. Must be one of: user, assistant, system"@),
        valid_role(payload.role@) && r is Err ==> r->Err_0@
            == "Cannot create a message id or timestamp"@,
{
    match check_role(payload.role.as_str()) {
        Err(e) => Err(e),
        Ok(()) => {
            let id = new_id();
            let now = now_rfc3339();
            match (id, now) {
                (Some(id), Some(now)) => Ok(message_from_parts(id, payload, now)),
                _ => Err(String::from_str("Cannot create a message id or timestamp")),
            }
        },
    }
}

} // verus!
