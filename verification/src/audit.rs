//! The audit trail of account events.

use vstd::prelude::*;
use crate::ids::{hyphenated, uuid_string};
use crate::text::string_of;

verus! {

/// The account events that are audited.
#[derive(Debug, Clone, Copy, PartialEq, Eq, Structural)]
pub enum AuditAction {
    UserRegistered,
    LoginFailed,
    UserLoggedIn,
}

/// The name under which an event is recorded.
pub open spec fn action_text(a: AuditAction) -> Seq<char> {
    match a {
        AuditAction::UserRegistered => seq!['u', 's', 'e', 'r', '_', 'r', 'e', 'g', 'i', 's', 't', 'e', 'r', 'e', 'd'],
        AuditAction::LoginFailed => seq!['l', 'o', 'g', 'i', 'n', '_', 'f', 'a', 'i', 'l', 'e', 'd'],
        AuditAction::UserLoggedIn => seq!['u', 's', 'e', 'r', '_', 'l', 'o', 'g', 'g', 'e', 'd', '_', 'i', 'n'],
    }
}

/// One entry of the audit trail.
pub struct AuditEvent {
    pub user_id: Option<u128>,
    pub action: String,
    pub resource_type: String,
    pub resource_id: Option<String>,
    pub ip_address: Option<String>,
    pub user_agent: Option<String>,
}

/// The audit entry of `action` on the account `user_id`, from a request that
/// came from `ip_address` with `user_agent`.
pub fn user_event(user_id: u128, action: AuditAction, ip_address: Option<String>, user_agent: Option<String>) -> (e: AuditEvent)
    ensures
        e.user_id == Some(user_id),
        e.action@ == action_text(action),
        e.resource_type@ == seq!['u', 's', 'e', 'r'],
        e.resource_id matches Some(r) && r@ == hyphenated(user_id),
        e.ip_address == ip_address,
        e.user_agent == user_agent,
{
    let a = match action {
        AuditAction::UserRegistered => vec!['u', 's', 'e', 'r', '_', 'r', 'e', 'g', 'i', 's', 't', 'e', 'r', 'e', 'd'],
        AuditAction::LoginFailed => vec!['l', 'o', 'g', 'i', 'n', '_', 'f', 'a', 'i', 'l', 'e', 'd'],
        AuditAction::UserLoggedIn => vec!['u', 's', 'e', 'r', '_', 'l', 'o', 'g', 'g', 'e', 'd', '_', 'i', 'n'],
    };
    assert(a@ =~= action_text(action));
    let t = vec!['u', 's', 'e', 'r'];
    assert(t@ =~= seq!['u', 's', 'e', 'r']);
    AuditEvent {
        user_id: Some(user_id),
        action: string_of(a.as_slice()),
        resource_type: string_of(t.as_slice()),
        resource_id: Some(uuid_string(user_id)),
        ip_address,
        user_agent,
    }
}

} // verus!
