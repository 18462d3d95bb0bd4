//! Earlier shapes of the action types.

use vstd::prelude::*;

verus! {

/// A kind of action, and whether it needs a ticket.
#[derive(Clone, PartialEq, Debug)]
pub struct ActionKind {
    pub id: u64,
    pub kind: String,
    pub requires_ticket: bool,
    pub deleted_at: Option<u64>,
}

/// A ticket for a dangerous action, sent to a contact.
#[derive(Clone, PartialEq, Debug)]
pub struct ActionTicket {
    pub id: u64,
    pub action_kind_id: u64,
    pub organization_id: Option<u64>,
    pub people_id: Option<u64>,
    pub token: u64,
    pub contact_kind_id: u64,
    pub contact_content: String,
    pub deleted_at: Option<u64>,
}

/// The counter of dangerous actions by one person.
#[derive(Clone, PartialEq, Debug)]
pub struct ActionTicketRateLimit {
    pub id: u64,
    pub people_id: Option<u64>,
    pub dangerous_action_kind_id: String,
    pub prev_window_count: u64,
    pub window_count: u64,
    pub deleted_at: Option<u64>,
}

} // verus!
