//! Ticket, epic and slice records, with the request and response shapes of
//! the ticket store's API surface.
//!
//! A ticket owns at most one pipeline, embedded in the ticket record itself
//! rather than stored as a separate aggregate.

use vstd::prelude::*;
use crate::pipeline::Pipeline;

verus! {

/// A large unit of work grouping slices.
#[derive(Clone, Debug, PartialEq)]
pub struct Epic {
    pub epic_id: String,
    pub title: String,
    pub organization: Option<String>,
    pub notes: Option<String>,
    pub assignees: Option<Vec<String>>,
    pub created_at_iso: String,
    pub updated_at_iso: String,
    pub slice_count: Option<u32>,
    pub ticket_count: Option<u32>,
}

/// A slice of an epic grouping tickets.
#[derive(Clone, Debug, PartialEq)]
pub struct Slice {
    pub slice_id: String,
    pub epic_id: String,
    pub title: String,
    pub notes: Option<String>,
    pub assignees: Option<Vec<String>>,
    pub created_at_iso: String,
    pub updated_at_iso: String,
    pub ticket_count: Option<u32>,
}

/// A work item.  The pipeline attached to it, when any, is exclusively owned
/// by the ticket.
#[derive(Clone, Debug, PartialEq)]
pub struct Ticket {
    pub ticket_id: String,
    pub epic_id: String,
    pub slice_id: String,
    pub organization: String,
    pub title: String,
    pub intent: String,
    pub description: Option<String>,
    pub ticket_type: String,
    pub status: String,
    pub priority: Option<String>,
    pub assignee: Option<String>,
    pub notes: Option<String>,
    pub blocks_tickets: Option<Vec<String>>,
    pub blocked_by_tickets: Option<Vec<String>>,
    pub caused_by_tickets: Option<Vec<String>>,
    pub created_at: i64,
    pub updated_at: i64,
    pub created_at_iso: String,
    pub updated_at_iso: String,
    pub pipeline: Option<Pipeline>,
}

impl Ticket {
    /// Well-formedness: the embedded pipeline, when present, has unique step
    /// identifiers.
    pub open spec fn wf(self) -> bool {
        self.pipeline matches Some(p) ==> p.wf()
    }
}

/// Configuration of one mailbox the background email fetcher polls.
#[derive(Clone, Debug, PartialEq)]
pub struct EmailAccount {
    pub email: String,
    pub password: String,
    pub imap_host: String,
    pub imap_port: u16,
}

/// Request to create an epic.
#[derive(Clone, Debug, PartialEq)]
pub struct CreateEpicRequest {
    pub epic_id: String,
    pub title: String,
    pub organization: String,
    pub notes: Option<String>,
    pub assignees: Option<Vec<String>>,
}

/// Request to create a slice.
#[derive(Clone, Debug, PartialEq)]
pub struct CreateSliceRequest {
    pub title: String,
    pub notes: Option<String>,
    pub assignees: Option<Vec<String>>,
}

/// Request to create a ticket.
#[derive(Clone, Debug, PartialEq)]
pub struct CreateTicketRequest {
    pub title: String,
    pub intent: Option<String>,
    pub notes: Option<String>,
    pub priority: Option<String>,
    pub assignees: Option<Vec<String>>,
    pub tags: Option<Vec<String>>,
}

/// Request to update a ticket's mutable fields.
#[derive(Clone, Debug, PartialEq)]
pub struct UpdateTicketRequest {
    pub status: Option<String>,
    pub notes: Option<String>,
}

/// Request to set a ticket's status.
#[derive(Clone, Debug, PartialEq)]
pub struct UpdateTicketStatusRequest {
    pub status: String,
}

/// Request to add a relationship between two tickets.
#[derive(Clone, Debug, PartialEq)]
pub struct AddRelationshipRequest {
    pub relationship_type: String,
    pub target_ticket_id: String,
}

/// Request to remove a relationship between two tickets.
#[derive(Clone, Debug, PartialEq)]
pub struct RemoveRelationshipRequest {
    pub relationship_type: String,
    pub target_ticket_id: String,
}

/// Response listing epics.
#[derive(Clone, Debug, PartialEq)]
pub struct EpicsResponse {
    pub epics: Vec<Epic>,
}

/// Response listing slices.
#[derive(Clone, Debug, PartialEq)]
pub struct SlicesResponse {
    pub slices: Vec<Slice>,
}

/// Response listing tickets.
#[derive(Clone, Debug, PartialEq)]
pub struct TicketsResponse {
    pub tickets: Vec<Ticket>,
}

} // verus!
