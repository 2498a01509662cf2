//! Human approval of agent actions: requests, priorities and decisions.
use vstd::prelude::*;
use crate::json::Json;
use crate::types::{AgentId, ApprovalId, UserId};

verus! {

/// Kind of action awaiting approval.
#[derive(Debug, Clone)]
pub enum ActionType {
    /// Running a tool.
    ToolExecution,
    /// Handing off to another agent.
    Handoff,
    /// Delivering output.
    OutputDelivery,
    /// Any other action.
    Custom(String),
}

/// Data an approver sees, each key once.
#[derive(Debug)]
pub struct ApprovalContext {
    /// Entries.
    pub data: Vec<(String, Json)>,
}

/// Urgency of an approval request.
#[derive(Debug, Clone, Copy, PartialEq, Eq, Structural)]
pub enum Priority {
    Low,
    Medium,
    High,
    Critical,
}

/// A request for human approval. The deadline is in milliseconds since the
/// Unix epoch.
#[derive(Debug)]
pub struct ApprovalRequest {
    /// Request id.
    pub id: ApprovalId,
    /// Agent asking.
    pub agent_id: AgentId,
    /// Kind of action.
    pub action_type: ActionType,
    /// What is to be approved.
    pub description: String,
    /// Data for the approver.
    pub context: ApprovalContext,
    /// Urgency.
    pub priority: Priority,
    /// Deadline.
    pub deadline: Option<i64>,
    /// Who should decide.
    pub suggested_approvers: Vec<UserId>,
}

/// What the approver decided.
#[derive(Debug, Clone)]
pub enum ApprovalDecision {
    Approved { approver: UserId, notes: Option<String> },
    Rejected { approver: UserId, reason: String },
    ModificationRequired { approver: UserId, instructions: String },
    Escalated { target: UserId, reason: String },
    AutoApproved { reason: String },
}

/// Where a request stands.
#[derive(Debug, Clone, Copy, PartialEq, Eq, Structural)]
pub enum ApprovalStatus {
    Pending,
    Approved,
    Rejected,
    Escalated,
    Expired,
}

} // verus!
