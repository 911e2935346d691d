//! Typed command entities: the envelope carrying one directive to the
//! vehicle, the result answering it, and the enumerations that describe
//! domain, priority, authority, status and rejection reason.
//!
//! Each enumeration has a stable small-integer wire code; the pairs of
//! `spec_code` / `spec_from_code` functions define those tables and the
//! round-trip lemmas pin them down.

use vstd::prelude::*;

verus! {

/// Who issued a command.
#[derive(Clone, Copy, Debug, PartialEq, Eq, Structural)]
pub enum CommandAuthority {
    Unknown,
    Autonomy,
    RemoteOperator,
    MissionControl,
    SafetySystem,
}

/// The functional area a command belongs to.
#[derive(Clone, Copy, Debug, PartialEq, Eq, Structural)]
pub enum CommandDomain {
    Mobility,
    Posture,
    Perception,
    Security,
    Mission,
    Interaction,
    Health,
    Authority,
}

/// Scheduling priority of a command: Background < Normal < High < Critical.
#[derive(Clone, Copy, Debug, PartialEq, Eq, Structural)]
pub enum CommandPriority {
    Background,
    Normal,
    High,
    Critical,
}

/// Lifecycle state of a command.
#[derive(Clone, Copy, Debug, PartialEq, Eq, Structural)]
pub enum CommandStatus {
    Unset,
    Received,
    Accepted,
    Rejected,
    Running,
    Succeeded,
    Failed,
    Aborted,
    Preempted,
    Expired,
}

/// Why a command was rejected; meaningful only beside `CommandStatus::Rejected`,
/// otherwise `Unset`.
#[derive(Clone, Copy, Debug, PartialEq, Eq, Structural)]
pub enum RejectReason {
    Unset,
    NotAuthorized,
    InvalidPayload,
    Unsupported,
    Unsafe,
    Busy,
    PreconditionsFail,
    Timeout,
    StaleCommand,
}

impl CommandAuthority {
    /// Stable wire code of this authority.
    pub open spec fn spec_code(self) -> u16 {
        match self {
            CommandAuthority::Unknown => 0,
            CommandAuthority::Autonomy => 1,
            CommandAuthority::RemoteOperator => 2,
            CommandAuthority::MissionControl => 3,
            CommandAuthority::SafetySystem => 4,
        }
    }

    /// The authority a wire code denotes; `None` for a code outside the table.
    pub open spec fn spec_from_code(code: u16) -> Option<CommandAuthority> {
        match code {
            0u16 => Some(CommandAuthority::Unknown),
            1u16 => Some(CommandAuthority::Autonomy),
            2u16 => Some(CommandAuthority::RemoteOperator),
            3u16 => Some(CommandAuthority::MissionControl),
            4u16 => Some(CommandAuthority::SafetySystem),
            _ => None,
        }
    }

    pub fn code(self) -> (c: u16)
        ensures
            c == self.spec_code(),
    {
        match self {
            CommandAuthority::Unknown => 0,
            CommandAuthority::Autonomy => 1,
            CommandAuthority::RemoteOperator => 2,
            CommandAuthority::MissionControl => 3,
            CommandAuthority::SafetySystem => 4,
        }
    }

    pub fn from_code(code: u16) -> (r: Option<CommandAuthority>)
        ensures
            r == Self::spec_from_code(code),
    {
        match code {
            0 => Some(CommandAuthority::Unknown),
            1 => Some(CommandAuthority::Autonomy),
            2 => Some(CommandAuthority::RemoteOperator),
            3 => Some(CommandAuthority::MissionControl),
            4 => Some(CommandAuthority::SafetySystem),
            _ => None,
        }
    }
}

impl CommandDomain {
    /// Stable wire code of this domain.
    pub open spec fn spec_code(self) -> u16 {
        match self {
            CommandDomain::Mobility => 0,
            CommandDomain::Posture => 1,
            CommandDomain::Perception => 2,
            CommandDomain::Security => 3,
            CommandDomain::Mission => 4,
            CommandDomain::Interaction => 5,
            CommandDomain::Health => 6,
            CommandDomain::Authority => 7,
        }
    }

    /// The domain a wire code denotes; `None` for a code outside the table.
    pub open spec fn spec_from_code(code: u16) -> Option<CommandDomain> {
        match code {
            0u16 => Some(CommandDomain::Mobility),
            1u16 => Some(CommandDomain::Posture),
            2u16 => Some(CommandDomain::Perception),
            3u16 => Some(CommandDomain::Security),
            4u16 => Some(CommandDomain::Mission),
            5u16 => Some(CommandDomain::Interaction),
            6u16 => Some(CommandDomain::Health),
            7u16 => Some(CommandDomain::Authority),
            _ => None,
        }
    }

    pub fn code(self) -> (c: u16)
        ensures
            c == self.spec_code(),
    {
        match self {
            CommandDomain::Mobility => 0,
            CommandDomain::Posture => 1,
            CommandDomain::Perception => 2,
            CommandDomain::Security => 3,
            CommandDomain::Mission => 4,
            CommandDomain::Interaction => 5,
            CommandDomain::Health => 6,
            CommandDomain::Authority => 7,
        }
    }

    pub fn from_code(code: u16) -> (r: Option<CommandDomain>)
        ensures
            r == Self::spec_from_code(code),
    {
        match code {
            0 => Some(CommandDomain::Mobility),
            1 => Some(CommandDomain::Posture),
            2 => Some(CommandDomain::Perception),
            3 => Some(CommandDomain::Security),
            4 => Some(CommandDomain::Mission),
            5 => Some(CommandDomain::Interaction),
            6 => Some(CommandDomain::Health),
            7 => Some(CommandDomain::Authority),
            _ => None,
        }
    }
}

impl CommandPriority {
    /// Stable wire code of this priority.
    pub open spec fn spec_code(self) -> u16 {
        match self {
            CommandPriority::Background => 0,
            CommandPriority::Normal => 1,
            CommandPriority::High => 2,
            CommandPriority::Critical => 3,
        }
    }

    /// The priority a wire code denotes; `None` for a code outside the table.
    pub open spec fn spec_from_code(code: u16) -> Option<CommandPriority> {
        match code {
            0u16 => Some(CommandPriority::Background),
            1u16 => Some(CommandPriority::Normal),
            2u16 => Some(CommandPriority::High),
            3u16 => Some(CommandPriority::Critical),
            _ => None,
        }
    }

    pub fn code(self) -> (c: u16)
        ensures
            c == self.spec_code(),
    {
        match self {
            CommandPriority::Background => 0,
            CommandPriority::Normal => 1,
            CommandPriority::High => 2,
            CommandPriority::Critical => 3,
        }
    }

    pub fn from_code(code: u16) -> (r: Option<CommandPriority>)
        ensures
            r == Self::spec_from_code(code),
    {
        match code {
            0 => Some(CommandPriority::Background),
            1 => Some(CommandPriority::Normal),
            2 => Some(CommandPriority::High),
            3 => Some(CommandPriority::Critical),
            _ => None,
        }
    }
}

impl CommandStatus {
    /// Stable wire code of this status.
    pub open spec fn spec_code(self) -> u16 {
        match self {
            CommandStatus::Unset => 0,
            CommandStatus::Received => 1,
            CommandStatus::Accepted => 2,
            CommandStatus::Rejected => 3,
            CommandStatus::Running => 4,
            CommandStatus::Succeeded => 5,
            CommandStatus::Failed => 6,
            CommandStatus::Aborted => 7,
            CommandStatus::Preempted => 8,
            CommandStatus::Expired => 9,
        }
    }

    /// The status a wire code denotes; a code outside the table reads as `Unset`.
    pub open spec fn spec_from_code(code: u16) -> CommandStatus {
        match code {
            1u16 => CommandStatus::Received,
            2u16 => CommandStatus::Accepted,
            3u16 => CommandStatus::Rejected,
            4u16 => CommandStatus::Running,
            5u16 => CommandStatus::Succeeded,
            6u16 => CommandStatus::Failed,
            7u16 => CommandStatus::Aborted,
            8u16 => CommandStatus::Preempted,
            9u16 => CommandStatus::Expired,
            _ => CommandStatus::Unset,
        }
    }

    pub fn code(self) -> (c: u16)
        ensures
            c == self.spec_code(),
    {
        match self {
            CommandStatus::Unset => 0,
            CommandStatus::Received => 1,
            CommandStatus::Accepted => 2,
            CommandStatus::Rejected => 3,
            CommandStatus::Running => 4,
            CommandStatus::Succeeded => 5,
            CommandStatus::Failed => 6,
            CommandStatus::Aborted => 7,
            CommandStatus::Preempted => 8,
            CommandStatus::Expired => 9,
        }
    }

    pub fn from_code(code: u16) -> (r: CommandStatus)
        ensures
            r == Self::spec_from_code(code),
    {
        match code {
            1 => CommandStatus::Received,
            2 => CommandStatus::Accepted,
            3 => CommandStatus::Rejected,
            4 => CommandStatus::Running,
            5 => CommandStatus::Succeeded,
            6 => CommandStatus::Failed,
            7 => CommandStatus::Aborted,
            8 => CommandStatus::Preempted,
            9 => CommandStatus::Expired,
            _ => CommandStatus::Unset,
        }
    }
}

impl RejectReason {
    /// Stable wire code of this rejection reason.
    pub open spec fn spec_code(self) -> u16 {
        match self {
            RejectReason::Unset => 0,
            RejectReason::NotAuthorized => 1,
            RejectReason::InvalidPayload => 2,
            RejectReason::Unsupported => 3,
            RejectReason::Unsafe => 4,
            RejectReason::Busy => 5,
            RejectReason::PreconditionsFail => 6,
            RejectReason::Timeout => 7,
            RejectReason::StaleCommand => 8,
        }
    }

    /// The reason a wire code denotes; a code outside the table reads as `Unset`.
    pub open spec fn spec_from_code(code: u16) -> RejectReason {
        match code {
            1u16 => RejectReason::NotAuthorized,
            2u16 => RejectReason::InvalidPayload,
            3u16 => RejectReason::Unsupported,
            4u16 => RejectReason::Unsafe,
            5u16 => RejectReason::Busy,
            6u16 => RejectReason::PreconditionsFail,
            7u16 => RejectReason::Timeout,
            8u16 => RejectReason::StaleCommand,
            _ => RejectReason::Unset,
        }
    }

    pub fn code(self) -> (c: u16)
        ensures
            c == self.spec_code(),
    {
        match self {
            RejectReason::Unset => 0,
            RejectReason::NotAuthorized => 1,
            RejectReason::InvalidPayload => 2,
            RejectReason::Unsupported => 3,
            RejectReason::Unsafe => 4,
            RejectReason::Busy => 5,
            RejectReason::PreconditionsFail => 6,
            RejectReason::Timeout => 7,
            RejectReason::StaleCommand => 8,
        }
    }

    pub fn from_code(code: u16) -> (r: RejectReason)
        ensures
            r == Self::spec_from_code(code),
    {
        match code {
            1 => RejectReason::NotAuthorized,
            2 => RejectReason::InvalidPayload,
            3 => RejectReason::Unsupported,
            4 => RejectReason::Unsafe,
            5 => RejectReason::Busy,
            6 => RejectReason::PreconditionsFail,
            7 => RejectReason::Timeout,
            8 => RejectReason::StaleCommand,
            _ => RejectReason::Unset,
        }
    }
}

/// Every authority round-trips through its wire code.
pub proof fn lemma_authority_code_round_trip(a: CommandAuthority)
    ensures
        CommandAuthority::spec_from_code(a.spec_code()) == Some(a),
{
}

/// Every domain round-trips through its wire code.
pub proof fn lemma_domain_code_round_trip(d: CommandDomain)
    ensures
        CommandDomain::spec_from_code(d.spec_code()) == Some(d),
{
}

/// Every priority round-trips through its wire code.
pub proof fn lemma_priority_code_round_trip(p: CommandPriority)
    ensures
        CommandPriority::spec_from_code(p.spec_code()) == Some(p),
{
}

/// Every status round-trips through its wire code.
pub proof fn lemma_status_code_round_trip(s: CommandStatus)
    ensures
        CommandStatus::spec_from_code(s.spec_code()) == s,
{
}

/// Every rejection reason round-trips through its wire code.
pub proof fn lemma_reject_code_round_trip(r: RejectReason)
    ensures
        RejectReason::spec_from_code(r.spec_code()) == r,
{
}

/// Vehicle-specific action selector, carried transparently as its wire code.
#[derive(Clone, Copy, Debug, PartialEq, Eq, Structural)]
pub struct UgvCommand {
    pub code: u16,
}

/// One discrete directive issued to the vehicle, with its routing and
/// authorization metadata and an opaque structured-text payload.
#[derive(Clone, Debug)]
pub struct CommandEnvelope {
    pub command: UgvCommand,
    pub domain: CommandDomain,
    pub priority: CommandPriority,
    pub authority: CommandAuthority,
    pub command_id: u64,
    pub issued_ns: u64,
    pub ttl_ns: u64,
    pub payload_json: String,
}

/// Mathematical value of a `CommandEnvelope`: the same fields with text
/// abstracted to character sequences.
pub ghost struct EnvelopeV {
    pub command: UgvCommand,
    pub domain: CommandDomain,
    pub priority: CommandPriority,
    pub authority: CommandAuthority,
    pub command_id: u64,
    pub issued_ns: u64,
    pub ttl_ns: u64,
    pub payload_json: Seq<char>,
}

impl View for CommandEnvelope {
    type V = EnvelopeV;

    open spec fn view(&self) -> EnvelopeV {
        EnvelopeV {
            command: self.command,
            domain: self.domain,
            priority: self.priority,
            authority: self.authority,
            command_id: self.command_id,
            issued_ns: self.issued_ns,
            ttl_ns: self.ttl_ns,
            payload_json: self.payload_json@,
        }
    }
}

/// Outcome of processing one command. `reject_reason` is meaningful only
/// when `status` is `Rejected`; otherwise it is `RejectReason::Unset`.
#[derive(Clone, Debug)]
pub struct CommandResult {
    pub status: CommandStatus,
    pub reject_reason: RejectReason,
    pub message: String,
}

/// Mathematical value of a `CommandResult`.
pub ghost struct ResultV {
    pub status: CommandStatus,
    pub reject_reason: RejectReason,
    pub message: Seq<char>,
}

impl View for CommandResult {
    type V = ResultV;

    open spec fn view(&self) -> ResultV {
        ResultV { status: self.status, reject_reason: self.reject_reason, message: self.message@ }
    }
}

/// A `CommandResult` paired with the `command_id` it answers: the only
/// correlation between a sent command and its eventual outcome.
#[derive(Clone, Debug)]
pub struct CommandResultEvent {
    pub command_id: u64,
    pub result: CommandResult,
}

/// Mathematical value of a `CommandResultEvent`.
pub ghost struct ResultEventV {
    pub command_id: u64,
    pub result: ResultV,
}

impl View for CommandResultEvent {
    type V = ResultEventV;

    open spec fn view(&self) -> ResultEventV {
        ResultEventV { command_id: self.command_id, result: self.result@ }
    }
}

} // verus!
