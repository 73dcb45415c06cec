//! Events of the protocol: their kinds, the categories they fall in, and
//! the handlers that serve each category.

use vstd::prelude::*;

pub mod handlers;

verus! {

/// The kinds of events.
#[derive(Clone, Copy, Debug, PartialEq, Eq, Structural)]
pub enum EventType {
    SystemInitialized,
    SystemPaused,
    SystemResumed,
    ProcessorInitialized,
    ProcessorPaused,
    ProcessorResumed,
    CapabilityProcessed,
    SchedulerInitialized,
    ExecutionScheduled,
    QueueProcessed,
    ResourcesAllocated,
    PartialOrdersComposed,
    DiffInitialized,
    DiffCalculated,
    DiffProcessed,
    BatchOptimized,
    CapabilityGranted,
    CapabilityUpdated,
    CapabilityRevoked,
    CapabilityExecuted,
    SessionCreated,
    SessionActivated,
    SessionClosed,
    SessionDataUpdated,
    VerificationStarted,
    VerificationCompleted,
    VerificationFailed,
    FunctionExecuted,
    FunctionChainExecuted,
    FunctionAggregated,
    LibraryRegistered,
    ZkProgramRegistered,
    DependencyAdded,
    ConfigurationUpdated,
    ErrorOccurred,
}

/// The category of an event kind.
pub open spec fn category_of(t: EventType) -> Seq<char> {
    match t {
        EventType::SystemInitialized | EventType::SystemPaused | EventType::SystemResumed => "system"@,
        EventType::ProcessorInitialized | EventType::ProcessorPaused | EventType::ProcessorResumed | EventType::CapabilityProcessed | EventType::SchedulerInitialized | EventType::ExecutionScheduled | EventType::QueueProcessed | EventType::ResourcesAllocated | EventType::PartialOrdersComposed | EventType::DiffInitialized | EventType::DiffCalculated | EventType::DiffProcessed | EventType::BatchOptimized => "singleton"@,
        EventType::CapabilityGranted | EventType::CapabilityUpdated | EventType::CapabilityRevoked | EventType::CapabilityExecuted => "capability"@,
        EventType::SessionCreated | EventType::SessionActivated | EventType::SessionClosed | EventType::SessionDataUpdated => "session"@,
        EventType::VerificationStarted | EventType::VerificationCompleted | EventType::VerificationFailed => "verification"@,
        EventType::FunctionExecuted | EventType::FunctionChainExecuted | EventType::FunctionAggregated => "function"@,
        EventType::LibraryRegistered | EventType::ZkProgramRegistered | EventType::DependencyAdded => "registry"@,
        EventType::ConfigurationUpdated => "configuration"@,
        EventType::ErrorOccurred => "error"@,
    }
}

/// The kinds that stop, resume or break the system.
pub open spec fn critical(t: EventType) -> bool {
    t == EventType::SystemPaused || t == EventType::SystemResumed || t == EventType::ProcessorPaused || t == EventType::ProcessorResumed || t == EventType::VerificationFailed || t == EventType::ErrorOccurred
}

/// The kinds that start or end the life of something.
pub open spec fn lifecycle(t: EventType) -> bool {
    t == EventType::SystemInitialized || t == EventType::ProcessorInitialized || t == EventType::SchedulerInitialized || t == EventType::DiffInitialized || t == EventType::SessionCreated || t == EventType::SessionActivated || t == EventType::SessionClosed || t == EventType::CapabilityGranted || t == EventType::CapabilityRevoked || t == EventType::LibraryRegistered || t == EventType::ZkProgramRegistered
}

/// The category of an event kind.
pub fn get_event_category(event_type: &EventType) -> (r: &'static str)
    ensures
        r@ == category_of(*event_type),
{
    match event_type {
        EventType::SystemInitialized | EventType::SystemPaused | EventType::SystemResumed => {
            "system"
        }
        EventType::ProcessorInitialized | EventType::ProcessorPaused | EventType::ProcessorResumed | EventType::CapabilityProcessed | EventType::SchedulerInitialized | EventType::ExecutionScheduled | EventType::QueueProcessed | EventType::ResourcesAllocated | EventType::PartialOrdersComposed | EventType::DiffInitialized | EventType::DiffCalculated | EventType::DiffProcessed | EventType::BatchOptimized => {
            "singleton"
        }
        EventType::CapabilityGranted | EventType::CapabilityUpdated | EventType::CapabilityRevoked | EventType::CapabilityExecuted => {
            "capability"
        }
        EventType::SessionCreated | EventType::SessionActivated | EventType::SessionClosed | EventType::SessionDataUpdated => {
            "session"
        }
        EventType::VerificationStarted | EventType::VerificationCompleted | EventType::VerificationFailed => {
            "verification"
        }
        EventType::FunctionExecuted | EventType::FunctionChainExecuted | EventType::FunctionAggregated => {
            "function"
        }
        EventType::LibraryRegistered | EventType::ZkProgramRegistered | EventType::DependencyAdded => {
            "registry"
        }
        EventType::ConfigurationUpdated => {
            "configuration"
        }
        EventType::ErrorOccurred => {
            "error"
        }
    }
}

/// Whether the kind stops, resumes or breaks the system.
pub fn is_critical_event(event_type: &EventType) -> (r: bool)
    ensures
        r == critical(*event_type),
{
    match event_type {
        EventType::SystemPaused | EventType::SystemResumed | EventType::ProcessorPaused | EventType::ProcessorResumed | EventType::VerificationFailed | EventType::ErrorOccurred => true,
        _ => false,
    }
}

/// Whether the kind starts or ends the life of something.
pub fn is_lifecycle_event(event_type: &EventType) -> (r: bool)
    ensures
        r == lifecycle(*event_type),
{
    match event_type {
        EventType::SystemInitialized | EventType::ProcessorInitialized | EventType::SchedulerInitialized | EventType::DiffInitialized | EventType::SessionCreated | EventType::SessionActivated | EventType::SessionClosed | EventType::CapabilityGranted | EventType::CapabilityRevoked | EventType::LibraryRegistered | EventType::ZkProgramRegistered => true,
        _ => false,
    }
}

/// How severe an error is.
#[derive(Clone, Copy, Debug, PartialEq, Eq, Structural)]
pub enum ErrorSeverity {
    Low,
    Medium,
    High,
    Critical,
}

/// The name of a severity.
pub open spec fn severity_text(s: ErrorSeverity) -> Seq<char> {
    match s {
        ErrorSeverity::Low => "low"@,
        ErrorSeverity::Medium => "medium"@,
        ErrorSeverity::High => "high"@,
        ErrorSeverity::Critical => "critical"@,
    }
}

impl ErrorSeverity {
    /// The name of the severity, in lower case.
    pub fn label(&self) -> (r: &'static str)
        ensures
            r@ == severity_text(*self),
    {
        match self {
            ErrorSeverity::Low => "low",
            ErrorSeverity::Medium => "medium",
            ErrorSeverity::High => "high",
            ErrorSeverity::Critical => "critical",
        }
    }
}

} // verus!
