//! The handlers of each category of events: the kinds each serves and its
//! priority (lower runs first).

use vstd::prelude::*;
use crate::events::EventType;
use crate::text::{owned, decimal, push_decimal};
use crate::functions::verification::{decimal_u64, parse_decimal_u64};

verus! {

/// Handles system events.
#[derive(Debug)]
pub struct SystemEventHandler {
    pub handler_id: String,
}

impl SystemEventHandler {
    /// The kinds of events handled.
    pub fn supported_event_types(&self) -> (r: Vec<EventType>)
        ensures
            r@ == seq![EventType::SystemInitialized, EventType::SystemPaused, EventType::SystemResumed],
    {
        let mut r: Vec<EventType> = Vec::new();
        r.push(EventType::SystemInitialized);
        r.push(EventType::SystemPaused);
        r.push(EventType::SystemResumed);
        assert(r@ =~= seq![EventType::SystemInitialized, EventType::SystemPaused, EventType::SystemResumed]);
        r
    }

    /// The handler's priority.
    pub fn priority(&self) -> (r: u32)
        ensures
            r == 1,
    {
        1
    }
}

/// Handles the events of one singleton program.
#[derive(Debug)]
pub struct SingletonEventHandler {
    pub handler_id: String,
    /// The singleton whose events it handles.
    pub singleton_name: String,
}

impl SingletonEventHandler {
    /// The kinds of events handled.
    pub fn supported_event_types(&self) -> (r: Vec<EventType>)
        ensures
            r@ == seq![EventType::ProcessorInitialized, EventType::ProcessorPaused, EventType::ProcessorResumed, EventType::CapabilityProcessed, EventType::SchedulerInitialized, EventType::ExecutionScheduled, EventType::QueueProcessed, EventType::ResourcesAllocated, EventType::PartialOrdersComposed, EventType::DiffInitialized, EventType::DiffCalculated, EventType::DiffProcessed, EventType::BatchOptimized],
    {
        let mut r: Vec<EventType> = Vec::new();
        r.push(EventType::ProcessorInitialized);
        r.push(EventType::ProcessorPaused);
        r.push(EventType::ProcessorResumed);
        r.push(EventType::CapabilityProcessed);
        r.push(EventType::SchedulerInitialized);
        r.push(EventType::ExecutionScheduled);
        r.push(EventType::QueueProcessed);
        r.push(EventType::ResourcesAllocated);
        r.push(EventType::PartialOrdersComposed);
        r.push(EventType::DiffInitialized);
        r.push(EventType::DiffCalculated);
        r.push(EventType::DiffProcessed);
        r.push(EventType::BatchOptimized);
        assert(r@ =~= seq![EventType::ProcessorInitialized, EventType::ProcessorPaused, EventType::ProcessorResumed, EventType::CapabilityProcessed, EventType::SchedulerInitialized, EventType::ExecutionScheduled, EventType::QueueProcessed, EventType::ResourcesAllocated, EventType::PartialOrdersComposed, EventType::DiffInitialized, EventType::DiffCalculated, EventType::DiffProcessed, EventType::BatchOptimized]);
        r
    }

    /// The handler's priority.
    pub fn priority(&self) -> (r: u32)
        ensures
            r == 50,
    {
        50
    }
}

/// Handles capability events.
#[derive(Debug)]
pub struct CapabilityEventHandler {
    pub handler_id: String,
}

impl CapabilityEventHandler {
    /// The kinds of events handled.
    pub fn supported_event_types(&self) -> (r: Vec<EventType>)
        ensures
            r@ == seq![EventType::CapabilityGranted, EventType::CapabilityUpdated, EventType::CapabilityRevoked, EventType::CapabilityExecuted],
    {
        let mut r: Vec<EventType> = Vec::new();
        r.push(EventType::CapabilityGranted);
        r.push(EventType::CapabilityUpdated);
        r.push(EventType::CapabilityRevoked);
        r.push(EventType::CapabilityExecuted);
        assert(r@ =~= seq![EventType::CapabilityGranted, EventType::CapabilityUpdated, EventType::CapabilityRevoked, EventType::CapabilityExecuted]);
        r
    }

    /// The handler's priority.
    pub fn priority(&self) -> (r: u32)
        ensures
            r == 75,
    {
        75
    }
}

/// Handles verification events.
#[derive(Debug)]
pub struct VerificationEventHandler {
    pub handler_id: String,
}

impl VerificationEventHandler {
    /// The kinds of events handled.
    pub fn supported_event_types(&self) -> (r: Vec<EventType>)
        ensures
            r@ == seq![EventType::VerificationStarted, EventType::VerificationCompleted, EventType::VerificationFailed],
    {
        let mut r: Vec<EventType> = Vec::new();
        r.push(EventType::VerificationStarted);
        r.push(EventType::VerificationCompleted);
        r.push(EventType::VerificationFailed);
        assert(r@ =~= seq![EventType::VerificationStarted, EventType::VerificationCompleted, EventType::VerificationFailed]);
        r
    }

    /// The handler's priority.
    pub fn priority(&self) -> (r: u32)
        ensures
            r == 60,
    {
        60
    }
}

/// Handles session events.
#[derive(Debug)]
pub struct SessionEventHandler {
    pub handler_id: String,
}

impl SessionEventHandler {
    /// The kinds of events handled.
    pub fn supported_event_types(&self) -> (r: Vec<EventType>)
        ensures
            r@ == seq![EventType::SessionCreated, EventType::SessionActivated, EventType::SessionClosed, EventType::SessionDataUpdated],
    {
        let mut r: Vec<EventType> = Vec::new();
        r.push(EventType::SessionCreated);
        r.push(EventType::SessionActivated);
        r.push(EventType::SessionClosed);
        r.push(EventType::SessionDataUpdated);
        assert(r@ =~= seq![EventType::SessionCreated, EventType::SessionActivated, EventType::SessionClosed, EventType::SessionDataUpdated]);
        r
    }

    /// The handler's priority.
    pub fn priority(&self) -> (r: u32)
        ensures
            r == 80,
    {
        80
    }
}

/// Handles function execution events.
#[derive(Debug)]
pub struct FunctionEventHandler {
    pub handler_id: String,
}

impl FunctionEventHandler {
    /// The kinds of events handled.
    pub fn supported_event_types(&self) -> (r: Vec<EventType>)
        ensures
            r@ == seq![EventType::FunctionExecuted, EventType::FunctionChainExecuted, EventType::FunctionAggregated],
    {
        let mut r: Vec<EventType> = Vec::new();
        r.push(EventType::FunctionExecuted);
        r.push(EventType::FunctionChainExecuted);
        r.push(EventType::FunctionAggregated);
        assert(r@ =~= seq![EventType::FunctionExecuted, EventType::FunctionChainExecuted, EventType::FunctionAggregated]);
        r
    }

    /// The handler's priority.
    pub fn priority(&self) -> (r: u32)
        ensures
            r == 90,
    {
        90
    }
}

/// Handles registry events.
#[derive(Debug)]
pub struct RegistryEventHandler {
    pub handler_id: String,
}

impl RegistryEventHandler {
    /// The kinds of events handled.
    pub fn supported_event_types(&self) -> (r: Vec<EventType>)
        ensures
            r@ == seq![EventType::LibraryRegistered, EventType::ZkProgramRegistered, EventType::DependencyAdded],
    {
        let mut r: Vec<EventType> = Vec::new();
        r.push(EventType::LibraryRegistered);
        r.push(EventType::ZkProgramRegistered);
        r.push(EventType::DependencyAdded);
        assert(r@ =~= seq![EventType::LibraryRegistered, EventType::ZkProgramRegistered, EventType::DependencyAdded]);
        r
    }

    /// The handler's priority.
    pub fn priority(&self) -> (r: u32)
        ensures
            r == 100,
    {
        100
    }
}

/// The metadata of an event: its keys with their values.
pub open spec fn metadata_view(m: Seq<(String, String)>) -> Seq<(Seq<char>, Seq<char>)> {
    m.map_values(|p: (String, String)| (p.0@, p.1@))
}

/// The value of the first entry with the key, if any.
pub open spec fn meta_lookup(m: Seq<(Seq<char>, Seq<char>)>, key: Seq<char>) -> Option<Seq<char>>
    decreases m.len(),
{
    if m.len() == 0 {
        None
    } else if m[0].0 == key {
        Some(m[0].1)
    } else {
        meta_lookup(m.drop_first(), key)
    }
}

/// The text of an optional message.
pub open spec fn opt_text(o: Option<String>) -> Option<Seq<char>> {
    match o {
        Some(s) => Some(s@),
        None => None,
    }
}

/// The value, or `unknown` where there is none.
pub open spec fn or_unknown(o: Option<Seq<char>>) -> Seq<char> {
    match o {
        Some(v) => v,
        None => "unknown"@,
    }
}

/// The `usize` a text writes in decimal, as `usize::from_str` reads it.
pub open spec fn decimal_usize(s: Seq<char>) -> Option<usize> {
    match decimal_u64(s) {
        Some(v) => if v <= usize::MAX { Some(v as usize) } else { None },
        None => None,
    }
}

/// The value of the first entry of the metadata with the key, or `unknown`.
pub fn metadata_value(metadata: &Vec<(String, String)>, key: &str) -> (r: String)
    ensures
        r@ == or_unknown(meta_lookup(metadata_view(metadata@), key@)),
{
    let ghost m = metadata_view(metadata@);
    let k = owned(key);
    let mut i: usize = 0;
    assert(m.skip(0) =~= m);
    while i < metadata.len()
        invariant
            i <= metadata.len(),
            m == metadata_view(metadata@),
            k@ == key@,
            meta_lookup(m, key@) == meta_lookup(m.skip(i as int), key@),
        decreases metadata.len() - i,
    {
        assert(m.skip(i as int)[0] == m[i as int]);
        assert(m.skip(i as int).drop_first() =~= m.skip(i + 1));
        if metadata[i].0 == k {
            return metadata[i].1.clone();
        }
        i += 1;
    }
    assert(m.skip(i as int) =~= Seq::<(Seq<char>, Seq<char>)>::empty());
    owned("unknown")
}

/// The count in the metadata under the key, in decimal as `usize` reads it,
/// or 0 where there is none or it does not read.
pub fn metadata_count(metadata: &Vec<(String, String)>, key: &str) -> (r: u64)
    ensures
        r == (match meta_lookup(metadata_view(metadata@), key@) {
            Some(v) => match decimal_usize(v) { Some(n) => n as u64, None => 0 },
            None => 0,
        }),
{
    let ghost m = metadata_view(metadata@);
    let k = owned(key);
    let mut i: usize = 0;
    assert(m.skip(0) =~= m);
    while i < metadata.len()
        invariant
            i <= metadata.len(),
            m == metadata_view(metadata@),
            k@ == key@,
            meta_lookup(m, key@) == meta_lookup(m.skip(i as int), key@),
        decreases metadata.len() - i,
    {
        assert(m.skip(i as int)[0] == m[i as int]);
        assert(m.skip(i as int).drop_first() =~= m.skip(i + 1));
        if metadata[i].0 == k {
            return match parse_decimal_u64(&metadata[i].1) {
                Some(v) => if v <= usize::MAX as u64 { v } else { 0 },
                None => 0,
            };
        }
        i += 1;
    }
    assert(m.skip(i as int) =~= Seq::<(Seq<char>, Seq<char>)>::empty());
    0
}

/// `pre`, then `mid`, then `post`.
fn framed(pre: &str, mid: &String, post: &str) -> (r: String)
    ensures
        r@ == pre@ + mid@ + post@,
{
    let mut r = owned(pre);
    r.append(mid.as_str());
    r.append(post);
    r
}

/// The message a system event is logged with.
pub open spec fn system_message(t: EventType) -> Option<Seq<char>> {
    match t {
        EventType::SystemInitialized => Some("System initialized successfully"@),
        EventType::SystemPaused => Some("System paused for maintenance"@),
        EventType::SystemResumed => Some("System resumed operations"@),
        _ => None,
    }
}

impl SystemEventHandler {
    /// The message the event is logged with, if the handler logs it: see
    /// `system_message`.
    pub fn handle_event(&self, event_type: EventType, _metadata: &Vec<(String, String)>) -> (r: Option<String>)
        ensures
            opt_text(r) == system_message(event_type),
    {
        match event_type {
            EventType::SystemInitialized => Some(owned("System initialized successfully")),
            EventType::SystemPaused => Some(owned("System paused for maintenance")),
            EventType::SystemResumed => Some(owned("System resumed operations")),
            _ => None,
        }
    }
}

/// The message a singleton event is logged with by the handler of
/// `singleton`: only events whose `singleton` entry names it (`unknown`
/// where there is none) are logged.
pub open spec fn singleton_message(singleton: Seq<char>, t: EventType, m: Seq<(Seq<char>, Seq<char>)>) -> Option<Seq<char>> {
    let name = or_unknown(meta_lookup(m, "singleton"@));
    if name != singleton {
        None
    } else {
        match t {
            EventType::ProcessorInitialized | EventType::SchedulerInitialized | EventType::DiffInitialized => Some("Singleton "@ + name + " initialized"@),
            EventType::CapabilityProcessed => Some("Capability processed by "@ + name + ""@),
            EventType::ExecutionScheduled => Some("Execution scheduled by "@ + name + ""@),
            EventType::DiffCalculated | EventType::DiffProcessed => Some("Diff operation completed by "@ + name + ""@),
            _ => None,
        }
    }
}

impl SingletonEventHandler {
    /// The message the event is logged with, if the handler logs it: see
    /// `singleton_message`.
    pub fn handle_event(&self, event_type: EventType, metadata: &Vec<(String, String)>) -> (r: Option<String>)
        ensures
            opt_text(r) == singleton_message(self.singleton_name@, event_type, metadata_view(metadata@)),
    {
        let name = metadata_value(metadata, "singleton");
        if !(name == self.singleton_name) {
            return None;
        }
        match event_type {
            EventType::ProcessorInitialized | EventType::SchedulerInitialized | EventType::DiffInitialized => Some(framed("Singleton ", &name, " initialized")),
            EventType::CapabilityProcessed => Some(framed("Capability processed by ", &name, "")),
            EventType::ExecutionScheduled => Some(framed("Execution scheduled by ", &name, "")),
            EventType::DiffCalculated | EventType::DiffProcessed => Some(framed("Diff operation completed by ", &name, "")),
            _ => None,
        }
    }
}

/// The message a capability event is logged with.
pub open spec fn capability_message(t: EventType, m: Seq<(Seq<char>, Seq<char>)>) -> Option<Seq<char>> {
    let id = or_unknown(meta_lookup(m, "capability_id"@));
    match t {
        EventType::CapabilityGranted => Some("Capability '"@ + id + "' granted"@),
        EventType::CapabilityUpdated => Some("Capability '"@ + id + "' updated"@),
        EventType::CapabilityRevoked => Some("Capability '"@ + id + "' revoked"@),
        EventType::CapabilityExecuted => Some("Capability '"@ + id + "' executed"@),
        _ => None,
    }
}

impl CapabilityEventHandler {
    /// The message the event is logged with, if the handler logs it: see
    /// `capability_message`.
    pub fn handle_event(&self, event_type: EventType, metadata: &Vec<(String, String)>) -> (r: Option<String>)
        ensures
            opt_text(r) == capability_message(event_type, metadata_view(metadata@)),
    {
        let id = metadata_value(metadata, "capability_id");
        match event_type {
            EventType::CapabilityGranted => Some(framed("Capability '", &id, "' granted")),
            EventType::CapabilityUpdated => Some(framed("Capability '", &id, "' updated")),
            EventType::CapabilityRevoked => Some(framed("Capability '", &id, "' revoked")),
            EventType::CapabilityExecuted => Some(framed("Capability '", &id, "' executed")),
            _ => None,
        }
    }
}

/// The number of functions a verification event names, as
/// `metadata_count` reads it.
pub open spec fn function_count(m: Seq<(Seq<char>, Seq<char>)>) -> nat {
    match meta_lookup(m, "function_count"@) {
        Some(v) => match decimal_usize(v) { Some(n) => n as nat, None => 0 },
        None => 0,
    }
}

/// The message a verification event is logged with.
pub open spec fn verification_message(t: EventType, m: Seq<(Seq<char>, Seq<char>)>) -> Option<Seq<char>> {
    let n = decimal(function_count(m));
    match t {
        EventType::VerificationStarted => Some("Verification started with "@ + n + " functions"@),
        EventType::VerificationCompleted => Some("Verification completed successfully for "@ + n + " functions"@),
        EventType::VerificationFailed => Some("Verification failed for "@ + n + " functions"@),
        _ => None,
    }
}

impl VerificationEventHandler {
    /// The message the event is logged with, if the handler logs it: see
    /// `verification_message`.
    pub fn handle_event(&self, event_type: EventType, metadata: &Vec<(String, String)>) -> (r: Option<String>)
        ensures
            opt_text(r) == verification_message(event_type, metadata_view(metadata@)),
    {
        let count = metadata_count(metadata, "function_count");
        let mut n = String::new();
        push_decimal(&mut n, count);
        assert(n@ =~= decimal(function_count(metadata_view(metadata@))));
        match event_type {
            EventType::VerificationStarted => Some(framed("Verification started with ", &n, " functions")),
            EventType::VerificationCompleted => Some(framed("Verification completed successfully for ", &n, " functions")),
            EventType::VerificationFailed => Some(framed("Verification failed for ", &n, " functions")),
            _ => None,
        }
    }
}

/// The message a session event is logged with.
pub open spec fn session_message(t: EventType, m: Seq<(Seq<char>, Seq<char>)>) -> Option<Seq<char>> {
    let id = or_unknown(meta_lookup(m, "session_id"@));
    match t {
        EventType::SessionCreated => Some("Session '"@ + id + "' created"@),
        EventType::SessionActivated => Some("Session '"@ + id + "' activated"@),
        EventType::SessionClosed => Some("Session '"@ + id + "' closed"@),
        EventType::SessionDataUpdated => Some("Session '"@ + id + "' data updated"@),
        _ => None,
    }
}

impl SessionEventHandler {
    /// The message the event is logged with, if the handler logs it: see
    /// `session_message`.
    pub fn handle_event(&self, event_type: EventType, metadata: &Vec<(String, String)>) -> (r: Option<String>)
        ensures
            opt_text(r) == session_message(event_type, metadata_view(metadata@)),
    {
        let id = metadata_value(metadata, "session_id");
        match event_type {
            EventType::SessionCreated => Some(framed("Session '", &id, "' created")),
            EventType::SessionActivated => Some(framed("Session '", &id, "' activated")),
            EventType::SessionClosed => Some(framed("Session '", &id, "' closed")),
            EventType::SessionDataUpdated => Some(framed("Session '", &id, "' data updated")),
            _ => None,
        }
    }
}

/// The message a function event is logged with.
pub open spec fn function_message(t: EventType, m: Seq<(Seq<char>, Seq<char>)>) -> Option<Seq<char>> {
    let h = or_unknown(meta_lookup(m, "function_hash"@));
    match t {
        EventType::FunctionExecuted => Some("Function '"@ + h + "' executed"@),
        EventType::FunctionChainExecuted => Some("Function chain containing '"@ + h + "' executed"@),
        EventType::FunctionAggregated => Some("Function '"@ + h + "' results aggregated"@),
        _ => None,
    }
}

impl FunctionEventHandler {
    /// The message the event is logged with, if the handler logs it: see
    /// `function_message`.
    pub fn handle_event(&self, event_type: EventType, metadata: &Vec<(String, String)>) -> (r: Option<String>)
        ensures
            opt_text(r) == function_message(event_type, metadata_view(metadata@)),
    {
        let h = metadata_value(metadata, "function_hash");
        match event_type {
            EventType::FunctionExecuted => Some(framed("Function '", &h, "' executed")),
            EventType::FunctionChainExecuted => Some(framed("Function chain containing '", &h, "' executed")),
            EventType::FunctionAggregated => Some(framed("Function '", &h, "' results aggregated")),
            _ => None,
        }
    }
}

/// The message a registry event is logged with.
pub open spec fn registry_message(t: EventType, m: Seq<(Seq<char>, Seq<char>)>) -> Option<Seq<char>> {
    let name = or_unknown(meta_lookup(m, "item_name"@));
    let version = or_unknown(meta_lookup(m, "item_version"@));
    match t {
        EventType::LibraryRegistered => Some("Library '"@ + name + "' v"@ + version + " registered"@),
        EventType::ZkProgramRegistered => Some("ZK program '"@ + name + "' v"@ + version + " registered"@),
        EventType::DependencyAdded => Some("Dependency '"@ + name + "' v"@ + version + " added"@),
        _ => None,
    }
}

impl RegistryEventHandler {
    /// The message the event is logged with, if the handler logs it: see
    /// `registry_message`.
    pub fn handle_event(&self, event_type: EventType, metadata: &Vec<(String, String)>) -> (r: Option<String>)
        ensures
            opt_text(r) == registry_message(event_type, metadata_view(metadata@)),
    {
        let name = metadata_value(metadata, "item_name");
        let version = metadata_value(metadata, "item_version");
        let mut r = match event_type {
            EventType::LibraryRegistered => framed("Library '", &name, "' v"),
            EventType::ZkProgramRegistered => framed("ZK program '", &name, "' v"),
            EventType::DependencyAdded => framed("Dependency '", &name, "' v"),
            _ => { return None; }
        };
        r.append(version.as_str());
        match event_type {
            EventType::DependencyAdded => r.append(" added"),
            _ => r.append(" registered"),
        }
        Some(r)
    }
}

} // verus!
