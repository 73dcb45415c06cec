//! The session factory: requests, reservations, activation and reset of sessions.

use vstd::prelude::*;
use crate::error::{SessionFactoryError, FrameworkError};
use crate::pubkey::{Pubkey, zero_bytes};
use crate::runtime::{ClockReading, find_program_address, program_address, base58, pubkey_base58};
use crate::text::{views, owned, utf8, byte_len, strings_space, strings_space_of, str_byte_len, utf8_bytes, decimal, push_decimal};
use crate::capabilities::ordering_rules::copy_strings;
use crate::sessions::state::{SessionReservation, SessionConfiguration, reservation_valid, reservation_expired};

verus! {

/// The state of the session factory.
#[derive(Debug)]
pub struct SessionFactoryState {
    /// Authority that may update the factory.
    pub authority: Pubkey,
    /// Sessions created so far.
    pub total_sessions: u64,
    /// Sessions currently active.
    pub active_sessions: u64,
    pub version: u8,
    /// PDA bump seed.
    pub bump: u8,
    pub _reserved: [u8; 32],
}

impl SessionFactoryState {
    /// The account space of the factory state.
    pub const SIZE: usize = 8 + 32 + 8 + 8 + 1 + 1 + 32;
}

/// The registry entry of one session.
#[derive(Debug)]
pub struct SessionEntry {
    /// The session's PDA.
    pub session_address: Pubkey,
    pub owner: Pubkey,
    /// Eval program bound to the session.
    pub eval_program: Pubkey,
    /// Shard of the session.
    pub shard_address: Pubkey,
    pub session_id: String,
    /// Namespaces the session may access.
    pub namespaces: Vec<String>,
    /// On-chain status.
    pub status: SessionStatus,
    /// Optimistic state shown before the status catches up.
    pub optimistic_state: SessionState,
    pub created_at: i64,
    pub last_updated: i64,
    pub activated_at: Option<i64>,
    pub optimistic_state_set_at: i64,
    /// PDA bump seed.
    pub bump: u8,
}

/// The space of an entry with the given id and namespaces.
pub open spec fn entry_space(session_id: Seq<char>, namespaces: Seq<String>) -> nat {
    8 + 32 + 32 + 32 + 32 + 4 + byte_len(session_id) + 4 + strings_space(namespaces) + 1 + 1 + 8 + 8 + 1 + 8 + 8 + 1 + 64
}

impl SessionEntry {
    /// The account space of an entry.
    pub fn get_space(session_id: &String, namespaces: &Vec<String>) -> (r: usize)
        requires
            entry_space(session_id@, namespaces@) <= usize::MAX,
        ensures
            r == entry_space(session_id@, namespaces@),
    {
        let id = str_byte_len(session_id);
        let ns = strings_space_of(namespaces);
        8 + 32 + 32 + 32 + 32 + 4 + id + 4 + ns + 1 + 1 + 8 + 8 + 1 + 8 + 8 + 1 + 64
    }
}

/// The status of a session.
#[derive(Debug, Clone, Copy, PartialEq, Eq, Structural)]
pub enum SessionStatus {
    /// Creation requested, account not yet created.
    Requested,
    /// Account created, not yet initialized.
    Created,
    /// Initialized and active.
    Active,
    /// Closed.
    Closed,
}

/// The optimistic state of a session.
#[derive(Debug, Clone, Copy, PartialEq, Eq, Structural)]
pub enum SessionState {
    Pending,
    Active,
    Closed,
}

/// Session-specific settings.
#[derive(Debug, Clone, Copy, PartialEq, Eq, Structural)]
pub struct SessionSettings {
    pub auto_expire: bool,
    pub enable_logging: bool,
    pub enable_monitoring: bool,
}

impl Default for SessionSettings {
    fn default() -> (r: Self)
        ensures
            r == (SessionSettings { auto_expire: true, enable_logging: false, enable_monitoring: false }),
    {
        SessionSettings { auto_expire: true, enable_logging: false, enable_monitoring: false }
    }
}

/// The attestation of a session creation.
#[derive(Debug)]
pub struct SessionCreationAttestation {
    /// Factory that created the session.
    pub factory_address: Pubkey,
    pub session_address: Pubkey,
    pub session_id: String,
    /// Eval program bound to the session.
    pub eval_address: Pubkey,
    pub attestation_id: String,
    pub creation_parameters: CreationParameters,
    pub verification_signature: [u8; 64],
    /// Slot at which the creation was attested.
    pub attested_at_height: u64,
}

/// The parameters a session was created with.
#[derive(Debug)]
pub struct CreationParameters {
    pub template_id: Option<String>,
    pub custom_config: Option<SessionConfiguration>,
    pub requested_namespaces: Vec<String>,
    /// Key-value pairs.
    pub metadata: Vec<(String, String)>,
}

/// The PDA the session program will create, for the off-chain service.
#[derive(Debug)]
pub struct PDAComputedEvent {
    pub expected_pda: Pubkey,
    pub expected_size: u64,
    pub expected_owner: Pubkey,
    pub session_id: String,
    pub owner: Pubkey,
    pub eval_program: Pubkey,
    pub shard_address: Pubkey,
    pub namespaces: Vec<String>,
    pub compute_slot: u64,
}

/// A session was reserved.
#[derive(Debug)]
pub struct SessionReservedEvent {
    pub reservation_id: String,
    pub session_id: String,
    pub reserved_by: Pubkey,
    pub session_owner: Pubkey,
    pub template_id: Option<String>,
    pub expires_at: i64,
    pub reserved_at: i64,
}

/// A session creation was requested, with its attestation.
#[derive(Debug)]
pub struct SessionCreatedEvent {
    pub session_address: Pubkey,
    pub owner: Pubkey,
    pub eval_program: Pubkey,
    pub shard_address: Pubkey,
    pub session_id: String,
    pub namespaces: Vec<String>,
    /// Capability that authorized the creation.
    pub capability_used: Option<String>,
    pub verification_functions_executed: Vec<String>,
    pub attestation: SessionCreationAttestation,
    pub created_at: i64,
    pub account_size: u64,
    pub creation_slot: u64,
}

/// A session became active.
#[derive(Debug)]
pub struct SessionActivatedEvent {
    pub session_address: Pubkey,
    pub session_id: String,
    pub owner: Pubkey,
    pub eval_program: Pubkey,
    pub shard_address: Pubkey,
    pub namespaces: Vec<String>,
    pub activated_at: i64,
    pub activated_by: Pubkey,
    pub activation_slot: u64,
}

/// A session creation was queued.
#[derive(Debug)]
pub struct SessionQueuedEvent {
    pub session_id: String,
    pub queue_position: u64,
    pub request_id: String,
    pub timestamp: u64,
    /// In seconds.
    pub estimated_processing_time: u64,
    pub queue_size: u64,
    pub factory_address: String,
    pub creator: String,
}

/// A queued session was initialized.
#[derive(Debug)]
pub struct SessionInitializedFromQueueEvent {
    pub session_pda: Pubkey,
    pub session_id: String,
    pub owner: Pubkey,
    pub executor: Pubkey,
    pub queued_by: Pubkey,
    pub initialized_at: i64,
    pub queue_position: u64,
}

/// A pass over the session queue ended.
#[derive(Debug, Clone, Copy)]
pub struct QueueProcessedEvent {
    pub processor: Pubkey,
    pub sessions_processed: u32,
    pub failed_initializations: u32,
    pub queue_size_before: u64,
    pub queue_size_after: u64,
    pub processing_duration_ms: u64,
    pub processing_started_at: i64,
    pub processing_completed_at: i64,
    pub total_processed: u64,
    pub total_failed: u64,
}

/// A session was initialized by hand.
#[derive(Debug)]
pub struct ManualSessionInitializedEvent {
    pub session_pda: Pubkey,
    pub session_id: String,
    pub owner: Pubkey,
    pub authority: Pubkey,
    pub force_activation: bool,
    pub initialized_at: i64,
}

/// A session's state was reset.
#[derive(Debug)]
pub struct EmergencySessionResetEvent {
    pub session_pda: Pubkey,
    pub session_id: String,
    pub owner: Pubkey,
    pub authority: Pubkey,
    pub old_status: SessionStatus,
    pub new_status: SessionStatus,
    pub old_optimistic_state: SessionState,
    pub new_optimistic_state: SessionState,
    pub reset_at: i64,
}

/// What a session creation produces: the registry entry and the events to emit.
#[derive(Debug)]
pub struct SessionCreation {
    pub entry: SessionEntry,
    pub created_event: SessionCreatedEvent,
    pub pda_event: PDAComputedEvent,
}

/// The bytes of the session program's address.
pub open spec fn session_program_bytes() -> Seq<u8> {
    seq![6u8, 146u8, 89u8, 10u8, 109u8, 71u8, 114u8, 207u8, 186u8, 169u8, 62u8, 70u8, 129u8, 206u8, 251u8, 169u8,
        63u8, 47u8, 69u8, 109u8, 145u8, 17u8, 221u8, 84u8, 44u8, 141u8, 91u8, 144u8, 0u8, 0u8, 0u8, 0u8]
}

/// The address of the session program.
pub fn session_program_id() -> (r: Pubkey)
    ensures
        r.bytes@ == session_program_bytes(),
{
    let r = Pubkey { bytes: [6u8, 146, 89, 10, 109, 71, 114, 207, 186, 169, 62, 70, 129, 206, 251, 169,
        63, 47, 69, 109, 145, 17, 221, 84, 44, 141, 91, 144, 0, 0, 0, 0] };
    assert(r.bytes@ =~= session_program_bytes());
    r
}

/// The seed `b"session"`.
pub open spec fn session_seed() -> Seq<u8> {
    seq![115u8, 101u8, 115u8, 115u8, 105u8, 111u8, 110u8]
}

/// The address of the session of `owner` with id `session_id` under the session program.
pub open spec fn session_pda(owner: Pubkey, session_id: Seq<char>) -> Seq<u8> {
    program_address(seq![session_seed(), owner.bytes@, utf8(session_id)], session_program_bytes()).0
}

/// A session id is between 1 and 64 bytes long.
pub open spec fn session_id_ok(id: Seq<char>) -> bool {
    0 < byte_len(id) <= 64
}

/// The address is the all-zero default.
pub open spec fn is_zero(p: Pubkey) -> bool {
    p.bytes@ == zero_bytes()
}

/// Why a session creation request is refused, checked in this order.
pub open spec fn request_error(owner: Pubkey, eval_program: Pubkey, shard_address: Pubkey, session_id: Seq<char>, namespace_count: nat) -> Option<SessionFactoryError> {
    if is_zero(owner) {
        Some(SessionFactoryError::InvalidOwner)
    } else if is_zero(eval_program) {
        Some(SessionFactoryError::InvalidEvalProgram)
    } else if is_zero(shard_address) {
        Some(SessionFactoryError::InvalidShard)
    } else if !session_id_ok(session_id) {
        Some(SessionFactoryError::InvalidSessionId)
    } else if namespace_count > 10 {
        Some(SessionFactoryError::TooManyNamespaces)
    } else {
        None
    }
}

/// The estimated size of a session account before alignment.
pub open spec fn raw_session_size(session_id: Seq<char>, namespaces: Seq<String>) -> nat {
    8 + 32 + 32 + 4 + byte_len(session_id) + 4 + strings_space(namespaces) + 8 + 8 + 1 + 1 + 64
}

/// The estimated size of a session account, rounded up to a multiple of 8.
pub open spec fn estimated_session_size(session_id: Seq<char>, namespaces: Seq<String>) -> nat {
    (raw_session_size(session_id, namespaces) + 7) / 8 * 8
}

/// `n + 1`, or `u64::MAX` where that overflows.
pub open spec fn inc_sat(n: u64) -> u64 {
    if n < u64::MAX { (n + 1) as u64 } else { u64::MAX }
}

/// `n - 1`, or 0 where that underflows.
pub open spec fn dec_sat(n: u64) -> u64 {
    if n > 0 { (n - 1) as u64 } else { 0 }
}

/// The active count after a session moves from `old` to `new`.
pub open spec fn active_after(active: u64, old: SessionStatus, new: SessionStatus) -> u64 {
    if new == SessionStatus::Active && old != SessionStatus::Active {
        inc_sat(active)
    } else if old == SessionStatus::Active && new != SessionStatus::Active {
        dec_sat(active)
    } else {
        active
    }
}

/// The optimistic state that goes with a status.
pub open spec fn optimistic_for(status: SessionStatus) -> SessionState {
    match status {
        SessionStatus::Requested => SessionState::Pending,
        SessionStatus::Created => SessionState::Pending,
        SessionStatus::Active => SessionState::Active,
        SessionStatus::Closed => SessionState::Closed,
    }
}

/// The id of the attestation of a creation at `slot`: `att_{slot}_{session_id}`.
pub open spec fn attestation_id_for(slot: u64, session_id: Seq<char>) -> Seq<char> {
    "att_"@ + decimal(slot as nat) + "_"@ + session_id
}

/// The abstract value of a list of key-value pairs.
pub open spec fn pair_views(v: Seq<(String, String)>) -> Seq<(Seq<char>, Seq<char>)> {
    v.map_values(|p: (String, String)| (p.0@, p.1@))
}

/// The estimated size of a session account: the fixed fields, the id and
/// the namespaces, rounded up to a multiple of 8.
pub fn calculate_estimated_session_size(session_id: &String, namespaces: &Vec<String>) -> (r: usize)
    requires
        raw_session_size(session_id@, namespaces@) + 7 <= usize::MAX,
    ensures
        r == estimated_session_size(session_id@, namespaces@),
{
    let id = str_byte_len(session_id);
    let ns = strings_space_of(namespaces);
    let base: usize = 8 + 32 + 32 + 4 + id + 4 + ns + 8 + 8 + 1 + 1 + 64;
    let x: usize = base + 7;
    assert((x & !7usize) == x - x % 8) by (bit_vector);
    x & !7usize
}

/// The metadata pairs recorded with an attestation.
fn creation_metadata(version: u8, method: &str) -> (r: Vec<(String, String)>)
    ensures
        pair_views(r@) == seq![("factory_version"@, decimal(version as nat)), ("creation_method"@, method@)],
{
    let mut v = String::new();
    push_decimal(&mut v, version as u64);
    let mut r: Vec<(String, String)> = Vec::new();
    r.push((owned("factory_version"), v));
    r.push((owned("creation_method"), owned(method)));
    assert(pair_views(r@) =~= seq![("factory_version"@, decimal(version as nat)), ("creation_method"@, method@)]);
    r
}

/// `att_{slot}_{session_id}`.
fn make_attestation_id(slot: u64, session_id: &String) -> (r: String)
    ensures
        r@ == attestation_id_for(slot, session_id@),
{
    let mut r = owned("att_");
    push_decimal(&mut r, slot);
    r.append("_");
    r.append(session_id.as_str());
    r
}

/// Sets up the session factory.
pub fn initialize(factory_state: &mut SessionFactoryState, authority: Pubkey, bump: u8)
    ensures
        final(factory_state).authority == authority,
        final(factory_state).total_sessions == 0,
        final(factory_state).active_sessions == 0,
        final(factory_state).version == 1,
        final(factory_state).bump == bump,
        final(factory_state)._reserved@ == Seq::new(32, |i: int| 0u8),
{
    factory_state.authority = authority;
    factory_state.total_sessions = 0;
    factory_state.active_sessions = 0;
    factory_state.version = 1;
    factory_state.bump = bump;
    factory_state._reserved = [0u8; 32];
    assert(factory_state._reserved@ =~= Seq::new(32, |i: int| 0u8));
}

/// The entry, attestation and events of a session creation request are
/// those the request describes.
pub open spec fn creation_matches(
    c: SessionCreation,
    pda: Seq<u8>,
    factory_address: Seq<u8>,
    owner: Pubkey,
    eval_program: Seq<u8>,
    shard_address: Seq<u8>,
    session_id: Seq<char>,
    namespaces: Seq<Seq<char>>,
    bump: u8,
    clock: ClockReading,
    version: u8,
    method: Seq<char>,
    capability: Seq<char>,
    size: nat,
) -> bool {
    let e = c.entry;
    let ev = c.created_event;
    let a = ev.attestation;
    let p = c.pda_event;
    &&& e.session_address.bytes@ == pda && e.owner == owner && e.eval_program.bytes@ == eval_program
    &&& e.shard_address.bytes@ == shard_address && e.session_id@ == session_id && views(e.namespaces@) == namespaces
    &&& e.status == SessionStatus::Requested && e.optimistic_state == SessionState::Pending
    &&& e.created_at == clock.unix_timestamp && e.last_updated == clock.unix_timestamp
    &&& e.activated_at is None && e.optimistic_state_set_at == clock.unix_timestamp && e.bump == bump
    &&& ev.session_address.bytes@ == pda && ev.owner == owner && ev.eval_program.bytes@ == eval_program
    &&& ev.shard_address.bytes@ == shard_address && ev.session_id@ == session_id && views(ev.namespaces@) == namespaces
    &&& ev.capability_used matches Some(cap) && cap@ == capability
    &&& ev.verification_functions_executed@.len() == 0
    &&& ev.created_at == clock.unix_timestamp && ev.account_size == size && ev.creation_slot == clock.slot
    &&& a.factory_address.bytes@ == factory_address && a.session_address.bytes@ == pda && a.session_id@ == session_id
    &&& a.eval_address.bytes@ == eval_program && a.attestation_id@ == attestation_id_for(clock.slot, session_id)
    &&& a.creation_parameters.template_id is None && a.creation_parameters.custom_config is None
    &&& views(a.creation_parameters.requested_namespaces@) == namespaces
    &&& pair_views(a.creation_parameters.metadata@) == seq![("factory_version"@, decimal(version as nat)), ("creation_method"@, method)]
    &&& a.verification_signature@ == Seq::new(64, |i: int| 0u8) && a.attested_at_height == clock.slot
    &&& p.expected_pda.bytes@ == pda && p.expected_size == size && p.expected_owner.bytes@ == session_program_bytes()
    &&& p.session_id@ == session_id && p.owner == owner && p.eval_program.bytes@ == eval_program
    &&& p.shard_address.bytes@ == shard_address && views(p.namespaces@) == namespaces && p.compute_slot == clock.slot
}

/// Builds the entry, the attestation and both events of a session creation.
#[verifier::rlimit(30)]
fn build_creation(
    pda: Pubkey,
    factory_address: Pubkey,
    owner: Pubkey,
    eval_program: Pubkey,
    shard_address: Pubkey,
    session_id: &String,
    namespaces: &Vec<String>,
    bump: u8,
    clock: ClockReading,
    version: u8,
    method: &str,
    capability: &str,
    size: u64,
) -> (r: SessionCreation)
    ensures
        creation_matches(r, pda.bytes@, factory_address.bytes@, owner, eval_program.bytes@, shard_address.bytes@,
            session_id@, views(namespaces@), bump, clock, version, method@, capability@, size as nat),
{
    let entry = SessionEntry {
        session_address: pda,
        owner,
        eval_program,
        shard_address,
        session_id: session_id.clone(),
        namespaces: copy_strings(namespaces),
        status: SessionStatus::Requested,
        optimistic_state: SessionState::Pending,
        created_at: clock.unix_timestamp,
        last_updated: clock.unix_timestamp,
        activated_at: None,
        optimistic_state_set_at: clock.unix_timestamp,
        bump,
    };
    let attestation = SessionCreationAttestation {
        factory_address,
        session_address: pda,
        session_id: session_id.clone(),
        eval_address: eval_program,
        attestation_id: make_attestation_id(clock.slot, session_id),
        creation_parameters: CreationParameters {
            template_id: None,
            custom_config: None,
            requested_namespaces: copy_strings(namespaces),
            metadata: creation_metadata(version, method),
        },
        verification_signature: [0u8; 64],
        attested_at_height: clock.slot,
    };
    assert(attestation.verification_signature@ =~= Seq::new(64, |i: int| 0u8));
    let created_event = SessionCreatedEvent {
        session_address: pda,
        owner,
        eval_program,
        shard_address,
        session_id: session_id.clone(),
        namespaces: copy_strings(namespaces),
        capability_used: Some(owned(capability)),
        verification_functions_executed: Vec::new(),
        attestation,
        created_at: clock.unix_timestamp,
        account_size: size,
        creation_slot: clock.slot,
    };
    let pda_event = PDAComputedEvent {
        expected_pda: pda,
        expected_size: size,
        expected_owner: session_program_id(),
        session_id: session_id.clone(),
        owner,
        eval_program,
        shard_address,
        namespaces: copy_strings(namespaces),
        compute_slot: clock.slot,
    };
    SessionCreation { entry, created_event, pda_event }
}

/// Checks a session creation request. Refuses it, in this order, for a
/// default owner, eval program or shard, a session id that is empty or over
/// 64 bytes, or more than 10 namespaces. Otherwise computes the session's
/// PDA under the session program from `b"session"`, the owner and the id,
/// counts the session in the factory (saturating), and returns the entry in
/// `Requested` status with a pending optimistic state, and the creation and
/// PDA events with the attestation `att_{slot}_{session_id}`.
pub fn request_session_creation(
    factory_state: &mut SessionFactoryState,
    factory_address: Pubkey,
    owner: Pubkey,
    eval_program: Pubkey,
    session_id: String,
    namespaces: Vec<String>,
    shard_address: Pubkey,
    entry_bump: u8,
    clock: ClockReading,
) -> (r: Result<SessionCreation, SessionFactoryError>)
    requires
        request_error(owner, eval_program, shard_address, session_id@, namespaces@.len()) is None ==> byte_len(session_id@) <= 32,
        raw_session_size(session_id@, namespaces@) + 7 <= usize::MAX,
    ensures
        match request_error(owner, eval_program, shard_address, session_id@, namespaces@.len()) {
            Some(e) => r == Err::<SessionCreation, SessionFactoryError>(e) && *final(factory_state) == *old(factory_state),
            None => r matches Ok(c) && creation_matches(c, session_pda(owner, session_id@), factory_address.bytes@, owner,
                eval_program.bytes@, shard_address.bytes@, session_id@, views(namespaces@), entry_bump, clock,
                old(factory_state).version, "direct_request"@, "session_factory.create_session"@,
                estimated_session_size(session_id@, namespaces@))
                && final(factory_state).total_sessions == inc_sat(old(factory_state).total_sessions)
                && final(factory_state).active_sessions == old(factory_state).active_sessions
                && final(factory_state).authority == old(factory_state).authority
                && final(factory_state).version == old(factory_state).version
                && final(factory_state).bump == old(factory_state).bump,
        },
{
    if owner.is_default() {
        return Err(SessionFactoryError::InvalidOwner);
    }
    if eval_program.is_default() {
        return Err(SessionFactoryError::InvalidEvalProgram);
    }
    if shard_address.is_default() {
        return Err(SessionFactoryError::InvalidShard);
    }
    let id_len = str_byte_len(&session_id);
    if id_len == 0 || id_len > 64 {
        return Err(SessionFactoryError::InvalidSessionId);
    }
    if namespaces.len() > 10 {
        return Err(SessionFactoryError::TooManyNamespaces);
    }
    let mut seeds: Vec<Vec<u8>> = Vec::new();
    seeds.push(vec![115u8, 101, 115, 115, 105, 111, 110]);
    seeds.push(owner.to_bytes_vec());
    seeds.push(utf8_bytes(&session_id));
    let program = session_program_id();
    proof {
        assert(seeds[0]@ =~= session_seed());
        assert(seeds.deep_view()[0] =~= seeds@[0]@);
        assert(seeds.deep_view()[1] =~= seeds@[1]@);
        assert(seeds.deep_view()[2] =~= seeds@[2]@);
        assert(seeds.deep_view() =~= seq![session_seed(), owner.bytes@, utf8(session_id@)]);
    }
    let (pda, _bump) = find_program_address(&seeds, &program);
    factory_state.total_sessions = if factory_state.total_sessions < u64::MAX { factory_state.total_sessions + 1 } else { u64::MAX };
    let size = calculate_estimated_session_size(&session_id, &namespaces);
    let version = factory_state.version;
    let c = build_creation(pda, factory_address, owner, eval_program, shard_address, &session_id, &namespaces,
        entry_bump, clock, version, "direct_request", "session_factory.create_session", size as u64);
    Ok(c)
}

/// Creates a session entry ahead of the session itself: refuses a session id
/// that is empty or over 64 bytes; otherwise counts the session in the
/// factory (saturating) and returns an entry in `Requested` status with a
/// pending optimistic state and default addresses, with its events.
pub fn create_optimistic_session(
    factory_state: &mut SessionFactoryState,
    owner: Pubkey,
    session_id: String,
    entry_bump: u8,
    clock: ClockReading,
) -> (r: Result<SessionCreation, SessionFactoryError>)
    requires
        raw_session_size(session_id@, Seq::<String>::empty()) + 7 <= usize::MAX,
    ensures
        !session_id_ok(session_id@) ==> r == Err::<SessionCreation, SessionFactoryError>(SessionFactoryError::InvalidSessionId)
            && *final(factory_state) == *old(factory_state),
        session_id_ok(session_id@) ==> (r matches Ok(c) && creation_matches(c, zero_bytes(), zero_bytes(), owner,
                zero_bytes(), zero_bytes(), session_id@, Seq::<Seq<char>>::empty(), entry_bump, clock,
                old(factory_state).version, "optimistic_session"@, "session_factory.create_optimistic_session"@,
                estimated_session_size(session_id@, Seq::<String>::empty()))
                && final(factory_state).total_sessions == inc_sat(old(factory_state).total_sessions)
                && final(factory_state).active_sessions == old(factory_state).active_sessions
                && final(factory_state).authority == old(factory_state).authority
                && final(factory_state).version == old(factory_state).version
                && final(factory_state).bump == old(factory_state).bump),
{
    let id_len = str_byte_len(&session_id);
    if id_len == 0 || id_len > 64 {
        return Err(SessionFactoryError::InvalidSessionId);
    }
    factory_state.total_sessions = if factory_state.total_sessions < u64::MAX { factory_state.total_sessions + 1 } else { u64::MAX };
    let none: Vec<String> = Vec::new();
    assert(none@ =~= Seq::<String>::empty());
    assert(views(none@) =~= Seq::<Seq<char>>::empty());
    let size = calculate_estimated_session_size(&session_id, &none);
    let version = factory_state.version;
    let d = Pubkey::default_key();
    let c = build_creation(d, d, owner, d, d, &session_id, &none, entry_bump, clock, version,
        "optimistic_session", "session_factory.create_optimistic_session", size as u64);
    Ok(c)
}

/// Who may change a session's status: the factory authority, or the
/// session program.
pub open spec fn may_update_status(factory_state: SessionFactoryState, authority: Pubkey) -> bool {
    authority.bytes@ == factory_state.authority.bytes@ || authority.bytes@ == session_program_bytes()
}

/// Moves a session to `new_status` at the clock's time; refused with
/// `NotAuthorized`, both accounts untouched, unless the factory authority or
/// the session program asks. A session becoming active gets its activation
/// time, counts as active (saturating) and yields an activation event; a
/// session leaving the active status stops counting (saturating at 0).
pub fn update_session_status(
    session_entry: &mut SessionEntry,
    factory_state: &mut SessionFactoryState,
    new_status: SessionStatus,
    authority: Pubkey,
    clock: ClockReading,
) -> (r: Result<Option<SessionActivatedEvent>, SessionFactoryError>)
    ensures
        !may_update_status(*old(factory_state), authority) ==> r == Err::<Option<SessionActivatedEvent>, SessionFactoryError>(SessionFactoryError::NotAuthorized)
            && *final(session_entry) == *old(session_entry) && *final(factory_state) == *old(factory_state),
        may_update_status(*old(factory_state), authority) ==> r is Ok,
        r is Ok ==> {
            &&& final(session_entry).status == new_status
            &&& final(session_entry).last_updated == clock.unix_timestamp
            &&& final(session_entry).activated_at == if new_status == SessionStatus::Active && old(session_entry).status != SessionStatus::Active {
                Some(clock.unix_timestamp) } else { old(session_entry).activated_at }
            &&& final(factory_state).active_sessions == active_after(old(factory_state).active_sessions, old(session_entry).status, new_status)
            &&& final(factory_state).total_sessions == old(factory_state).total_sessions
            &&& final(factory_state).authority == old(factory_state).authority
            &&& final(session_entry).session_id@ == old(session_entry).session_id@
            &&& final(session_entry).owner == old(session_entry).owner
            &&& final(session_entry).optimistic_state == old(session_entry).optimistic_state
        },
        r matches Ok(o) ==> (o is Some <==> (new_status == SessionStatus::Active && old(session_entry).status != SessionStatus::Active)),
        r matches Ok(Some(ev)) ==> ev.session_address == old(session_entry).session_address
            && ev.session_id@ == old(session_entry).session_id@ && ev.owner == old(session_entry).owner
            && ev.eval_program == old(session_entry).eval_program && ev.shard_address == old(session_entry).shard_address
            && views(ev.namespaces@) == views(old(session_entry).namespaces@)
            && ev.activated_at == clock.unix_timestamp && ev.activated_by == authority && ev.activation_slot == clock.slot,
{
    let program = session_program_id();
    if !(authority == factory_state.authority || authority == program) {
        return Err(SessionFactoryError::NotAuthorized);
    }
    let old_status = session_entry.status;
    session_entry.status = new_status;
    session_entry.last_updated = clock.unix_timestamp;
    let mut event: Option<SessionActivatedEvent> = None;
    if new_status == SessionStatus::Active && old_status != SessionStatus::Active {
        session_entry.activated_at = Some(clock.unix_timestamp);
        factory_state.active_sessions = if factory_state.active_sessions < u64::MAX { factory_state.active_sessions + 1 } else { u64::MAX };
        event = Some(SessionActivatedEvent {
            session_address: session_entry.session_address,
            session_id: session_entry.session_id.clone(),
            owner: session_entry.owner,
            eval_program: session_entry.eval_program,
            shard_address: session_entry.shard_address,
            namespaces: copy_strings(&session_entry.namespaces),
            activated_at: clock.unix_timestamp,
            activated_by: authority,
            activation_slot: clock.slot,
        });
    }
    if old_status == SessionStatus::Active && new_status != SessionStatus::Active {
        factory_state.active_sessions = if factory_state.active_sessions > 0 { factory_state.active_sessions - 1 } else { 0 };
    }
    Ok(event)
}

/// Closes a session: only its owner or the factory authority may; an active
/// session stops counting as active (saturating at 0).
pub fn close_session(session_entry: &SessionEntry, factory_state: &mut SessionFactoryState, authority: Pubkey) -> (r: Result<(), SessionFactoryError>)
    ensures
        (authority.bytes@ == session_entry.owner.bytes@ || authority.bytes@ == old(factory_state).authority.bytes@) ==> r is Ok
            && final(factory_state).active_sessions == active_after(old(factory_state).active_sessions, session_entry.status, SessionStatus::Closed)
            && final(factory_state).total_sessions == old(factory_state).total_sessions
            && final(factory_state).authority == old(factory_state).authority,
        !(authority.bytes@ == session_entry.owner.bytes@ || authority.bytes@ == old(factory_state).authority.bytes@) ==>
            r == Err::<(), SessionFactoryError>(SessionFactoryError::NotAuthorized) && *final(factory_state) == *old(factory_state),
{
    if !(authority == session_entry.owner || authority == factory_state.authority) {
        return Err(SessionFactoryError::NotAuthorized);
    }
    if session_entry.status == SessionStatus::Active {
        factory_state.active_sessions = if factory_state.active_sessions > 0 { factory_state.active_sessions - 1 } else { 0 };
    }
    Ok(())
}

/// Why a reservation is refused, checked in this order.
pub open spec fn reservation_error(
    reservation_id: Seq<char>,
    session_id: Seq<char>,
    session_owner: Pubkey,
    hours: u64,
    has_template: bool,
    has_config: bool,
    now: i64,
) -> Option<SessionFactoryError> {
    if !session_id_ok(reservation_id) {
        Some(SessionFactoryError::InvalidReservationId)
    } else if !session_id_ok(session_id) {
        Some(SessionFactoryError::InvalidSessionId)
    } else if is_zero(session_owner) {
        Some(SessionFactoryError::InvalidOwner)
    } else if !(0 < hours <= 168) {
        Some(SessionFactoryError::InvalidReservationDuration)
    } else if has_template == has_config {
        Some(SessionFactoryError::InvalidReservationConfig)
    } else if now + hours * 3600 > i64::MAX {
        Some(SessionFactoryError::InvalidReservationDuration)
    } else {
        None
    }
}

/// Reserves a session id for two-phase creation. Refuses, in this order, a
/// reservation id or session id that is empty or over 64 bytes, a default
/// owner, a duration outside 1..=168 hours, a request that gives both or
/// neither of a template and a configuration, and an expiry past the
/// largest timestamp. Otherwise the reservation, unused, expires the given
/// number of hours after `now`.
pub fn reserve_session(
    reserver: Pubkey,
    reservation_id: String,
    session_id: String,
    session_owner: Pubkey,
    template_id: Option<String>,
    custom_config: Option<SessionConfiguration>,
    reservation_duration_hours: u64,
    bump: u8,
    now: i64,
) -> (r: Result<(SessionReservation, SessionReservedEvent), SessionFactoryError>)
    ensures
        match reservation_error(reservation_id@, session_id@, session_owner, reservation_duration_hours, template_id is Some, custom_config is Some, now) {
            Some(e) => r == Err::<(SessionReservation, SessionReservedEvent), SessionFactoryError>(e),
            None => r matches Ok((res, ev))
                && res.reservation_id@ == reservation_id@ && res.session_id@ == session_id@
                && res.reserved_by == reserver && res.session_owner == session_owner
                && res.template_id == template_id && res.session_config == custom_config
                && res.expires_at == now + reservation_duration_hours * 3600 && res.reserved_at == now
                && !res.is_used && res.bump == bump
                && ev.reservation_id@ == reservation_id@ && ev.session_id@ == session_id@ && ev.reserved_by == reserver
                && ev.session_owner == session_owner && ev.template_id == template_id
                && ev.expires_at == res.expires_at && ev.reserved_at == now,
        },
{
    let rid_len = str_byte_len(&reservation_id);
    if rid_len == 0 || rid_len > 64 {
        return Err(SessionFactoryError::InvalidReservationId);
    }
    let sid_len = str_byte_len(&session_id);
    if sid_len == 0 || sid_len > 64 {
        return Err(SessionFactoryError::InvalidSessionId);
    }
    if session_owner.is_default() {
        return Err(SessionFactoryError::InvalidOwner);
    }
    if !(reservation_duration_hours > 0 && reservation_duration_hours <= 168) {
        return Err(SessionFactoryError::InvalidReservationDuration);
    }
    if template_id.is_some() == custom_config.is_some() {
        return Err(SessionFactoryError::InvalidReservationConfig);
    }
    let span: i64 = (reservation_duration_hours * 3600) as i64;
    let expires_at = match now.checked_add(span) {
        Some(t) => t,
        None => { return Err(SessionFactoryError::InvalidReservationDuration); }
    };
    let event_template = match &template_id {
        Some(t) => Some(t.clone()),
        None => None,
    };
    let reservation = SessionReservation {
        reservation_id: reservation_id.clone(),
        session_id: session_id.clone(),
        reserved_by: reserver,
        session_owner,
        template_id,
        session_config: custom_config,
        expires_at,
        reserved_at: now,
        is_used: false,
        bump,
    };
    let event = SessionReservedEvent {
        reservation_id,
        session_id,
        reserved_by: reserver,
        session_owner,
        template_id: event_template,
        expires_at,
        reserved_at: now,
    };
    Ok((reservation, event))
}

/// Activates a session by hand: refused with `NotAuthorized`, both accounts
/// untouched, unless the session's owner or the factory authority asks;
/// then refused for a session already active; otherwise the session and its
/// optimistic state become active at `now` and it counts as active
/// (saturating).
pub fn manual_initialize_session(
    session_entry: &mut SessionEntry,
    factory_state: &mut SessionFactoryState,
    session_id: String,
    force_activation: bool,
    authority: Pubkey,
    now: i64,
) -> (r: Result<ManualSessionInitializedEvent, SessionFactoryError>)
    ensures
        !(authority.bytes@ == old(session_entry).owner.bytes@ || authority.bytes@ == old(factory_state).authority.bytes@)
            ==> r == Err::<ManualSessionInitializedEvent, SessionFactoryError>(SessionFactoryError::NotAuthorized)
            && *final(session_entry) == *old(session_entry) && *final(factory_state) == *old(factory_state),
        (authority.bytes@ == old(session_entry).owner.bytes@ || authority.bytes@ == old(factory_state).authority.bytes@)
            && old(session_entry).status == SessionStatus::Active ==> r == Err::<ManualSessionInitializedEvent, SessionFactoryError>(SessionFactoryError::SessionAlreadyActive)
            && *final(session_entry) == *old(session_entry) && *final(factory_state) == *old(factory_state),
        (authority.bytes@ == old(session_entry).owner.bytes@ || authority.bytes@ == old(factory_state).authority.bytes@)
            && old(session_entry).status != SessionStatus::Active ==> (r matches Ok(ev)
            && final(session_entry).status == SessionStatus::Active
            && final(session_entry).optimistic_state == SessionState::Active
            && final(session_entry).activated_at == Some(now)
            && final(session_entry).last_updated == now
            && final(session_entry).optimistic_state_set_at == now
            && final(session_entry).owner == old(session_entry).owner
            && final(session_entry).session_id@ == old(session_entry).session_id@
            && final(factory_state).active_sessions == inc_sat(old(factory_state).active_sessions)
            && final(factory_state).total_sessions == old(factory_state).total_sessions
            && ev.session_pda == old(session_entry).session_address && ev.session_id@ == session_id@
            && ev.owner == old(session_entry).owner && ev.authority == authority
            && ev.force_activation == force_activation && ev.initialized_at == now),
{
    if !(authority == session_entry.owner || authority == factory_state.authority) {
        return Err(SessionFactoryError::NotAuthorized);
    }
    if session_entry.status == SessionStatus::Active {
        return Err(SessionFactoryError::SessionAlreadyActive);
    }
    session_entry.status = SessionStatus::Active;
    session_entry.optimistic_state = SessionState::Active;
    session_entry.activated_at = Some(now);
    session_entry.last_updated = now;
    session_entry.optimistic_state_set_at = now;
    factory_state.active_sessions = if factory_state.active_sessions < u64::MAX { factory_state.active_sessions + 1 } else { u64::MAX };
    Ok(ManualSessionInitializedEvent {
        session_pda: session_entry.session_address,
        session_id,
        owner: session_entry.owner,
        authority,
        force_activation,
        initialized_at: now,
    })
}

/// Resets a session's status: only its owner or the factory authority may
/// (otherwise `ConstraintRaw`). The optimistic state follows the status;
/// a status other than active clears the activation time. The count of
/// active sessions is left as it was.
pub fn emergency_reset_session(
    session_entry: &mut SessionEntry,
    factory_state: &SessionFactoryState,
    session_id: String,
    reset_to_status: SessionStatus,
    authority: Pubkey,
    now: i64,
) -> (r: Result<EmergencySessionResetEvent, FrameworkError>)
    ensures
        !(old(session_entry).owner.bytes@ == authority.bytes@ || authority.bytes@ == factory_state.authority.bytes@) ==>
            r == Err::<EmergencySessionResetEvent, FrameworkError>(FrameworkError::ConstraintRaw) && *final(session_entry) == *old(session_entry),
        (old(session_entry).owner.bytes@ == authority.bytes@ || authority.bytes@ == factory_state.authority.bytes@) ==> (r matches Ok(ev)
            && final(session_entry).status == reset_to_status
            && final(session_entry).optimistic_state == optimistic_for(reset_to_status)
            && final(session_entry).last_updated == now
            && final(session_entry).optimistic_state_set_at == now
            && final(session_entry).activated_at == if reset_to_status == SessionStatus::Active { old(session_entry).activated_at } else { None }
            && final(session_entry).owner == old(session_entry).owner
            && final(session_entry).session_id@ == old(session_entry).session_id@
            && ev.session_pda == old(session_entry).session_address && ev.session_id@ == session_id@
            && ev.owner == old(session_entry).owner && ev.authority == authority
            && ev.old_status == old(session_entry).status && ev.new_status == reset_to_status
            && ev.old_optimistic_state == old(session_entry).optimistic_state
            && ev.new_optimistic_state == optimistic_for(reset_to_status) && ev.reset_at == now),
{
    if !(session_entry.owner == authority || authority == factory_state.authority) {
        return Err(FrameworkError::ConstraintRaw);
    }
    let old_status = session_entry.status;
    let old_optimistic_state = session_entry.optimistic_state;
    session_entry.status = reset_to_status;
    session_entry.optimistic_state = match reset_to_status {
        SessionStatus::Requested => SessionState::Pending,
        SessionStatus::Created => SessionState::Pending,
        SessionStatus::Active => SessionState::Active,
        SessionStatus::Closed => SessionState::Closed,
    };
    session_entry.last_updated = now;
    session_entry.optimistic_state_set_at = now;
    if reset_to_status != SessionStatus::Active {
        session_entry.activated_at = None;
    }
    Ok(EmergencySessionResetEvent {
        session_pda: session_entry.session_address,
        session_id,
        owner: session_entry.owner,
        authority,
        old_status,
        new_status: reset_to_status,
        old_optimistic_state,
        new_optimistic_state: session_entry.optimistic_state,
        reset_at: now,
    })
}

/// The number of active sessions among the statuses.
pub open spec fn active_count(statuses: Seq<SessionStatus>) -> nat
    decreases statuses.len(),
{
    if statuses.len() == 0 {
        0
    } else {
        active_count(statuses.drop_last()) + if statuses.last() == SessionStatus::Active { 1nat } else { 0nat }
    }
}

/// Changing one status changes the count by what that status contributed.
proof fn lemma_active_count_update(statuses: Seq<SessionStatus>, i: int, s: SessionStatus)
    requires
        0 <= i < statuses.len(),
    ensures
        active_count(statuses.update(i, s)) + (if statuses[i] == SessionStatus::Active { 1int } else { 0int })
            == active_count(statuses) + (if s == SessionStatus::Active { 1int } else { 0int }),
        statuses[i] == SessionStatus::Active ==> active_count(statuses) >= 1,
    decreases statuses.len(),
{
    let u = statuses.update(i, s);
    if i == statuses.len() - 1 {
        assert(u.drop_last() =~= statuses.drop_last());
    } else {
        lemma_active_count_update(statuses.drop_last(), i, s);
        assert(u.drop_last() =~= statuses.drop_last().update(i, s));
        assert(u.last() == statuses.last());
        assert(statuses.drop_last()[i] == statuses[i]);
    }
}

/// Where the factory counts exactly the active entries, a status change
/// made by `update_session_status` keeps it so: the new count is the
/// number of active entries after the change (short of the count's maximum).
pub proof fn lemma_status_change_keeps_count(statuses: Seq<SessionStatus>, i: int, new_status: SessionStatus, active: u64)
    requires
        0 <= i < statuses.len(),
        active == active_count(statuses),
        active < u64::MAX,
    ensures
        active_after(active, statuses[i], new_status) == active_count(statuses.update(i, new_status)),
{
    lemma_active_count_update(statuses, i, new_status);
}

/// The statuses of the session entries.
pub open spec fn entry_statuses(entries: Seq<SessionEntry>) -> Seq<SessionStatus> {
    entries.map_values(|e: SessionEntry| e.status)
}

/// Where the factory counts exactly the active entries among `entries`,
/// changing the status of entry `i` as `update_session_status` or
/// `close_session` does keeps it so: with the entry as the call leaves it,
/// the factory's new count is the number of active entries (short of the
/// count's maximum).
pub proof fn lemma_update_keeps_active_count(
    entries: Seq<SessionEntry>,
    i: int,
    updated: SessionEntry,
    old_factory: SessionFactoryState,
    new_factory: SessionFactoryState,
)
    requires
        0 <= i < entries.len(),
        old_factory.active_sessions == active_count(entry_statuses(entries)),
        old_factory.active_sessions < u64::MAX,
        new_factory.active_sessions == active_after(old_factory.active_sessions, entries[i].status, updated.status),
    ensures
        new_factory.active_sessions == active_count(entry_statuses(entries.update(i, updated))),
{
    let st = entry_statuses(entries);
    assert(entry_statuses(entries.update(i, updated)) =~= st.update(i, updated.status));
    lemma_status_change_keeps_count(st, i, updated.status, old_factory.active_sessions);
}

/// Activating a session that was not active and then returning it to its
/// former status leaves the count of active sessions where it was, short
/// of the count's maximum.
pub proof fn lemma_activation_round_trip(active: u64, status: SessionStatus)
    requires
        status != SessionStatus::Active,
        active < u64::MAX,
    ensures
        active_after(active_after(active, status, SessionStatus::Active), SessionStatus::Active, status) == active,
{
}

/// A reservation made at `now` for `hours > 0` hours is valid at every
/// time from `now` until it expires, and expired and no longer valid at
/// every time after.
pub proof fn lemma_fresh_reservation_valid(r: SessionReservation, now: i64, hours: u64)
    requires
        r.expires_at == now + hours * 3600,
        !r.is_used,
        0 < hours,
    ensures
        now < r.expires_at,
        forall|t: i64| now <= t <= r.expires_at ==> #[trigger] reservation_valid(r, t) && !reservation_expired(r, t),
        forall|t: i64| t > r.expires_at ==> #[trigger] reservation_expired(r, t) && !reservation_valid(r, t),
{
}

/// The first `n` characters of `s`, or all of it when shorter.
pub open spec fn prefix_of(s: Seq<char>, n: int) -> Seq<char> {
    if s.len() < n { s } else { s.subrange(0, n) }
}

/// The id of an attestation made with `SessionCreationAttestation::new`:
/// the first 8 characters of the factory's base58 address, the session id
/// and the height, joined by `-`.
pub open spec fn derived_attestation_id(factory: Pubkey, session_id: Seq<char>, height: u64) -> Seq<char> {
    prefix_of(base58(factory.bytes@), 8) + "-"@ + session_id + "-"@ + decimal(height as nat)
}

impl SessionCreationAttestation {
    /// A new attestation with an id derived from the factory, the session id
    /// and the height, and an empty signature.
    pub fn new(
        factory_address: Pubkey,
        session_address: Pubkey,
        session_id: String,
        eval_address: Pubkey,
        creation_parameters: CreationParameters,
        attested_at_height: u64,
    ) -> (r: SessionCreationAttestation)
        ensures
            r.factory_address == factory_address,
            r.session_address == session_address,
            r.session_id@ == session_id@,
            r.eval_address == eval_address,
            r.attestation_id@ == derived_attestation_id(factory_address, session_id@, attested_at_height),
            r.creation_parameters == creation_parameters,
            r.verification_signature@ == Seq::new(64, |i: int| 0u8),
            r.attested_at_height == attested_at_height,
    {
        let text = pubkey_base58(&factory_address);
        let n = text.as_str().unicode_len();
        let cut: usize = if n < 8 { n } else { 8 };
        let head = text.as_str().substring_char(0, cut);
        let mut id = owned(head);
        proof {
            assert(head@ == prefix_of(base58(factory_address.bytes@), 8));
        }
        id.append("-");
        id.append(session_id.as_str());
        id.append("-");
        push_decimal(&mut id, attested_at_height);
        let r = SessionCreationAttestation {
            factory_address,
            session_address,
            session_id,
            eval_address,
            attestation_id: id,
            creation_parameters,
            verification_signature: [0u8; 64],
            attested_at_height,
        };
        assert(r.verification_signature@ =~= Seq::new(64, |i: int| 0u8));
        r
    }

    /// Whether the attestation names a session id and non-default session,
    /// factory and eval addresses.
    pub fn verify_integrity(&self) -> (r: bool)
        ensures
            r == (self.session_id@.len() > 0 && !is_zero(self.session_address) && !is_zero(self.factory_address) && !is_zero(self.eval_address)),
    {
        !self.session_id.as_str().is_empty() && !self.session_address.is_default() && !self.factory_address.is_default()
            && !self.eval_address.is_default()
    }
}

} // verus!
