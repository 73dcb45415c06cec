//! The instructions of a session account: who may act on it, what each
//! instruction changes, and the event it reports. Token and lamport
//! transfers themselves are cross-program calls made around these checks.

use vstd::prelude::*;
use crate::error::{ValenceError, FrameworkError, ProgramFailure};
use crate::pubkey::{Pubkey, zero_bytes};
use crate::runtime::clock_get;
use crate::sessions::state::{SessionState, SessionMetadata, SessionData};
use crate::text::{byte_len, str_byte_len, utf8, utf8_bytes};

verus! {

/// A session was set up.
#[derive(Debug)]
pub struct SessionInitializedEvent {
    pub session_id: String,
    pub owner: Pubkey,
    pub eval_program: Pubkey,
    pub namespace_count: u8,
    pub timestamp: i64,
}

/// A call was made through a session.
#[derive(Debug)]
pub struct CallExecutedEvent {
    pub session_id: String,
    pub target_program: Pubkey,
    pub caller: Pubkey,
    pub timestamp: i64,
}

/// A token account was created for a session.
#[derive(Debug)]
pub struct TokenAccountCreatedEvent {
    pub session_id: String,
    pub mint: Pubkey,
    pub token_account: Pubkey,
    pub timestamp: i64,
}

/// Tokens left a session's account.
#[derive(Debug)]
pub struct TokenTransferredEvent {
    pub session_id: String,
    pub from: Pubkey,
    pub to: Pubkey,
    pub amount: u64,
    pub timestamp: i64,
}

/// Lamports left a session.
#[derive(Debug)]
pub struct SolTransferredEvent {
    pub session_id: String,
    pub to: Pubkey,
    pub amount: u64,
    pub timestamp: i64,
}

/// A session let a delegate spend its tokens.
#[derive(Debug)]
pub struct TokenApprovedEvent {
    pub session_id: String,
    pub token_account: Pubkey,
    pub delegate: Pubkey,
    pub amount: u64,
    pub timestamp: i64,
}

/// A session stored data.
#[derive(Debug)]
pub struct DataStoredEvent {
    pub session_id: String,
    pub key: String,
    pub value_size: u32,
    pub timestamp: i64,
}

/// A session's data was read.
#[derive(Debug)]
pub struct DataRetrievedEvent {
    pub session_id: String,
    pub key: String,
    pub value_size: u32,
    pub timestamp: i64,
}

/// A session's metadata changed.
#[derive(Debug)]
pub struct MetadataUpdatedEvent {
    pub session_id: String,
    pub updater: Pubkey,
    pub timestamp: i64,
}

/// A session was closed.
#[derive(Debug)]
pub struct SessionClosedEvent {
    pub session_id: String,
    pub owner: Pubkey,
    pub timestamp: i64,
}

/// The most bytes of a session id and of a data key.
pub const MAX_SESSION_ID_BYTES: usize = 64;

/// The most bytes of a stored value.
pub const MAX_VALUE_BYTES: usize = 1024;

/// The checks of `initialize`: a set owner and eval program, and a session
/// id of 1 to 64 bytes.
pub open spec fn initialize_check(owner: Pubkey, eval_program: Pubkey, session_id: Seq<char>) -> Result<(), ValenceError> {
    if owner.bytes@ == zero_bytes() {
        Err(ValenceError::SessionInvalidOwner)
    } else if eval_program.bytes@ == zero_bytes() {
        Err(ValenceError::SessionInvalidEvalProgram)
    } else if session_id.len() == 0 || byte_len(session_id) > MAX_SESSION_ID_BYTES {
        Err(ValenceError::SessionIdTooLong)
    } else {
        Ok(())
    }
}

/// The checks of the instructions that only the session's eval program may
/// make: the caller is that program, and the session is active.
pub open spec fn eval_check(s: SessionState, caller: Pubkey) -> Result<(), ValenceError> {
    if caller.bytes@ != s.eval_program.bytes@ {
        Err(ValenceError::SessionUnauthorizedCaller)
    } else if !s.is_active {
        Err(ValenceError::SessionNotActive)
    } else {
        Ok(())
    }
}

/// The checks of `store_data`: those of the eval program, then a key of 1
/// to 64 bytes and a value of at most 1024 bytes.
pub open spec fn store_check(s: SessionState, caller: Pubkey, key: Seq<char>, value_len: nat) -> Result<(), ValenceError> {
    if eval_check(s, caller) is Err {
        eval_check(s, caller)
    } else if key.len() == 0 || byte_len(key) > MAX_SESSION_ID_BYTES {
        Err(ValenceError::SessionDataKeyTooLong)
    } else if value_len > MAX_VALUE_BYTES {
        Err(ValenceError::SessionDataValueTooLarge)
    } else {
        Ok(())
    }
}

/// The checks of `retrieve_data`: an active session, and data of this
/// session under this key.
pub open spec fn retrieve_check(s: SessionState, session_key: Pubkey, data: SessionData, key: Seq<char>) -> Result<(), ValenceError> {
    if !s.is_active {
        Err(ValenceError::SessionNotActive)
    } else if data.session.bytes@ != session_key.bytes@ || data.key@ != key {
        Err(ValenceError::SessionDataNotFound)
    } else {
        Ok(())
    }
}

/// The checks of the owner's instructions: the signer is the owner, and,
/// where `need_active`, the session is active.
pub open spec fn owner_check(s: SessionState, signer: Pubkey, need_active: bool) -> Result<(), ValenceError> {
    if signer.bytes@ != s.owner.bytes@ {
        Err(ValenceError::SessionUnauthorizedCaller)
    } else if need_active && !s.is_active {
        Err(ValenceError::SessionNotActive)
    } else {
        Ok(())
    }
}

/// The seeds the session's address is derived from, with its bump: the
/// session signs its token transfers and approvals with them.
pub open spec fn session_seeds(owner: Pubkey, session_id: Seq<char>, bump: u8) -> Seq<Seq<u8>> {
    seq![seq![115u8, 101u8, 115u8, 115u8, 105u8, 111u8, 110u8], owner.bytes@, utf8(session_id), seq![bump]]
}

/// The clock's time, or the failure to read it.
fn read_time() -> (r: Result<i64, ProgramFailure>)
    ensures
        r is Err ==> r == Err::<i64, ProgramFailure>(ProgramFailure::Framework(FrameworkError::UnsupportedSysvar)),
{
    match clock_get() {
        Some(c) => Ok(c.unix_timestamp),
        None => Err(ProgramFailure::Framework(FrameworkError::UnsupportedSysvar)),
    }
}

/// Whether the caller is the session's eval program and the session is
/// active: see `eval_check`.
pub fn check_eval_caller(session_state: &SessionState, caller: &Pubkey) -> (r: Result<(), ValenceError>)
    ensures
        r == eval_check(*session_state, *caller),
{
    if !(*caller == session_state.eval_program) {
        return Err(ValenceError::SessionUnauthorizedCaller);
    }
    if !session_state.is_active {
        return Err(ValenceError::SessionNotActive);
    }
    Ok(())
}

/// Whether the signer is the owner, and the session active where asked: see
/// `owner_check`.
pub fn check_owner(session_state: &SessionState, signer: &Pubkey, need_active: bool) -> (r: Result<(), ValenceError>)
    ensures
        r == owner_check(*session_state, *signer, need_active),
{
    if !(*signer == session_state.owner) {
        return Err(ValenceError::SessionUnauthorizedCaller);
    }
    if need_active && !session_state.is_active {
        return Err(ValenceError::SessionNotActive);
    }
    Ok(())
}

/// The seeds the session signs with.
pub fn session_signer_seeds(session_state: &SessionState) -> (r: Vec<Vec<u8>>)
    ensures
        r.deep_view() == session_seeds(session_state.owner, session_state.session_id@, session_state.bump),
{
    let mut tag: Vec<u8> = Vec::new();
    tag.push(115u8);
    tag.push(101u8);
    tag.push(115u8);
    tag.push(115u8);
    tag.push(105u8);
    tag.push(111u8);
    tag.push(110u8);
    let owner = session_state.owner.to_bytes_vec();
    let id = utf8_bytes(&session_state.session_id);
    let mut b: Vec<u8> = Vec::new();
    b.push(session_state.bump);
    let mut r: Vec<Vec<u8>> = Vec::new();
    r.push(tag);
    r.push(owner);
    r.push(id);
    r.push(b);
    assert(r.deep_view() =~= session_seeds(session_state.owner, session_state.session_id@, session_state.bump)) by {
        assert(r.deep_view()[0] =~= seq![115u8, 101u8, 115u8, 115u8, 105u8, 111u8, 110u8]);
        assert(r.deep_view()[1] =~= session_state.owner.bytes@);
        assert(r.deep_view()[2] =~= utf8(session_state.session_id@));
        assert(r.deep_view()[3] =~= seq![session_state.bump]);
    }
    r
}

/// Sets up a session at time `now`: see `initialize_check` for when it is
/// refused. The session is active, with the default metadata and no
/// execution counted. Reports the number of namespaces as a `u8`.
pub fn initialize_at(session_state: &mut SessionState, owner: Pubkey, eval_program: Pubkey, session_id: String, namespaces: Vec<String>, bump: u8, now: i64) -> (r: Result<SessionInitializedEvent, ValenceError>)
    ensures
        initialize_check(owner, eval_program, session_id@) is Err ==> (r matches Err(e) && Err::<(), ValenceError>(e) == initialize_check(owner, eval_program, session_id@)
            && *final(session_state) == *old(session_state)),
        initialize_check(owner, eval_program, session_id@) is Ok ==> (r matches Ok(ev)
            && ev == (SessionInitializedEvent { session_id, owner, eval_program, namespace_count: namespaces@.len() as u8, timestamp: now })
            && final(session_state).owner == owner
            && final(session_state).eval_program == eval_program
            && final(session_state).session_id == session_id
            && final(session_state).namespaces == namespaces
            && final(session_state).is_active
            && final(session_state).metadata.description@.len() == 0
            && final(session_state).metadata.tags@.len() == 0
            && final(session_state).metadata.max_lifetime == 0
            && final(session_state).total_executions == 0
            && final(session_state).created_at == now
            && final(session_state).last_activity == now
            && final(session_state).bump == bump),
{
    if owner.is_default() {
        return Err(ValenceError::SessionInvalidOwner);
    }
    if eval_program.is_default() {
        return Err(ValenceError::SessionInvalidEvalProgram);
    }
    if session_id.as_str().is_empty() || str_byte_len(&session_id) > MAX_SESSION_ID_BYTES {
        return Err(ValenceError::SessionIdTooLong);
    }
    let count = namespaces.len() as u8;
    session_state.owner = owner;
    session_state.eval_program = eval_program;
    session_state.session_id = session_id.clone();
    session_state.namespaces = namespaces;
    session_state.is_active = true;
    session_state.metadata = SessionMetadata::default();
    session_state.total_executions = 0;
    session_state.created_at = now;
    session_state.last_activity = now;
    session_state.bump = bump;
    Ok(SessionInitializedEvent { session_id, owner, eval_program, namespace_count: count, timestamp: now })
}

/// Sets up a session as `initialize_at` does, at the clock's time; refused
/// with `UnsupportedSysvar` first where the clock cannot be read.
pub fn initialize(session_state: &mut SessionState, owner: Pubkey, eval_program: Pubkey, session_id: String, namespaces: Vec<String>, bump: u8) -> (r: Result<SessionInitializedEvent, ProgramFailure>)
    ensures
        r is Err ==> *final(session_state) == *old(session_state),
        r matches Err(ProgramFailure::Kernel(e)) ==> Err::<(), ValenceError>(e) == initialize_check(owner, eval_program, session_id@),
        r matches Err(e) ==> e == ProgramFailure::Framework(FrameworkError::UnsupportedSysvar) || e is Kernel,
        initialize_check(owner, eval_program, session_id@) is Err ==> r is Err,
        r matches Ok(ev) ==> initialize_check(owner, eval_program, session_id@) is Ok
            && ev.session_id == session_id && ev.owner == owner && ev.eval_program == eval_program
            && ev.namespace_count == namespaces@.len() as u8
            && final(session_state).owner == owner
            && final(session_state).eval_program == eval_program
            && final(session_state).session_id == session_id
            && final(session_state).namespaces == namespaces
            && final(session_state).is_active
            && final(session_state).total_executions == 0
            && final(session_state).bump == bump,
{
    let now = match read_time() {
        Ok(t) => t,
        Err(e) => { return Err(e); }
    };
    match initialize_at(session_state, owner, eval_program, session_id, namespaces, bump, now) {
        Ok(ev) => Ok(ev),
        Err(e) => Err(ProgramFailure::Kernel(e)),
    }
}

/// Counts a call of the session's eval program to `target_program` at time
/// `now`: see `eval_check` for when it is refused. The count saturates.
pub fn execute_call_at(session_state: &mut SessionState, caller: Pubkey, target_program: Pubkey, _call_data: &Vec<u8>, now: i64) -> (r: Result<CallExecutedEvent, ValenceError>)
    ensures
        eval_check(*old(session_state), caller) is Err ==> (r matches Err(e) && Err::<(), ValenceError>(e) == eval_check(*old(session_state), caller)
            && *final(session_state) == *old(session_state)),
        eval_check(*old(session_state), caller) is Ok ==> (r matches Ok(ev)
            && ev == (CallExecutedEvent { session_id: old(session_state).session_id, target_program, caller, timestamp: now })
            && *final(session_state) == (SessionState {
                total_executions: if old(session_state).total_executions == u64::MAX { u64::MAX } else { (old(session_state).total_executions + 1) as u64 },
                last_activity: now,
                ..*old(session_state)
            })),
{
    match check_eval_caller(session_state, &caller) {
        Ok(()) => {}
        Err(e) => { return Err(e); }
    }
    session_state.total_executions = session_state.total_executions.saturating_add(1);
    session_state.last_activity = now;
    Ok(CallExecutedEvent { session_id: session_state.session_id.clone(), target_program, caller, timestamp: now })
}

/// Counts a call as `execute_call_at` does, at the clock's time; refused
/// with `UnsupportedSysvar` first where the clock cannot be read.
pub fn execute_call(session_state: &mut SessionState, caller: Pubkey, target_program: Pubkey, call_data: &Vec<u8>) -> (r: Result<CallExecutedEvent, ProgramFailure>)
    ensures
        r is Err ==> *final(session_state) == *old(session_state),
        r matches Err(ProgramFailure::Kernel(e)) ==> Err::<(), ValenceError>(e) == eval_check(*old(session_state), caller),
        r matches Err(e) ==> e == ProgramFailure::Framework(FrameworkError::UnsupportedSysvar) || e is Kernel,
        eval_check(*old(session_state), caller) is Err ==> r is Err,
        r matches Ok(ev) ==> eval_check(*old(session_state), caller) is Ok
            && ev.session_id == old(session_state).session_id && ev.target_program == target_program && ev.caller == caller
            && final(session_state).total_executions == (if old(session_state).total_executions == u64::MAX { u64::MAX } else { (old(session_state).total_executions + 1) as u64 })
            && *final(session_state) == (SessionState { total_executions: final(session_state).total_executions, last_activity: final(session_state).last_activity, ..*old(session_state) }),
{
    let now = match read_time() {
        Ok(t) => t,
        Err(e) => { return Err(e); }
    };
    match execute_call_at(session_state, caller, target_program, call_data, now) {
        Ok(ev) => Ok(ev),
        Err(e) => Err(ProgramFailure::Kernel(e)),
    }
}

/// Checks that the session's eval program may create a token account for
/// the session, at time `now`: see `eval_check`.
pub fn create_token_account_at(session_state: &SessionState, caller: Pubkey, mint: Pubkey, token_account: Pubkey, now: i64) -> (r: Result<TokenAccountCreatedEvent, ValenceError>)
    ensures
        eval_check(*session_state, caller) is Err ==> (r matches Err(e) && Err::<(), ValenceError>(e) == eval_check(*session_state, caller)),
        eval_check(*session_state, caller) is Ok ==> r == Ok::<TokenAccountCreatedEvent, ValenceError>(TokenAccountCreatedEvent { session_id: session_state.session_id, mint, token_account, timestamp: now }),
{
    match check_eval_caller(session_state, &caller) {
        Ok(()) => {}
        Err(e) => { return Err(e); }
    }
    Ok(TokenAccountCreatedEvent { session_id: session_state.session_id.clone(), mint, token_account, timestamp: now })
}

/// As `create_token_account_at`, at the clock's time; refused with
/// `UnsupportedSysvar` first where the clock cannot be read.
pub fn create_token_account(session_state: &SessionState, caller: Pubkey, mint: Pubkey, token_account: Pubkey) -> (r: Result<TokenAccountCreatedEvent, ProgramFailure>)
    ensures
        r matches Err(ProgramFailure::Kernel(e)) ==> Err::<(), ValenceError>(e) == eval_check(*session_state, caller),
        r matches Err(e) ==> e == ProgramFailure::Framework(FrameworkError::UnsupportedSysvar) || e is Kernel,
        eval_check(*session_state, caller) is Err ==> r is Err,
        r matches Ok(ev) ==> eval_check(*session_state, caller) is Ok && ev.session_id == session_state.session_id && ev.mint == mint && ev.token_account == token_account,
{
    let now = match read_time() {
        Ok(t) => t,
        Err(e) => { return Err(e); }
    };
    match create_token_account_at(session_state, caller, mint, token_account, now) {
        Ok(ev) => Ok(ev),
        Err(e) => Err(ProgramFailure::Kernel(e)),
    }
}

/// Checks that the session's eval program may move `amount` tokens from
/// the session's account, at time `now`: see `eval_check`.
pub fn transfer_token_at(session_state: &SessionState, caller: Pubkey, from: Pubkey, to: Pubkey, amount: u64, now: i64) -> (r: Result<TokenTransferredEvent, ValenceError>)
    ensures
        eval_check(*session_state, caller) is Err ==> (r matches Err(e) && Err::<(), ValenceError>(e) == eval_check(*session_state, caller)),
        eval_check(*session_state, caller) is Ok ==> r == Ok::<TokenTransferredEvent, ValenceError>(TokenTransferredEvent { session_id: session_state.session_id, from, to, amount, timestamp: now }),
{
    match check_eval_caller(session_state, &caller) {
        Ok(()) => {}
        Err(e) => { return Err(e); }
    }
    Ok(TokenTransferredEvent { session_id: session_state.session_id.clone(), from, to, amount, timestamp: now })
}

/// As `transfer_token_at`, at the clock's time; refused with
/// `UnsupportedSysvar` first where the clock cannot be read.
pub fn transfer_token(session_state: &SessionState, caller: Pubkey, from: Pubkey, to: Pubkey, amount: u64) -> (r: Result<TokenTransferredEvent, ProgramFailure>)
    ensures
        r matches Err(ProgramFailure::Kernel(e)) ==> Err::<(), ValenceError>(e) == eval_check(*session_state, caller),
        r matches Err(e) ==> e == ProgramFailure::Framework(FrameworkError::UnsupportedSysvar) || e is Kernel,
        eval_check(*session_state, caller) is Err ==> r is Err,
        r matches Ok(ev) ==> eval_check(*session_state, caller) is Ok && ev.session_id == session_state.session_id && ev.from == from && ev.to == to && ev.amount == amount,
{
    let now = match read_time() {
        Ok(t) => t,
        Err(e) => { return Err(e); }
    };
    match transfer_token_at(session_state, caller, from, to, amount, now) {
        Ok(ev) => Ok(ev),
        Err(e) => Err(ProgramFailure::Kernel(e)),
    }
}

/// Checks that the session's eval program may send `amount` lamports from
/// the session, at time `now`: see `eval_check`.
pub fn transfer_sol_at(session_state: &SessionState, caller: Pubkey, to: Pubkey, amount: u64, now: i64) -> (r: Result<SolTransferredEvent, ValenceError>)
    ensures
        eval_check(*session_state, caller) is Err ==> (r matches Err(e) && Err::<(), ValenceError>(e) == eval_check(*session_state, caller)),
        eval_check(*session_state, caller) is Ok ==> r == Ok::<SolTransferredEvent, ValenceError>(SolTransferredEvent { session_id: session_state.session_id, to, amount, timestamp: now }),
{
    match check_eval_caller(session_state, &caller) {
        Ok(()) => {}
        Err(e) => { return Err(e); }
    }
    Ok(SolTransferredEvent { session_id: session_state.session_id.clone(), to, amount, timestamp: now })
}

/// As `transfer_sol_at`, at the clock's time; refused with
/// `UnsupportedSysvar` first where the clock cannot be read.
pub fn transfer_sol(session_state: &SessionState, caller: Pubkey, to: Pubkey, amount: u64) -> (r: Result<SolTransferredEvent, ProgramFailure>)
    ensures
        r matches Err(ProgramFailure::Kernel(e)) ==> Err::<(), ValenceError>(e) == eval_check(*session_state, caller),
        r matches Err(e) ==> e == ProgramFailure::Framework(FrameworkError::UnsupportedSysvar) || e is Kernel,
        eval_check(*session_state, caller) is Err ==> r is Err,
        r matches Ok(ev) ==> eval_check(*session_state, caller) is Ok && ev.session_id == session_state.session_id && ev.to == to && ev.amount == amount,
{
    let now = match read_time() {
        Ok(t) => t,
        Err(e) => { return Err(e); }
    };
    match transfer_sol_at(session_state, caller, to, amount, now) {
        Ok(ev) => Ok(ev),
        Err(e) => Err(ProgramFailure::Kernel(e)),
    }
}

/// Checks that the session's eval program may let `delegate` spend
/// `amount` tokens of the session's account, at time `now`: see `eval_check`.
pub fn approve_token_at(session_state: &SessionState, caller: Pubkey, token_account: Pubkey, delegate: Pubkey, amount: u64, now: i64) -> (r: Result<TokenApprovedEvent, ValenceError>)
    ensures
        eval_check(*session_state, caller) is Err ==> (r matches Err(e) && Err::<(), ValenceError>(e) == eval_check(*session_state, caller)),
        eval_check(*session_state, caller) is Ok ==> r == Ok::<TokenApprovedEvent, ValenceError>(TokenApprovedEvent { session_id: session_state.session_id, token_account, delegate, amount, timestamp: now }),
{
    match check_eval_caller(session_state, &caller) {
        Ok(()) => {}
        Err(e) => { return Err(e); }
    }
    Ok(TokenApprovedEvent { session_id: session_state.session_id.clone(), token_account, delegate, amount, timestamp: now })
}

/// As `approve_token_at`, at the clock's time; refused with
/// `UnsupportedSysvar` first where the clock cannot be read.
pub fn approve_token(session_state: &SessionState, caller: Pubkey, token_account: Pubkey, delegate: Pubkey, amount: u64) -> (r: Result<TokenApprovedEvent, ProgramFailure>)
    ensures
        r matches Err(ProgramFailure::Kernel(e)) ==> Err::<(), ValenceError>(e) == eval_check(*session_state, caller),
        r matches Err(e) ==> e == ProgramFailure::Framework(FrameworkError::UnsupportedSysvar) || e is Kernel,
        eval_check(*session_state, caller) is Err ==> r is Err,
        r matches Ok(ev) ==> eval_check(*session_state, caller) is Ok && ev.session_id == session_state.session_id && ev.token_account == token_account
            && ev.delegate == delegate && ev.amount == amount,
{
    let now = match read_time() {
        Ok(t) => t,
        Err(e) => { return Err(e); }
    };
    match approve_token_at(session_state, caller, token_account, delegate, amount, now) {
        Ok(ev) => Ok(ev),
        Err(e) => Err(ProgramFailure::Kernel(e)),
    }
}

/// Stores `value` under `key` in the session's data account at time `now`:
/// see `store_check` for when it is refused. Reports the value's size as a
/// `u32`.
pub fn store_data_at(session_state: &SessionState, session_key: Pubkey, session_data: &mut SessionData, caller: Pubkey, key: String, value: Vec<u8>, bump: u8, now: i64) -> (r: Result<DataStoredEvent, ValenceError>)
    ensures
        store_check(*session_state, caller, key@, value@.len()) is Err ==> (r matches Err(e) && Err::<(), ValenceError>(e) == store_check(*session_state, caller, key@, value@.len())
            && *final(session_data) == *old(session_data)),
        store_check(*session_state, caller, key@, value@.len()) is Ok ==> (r matches Ok(ev)
            && ev == (DataStoredEvent { session_id: session_state.session_id, key, value_size: value@.len() as u32, timestamp: now })
            && *final(session_data) == (SessionData { session: session_key, key, value, created_at: now, last_updated: now, bump })),
{
    match check_eval_caller(session_state, &caller) {
        Ok(()) => {}
        Err(e) => { return Err(e); }
    }
    if key.as_str().is_empty() || str_byte_len(&key) > MAX_SESSION_ID_BYTES {
        return Err(ValenceError::SessionDataKeyTooLong);
    }
    if value.len() > MAX_VALUE_BYTES {
        return Err(ValenceError::SessionDataValueTooLarge);
    }
    let size = value.len() as u32;
    session_data.session = session_key;
    session_data.key = key.clone();
    session_data.value = value;
    session_data.created_at = now;
    session_data.last_updated = now;
    session_data.bump = bump;
    Ok(DataStoredEvent { session_id: session_state.session_id.clone(), key, value_size: size, timestamp: now })
}

/// Stores data as `store_data_at` does, at the clock's time; refused with
/// `UnsupportedSysvar` first where the clock cannot be read.
pub fn store_data(session_state: &SessionState, session_key: Pubkey, session_data: &mut SessionData, caller: Pubkey, key: String, value: Vec<u8>, bump: u8) -> (r: Result<DataStoredEvent, ProgramFailure>)
    ensures
        r is Err ==> *final(session_data) == *old(session_data),
        r matches Err(ProgramFailure::Kernel(e)) ==> Err::<(), ValenceError>(e) == store_check(*session_state, caller, key@, value@.len()),
        r matches Err(e) ==> e == ProgramFailure::Framework(FrameworkError::UnsupportedSysvar) || e is Kernel,
        store_check(*session_state, caller, key@, value@.len()) is Err ==> r is Err,
        r matches Ok(ev) ==> store_check(*session_state, caller, key@, value@.len()) is Ok
            && ev.session_id == session_state.session_id && ev.key == key && ev.value_size == value@.len() as u32
            && final(session_data).session == session_key && final(session_data).key == key && final(session_data).value == value
            && final(session_data).bump == bump,
{
    let now = match read_time() {
        Ok(t) => t,
        Err(e) => { return Err(e); }
    };
    match store_data_at(session_state, session_key, session_data, caller, key, value, bump, now) {
        Ok(ev) => Ok(ev),
        Err(e) => Err(ProgramFailure::Kernel(e)),
    }
}

/// Data that a store accepted can be read back under its key from the
/// account the store wrote, and the read reports the stored value's size;
/// under any other key the read is refused with `SessionDataNotFound`.
pub proof fn lemma_store_then_retrieve(
    s: SessionState,
    caller: Pubkey,
    session_key: Pubkey,
    key: String,
    value: Vec<u8>,
    bump: u8,
    now: i64,
    other_key: Seq<char>,
)
    requires
        store_check(s, caller, key@, value@.len()) is Ok,
    ensures
        ({
            let written = SessionData { session: session_key, key, value, created_at: now, last_updated: now, bump };
            &&& retrieve_check(s, session_key, written, key@) is Ok
            &&& written.value@.len() == value@.len()
            &&& other_key != key@ ==> retrieve_check(s, session_key, written, other_key) == Err::<(), ValenceError>(ValenceError::SessionDataNotFound)
        }),
{
}

/// Whether the data may be read: see `retrieve_check`.
pub fn check_retrieve(session_state: &SessionState, session_key: Pubkey, session_data: &SessionData, key: &String) -> (r: Result<(), ValenceError>)
    ensures
        r == retrieve_check(*session_state, session_key, *session_data, key@),
{
    if !session_state.is_active {
        return Err(ValenceError::SessionNotActive);
    }
    if !(session_data.session == session_key) {
        return Err(ValenceError::SessionDataNotFound);
    }
    if !(session_data.key == *key) {
        return Err(ValenceError::SessionDataNotFound);
    }
    Ok(())
}

/// Reports a read of the session's data under `key` at time `now`: see
/// `retrieve_check` for when it is refused.
pub fn retrieve_data_at(session_state: &SessionState, session_key: Pubkey, session_data: &SessionData, key: String, now: i64) -> (r: Result<DataRetrievedEvent, ValenceError>)
    ensures
        retrieve_check(*session_state, session_key, *session_data, key@) is Err ==> (r matches Err(e)
            && Err::<(), ValenceError>(e) == retrieve_check(*session_state, session_key, *session_data, key@)),
        retrieve_check(*session_state, session_key, *session_data, key@) is Ok ==> r == Ok::<DataRetrievedEvent, ValenceError>(DataRetrievedEvent {
            session_id: session_state.session_id,
            key,
            value_size: session_data.value@.len() as u32,
            timestamp: now,
        }),
{
    match check_retrieve(session_state, session_key, session_data, &key) {
        Ok(()) => {}
        Err(e) => { return Err(e); }
    }
    Ok(DataRetrievedEvent { session_id: session_state.session_id.clone(), key, value_size: session_data.value.len() as u32, timestamp: now })
}

/// As `retrieve_data_at`, at the clock's time, which is read after the
/// checks; refused with `UnsupportedSysvar` where the clock cannot be read.
pub fn retrieve_data(session_state: &SessionState, session_key: Pubkey, session_data: &SessionData, key: String) -> (r: Result<DataRetrievedEvent, ProgramFailure>)
    ensures
        retrieve_check(*session_state, session_key, *session_data, key@) is Err ==> (r matches Err(ProgramFailure::Kernel(e))
            && Err::<(), ValenceError>(e) == retrieve_check(*session_state, session_key, *session_data, key@)),
        retrieve_check(*session_state, session_key, *session_data, key@) is Ok ==> r is Ok || r == Err::<DataRetrievedEvent, ProgramFailure>(ProgramFailure::Framework(FrameworkError::UnsupportedSysvar)),
        r matches Ok(ev) ==> ev.session_id == session_state.session_id && ev.key == key && ev.value_size == session_data.value@.len() as u32,
{
    match check_retrieve(session_state, session_key, session_data, &key) {
        Ok(()) => {}
        Err(e) => { return Err(ProgramFailure::Kernel(e)); }
    }
    let now = match read_time() {
        Ok(t) => t,
        Err(e) => { return Err(e); }
    };
    match retrieve_data_at(session_state, session_key, session_data, key, now) {
        Ok(ev) => Ok(ev),
        Err(e) => Err(ProgramFailure::Kernel(e)),
    }
}

/// Replaces the session's metadata at time `now`; only the owner may, on an
/// active session: see `owner_check`.
pub fn update_metadata_at(session_state: &mut SessionState, owner: Pubkey, new_metadata: SessionMetadata, now: i64) -> (r: Result<MetadataUpdatedEvent, ValenceError>)
    ensures
        owner_check(*old(session_state), owner, true) is Err ==> (r matches Err(e) && Err::<(), ValenceError>(e) == owner_check(*old(session_state), owner, true)
            && *final(session_state) == *old(session_state)),
        owner_check(*old(session_state), owner, true) is Ok ==> (r matches Ok(ev)
            && ev == (MetadataUpdatedEvent { session_id: old(session_state).session_id, updater: owner, timestamp: now })
            && *final(session_state) == (SessionState { metadata: new_metadata, last_activity: now, ..*old(session_state) })),
{
    match check_owner(session_state, &owner, true) {
        Ok(()) => {}
        Err(e) => { return Err(e); }
    }
    session_state.metadata = new_metadata;
    session_state.last_activity = now;
    Ok(MetadataUpdatedEvent { session_id: session_state.session_id.clone(), updater: owner, timestamp: now })
}

/// As `update_metadata_at`, at the clock's time; refused with
/// `UnsupportedSysvar` first where the clock cannot be read.
pub fn update_metadata(session_state: &mut SessionState, owner: Pubkey, new_metadata: SessionMetadata) -> (r: Result<MetadataUpdatedEvent, ProgramFailure>)
    ensures
        r is Err ==> *final(session_state) == *old(session_state),
        r matches Err(ProgramFailure::Kernel(e)) ==> Err::<(), ValenceError>(e) == owner_check(*old(session_state), owner, true),
        r matches Err(e) ==> e == ProgramFailure::Framework(FrameworkError::UnsupportedSysvar) || e is Kernel,
        owner_check(*old(session_state), owner, true) is Err ==> r is Err,
        r matches Ok(ev) ==> owner_check(*old(session_state), owner, true) is Ok && ev.session_id == old(session_state).session_id && ev.updater == owner
            && *final(session_state) == (SessionState { metadata: new_metadata, last_activity: final(session_state).last_activity, ..*old(session_state) }),
{
    let now = match read_time() {
        Ok(t) => t,
        Err(e) => { return Err(e); }
    };
    match update_metadata_at(session_state, owner, new_metadata, now) {
        Ok(ev) => Ok(ev),
        Err(e) => Err(ProgramFailure::Kernel(e)),
    }
}

/// Reports the closing of the session at time `now`; only the owner may
/// close it, active or not.
pub fn close_session_at(session_state: &SessionState, owner: Pubkey, now: i64) -> (r: Result<SessionClosedEvent, ValenceError>)
    ensures
        owner_check(*session_state, owner, false) is Err ==> r == Err::<SessionClosedEvent, ValenceError>(ValenceError::SessionUnauthorizedCaller),
        owner_check(*session_state, owner, false) is Ok ==> r == Ok::<SessionClosedEvent, ValenceError>(SessionClosedEvent { session_id: session_state.session_id, owner, timestamp: now }),
{
    match check_owner(session_state, &owner, false) {
        Ok(()) => {}
        Err(e) => { return Err(e); }
    }
    Ok(SessionClosedEvent { session_id: session_state.session_id.clone(), owner, timestamp: now })
}

/// As `close_session_at`, at the clock's time; refused with
/// `UnsupportedSysvar` first where the clock cannot be read.
pub fn close_session(session_state: &SessionState, owner: Pubkey) -> (r: Result<SessionClosedEvent, ProgramFailure>)
    ensures
        r matches Err(e) ==> e == ProgramFailure::Framework(FrameworkError::UnsupportedSysvar) || e == ProgramFailure::Kernel(ValenceError::SessionUnauthorizedCaller),
        owner_check(*session_state, owner, false) is Err ==> r is Err,
        r matches Ok(ev) ==> owner_check(*session_state, owner, false) is Ok && ev.session_id == session_state.session_id && ev.owner == owner,
{
    let now = match read_time() {
        Ok(t) => t,
        Err(e) => { return Err(e); }
    };
    match close_session_at(session_state, owner, now) {
        Ok(ev) => Ok(ev),
        Err(e) => Err(ProgramFailure::Kernel(e)),
    }
}

} // verus!
