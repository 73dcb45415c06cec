//! Session accounts and the space each takes on chain.

use vstd::prelude::*;
use crate::pubkey::Pubkey;
use crate::text::{byte_len, strings_space, strings_space_of, str_byte_len};

verus! {

/// Descriptive data of a session.
#[derive(Debug)]
pub struct SessionMetadata {
    pub description: String,
    pub tags: Vec<String>,
    /// Maximum lifetime in seconds; 0 means unlimited.
    pub max_lifetime: i64,
}

impl Default for SessionMetadata {
    fn default() -> (r: Self)
        ensures
            r.description@.len() == 0,
            r.tags@.len() == 0,
            r.max_lifetime == 0,
    {
        SessionMetadata { description: String::new(), tags: Vec::new(), max_lifetime: 0 }
    }
}

impl SessionMetadata {
    /// The space the metadata takes: the description, the tags, the lifetime.
    pub fn get_space(&self) -> (r: usize)
        requires
            4 + byte_len(self.description@) + 4 + strings_space(self.tags@) + 8 <= usize::MAX,
        ensures
            r == 4 + byte_len(self.description@) + 4 + strings_space(self.tags@) + 8,
    {
        let d = str_byte_len(&self.description);
        let t = strings_space_of(&self.tags);
        4 + d + 4 + t + 8
    }
}

/// A key-value pair stored for a session.
#[derive(Debug)]
pub struct SessionData {
    /// Session the data belongs to.
    pub session: Pubkey,
    pub key: String,
    pub value: Vec<u8>,
    pub created_at: i64,
    pub last_updated: i64,
    /// PDA bump seed.
    pub bump: u8,
}

impl SessionData {
    /// The account space for a key of `key_len` bytes and a value of at most `max_value_len` bytes.
    pub fn get_space(key_len: usize, max_value_len: usize) -> (r: usize)
        requires
            65 + key_len + max_value_len <= usize::MAX,
        ensures
            r == 65 + key_len + max_value_len,
    {
        8 + 32 + 4 + key_len + 4 + max_value_len + 8 + 8 + 1
    }
}

/// Configuration of a session for templates and reservations.
#[derive(Debug, Clone, Copy)]
pub struct SessionConfiguration {
    /// Maximum session duration in seconds.
    pub max_duration: u64,
    pub permissions: SessionPermissions,
    pub settings: SessionSettings,
}

impl Default for SessionConfiguration {
    fn default() -> (r: Self)
        ensures
            r.max_duration == 86400,
            r.permissions == default_permissions(),
            r.settings == default_settings(),
    {
        SessionConfiguration { max_duration: 86400, permissions: SessionPermissions::default(), settings: SessionSettings::default() }
    }
}

/// What a session may do.
#[derive(Debug, Clone, Copy, PartialEq, Eq, Structural)]
pub struct SessionPermissions {
    pub can_execute_functions: bool,
    pub can_compose_functions: bool,
    pub can_read_cross_session: bool,
    pub can_write_cross_session: bool,
}

/// The default permissions: execute and compose functions, nothing across sessions.
pub open spec fn default_permissions() -> SessionPermissions {
    SessionPermissions { can_execute_functions: true, can_compose_functions: true, can_read_cross_session: false, can_write_cross_session: false }
}

impl Default for SessionPermissions {
    fn default() -> (r: Self)
        ensures
            r == default_permissions(),
    {
        SessionPermissions { can_execute_functions: true, can_compose_functions: true, can_read_cross_session: false, can_write_cross_session: false }
    }
}

/// Session-specific settings.
#[derive(Debug, Clone, Copy, PartialEq, Eq, Structural)]
pub struct SessionSettings {
    /// Expire the session after its maximum duration.
    pub auto_expire: bool,
    pub enable_logging: bool,
    pub enable_monitoring: bool,
}

/// The default settings: auto-expire, no logging, no monitoring.
pub open spec fn default_settings() -> SessionSettings {
    SessionSettings { auto_expire: true, enable_logging: false, enable_monitoring: false }
}

impl Default for SessionSettings {
    fn default() -> (r: Self)
        ensures
            r == default_settings(),
    {
        SessionSettings { auto_expire: true, enable_logging: false, enable_monitoring: false }
    }
}

/// The in-memory size of a session configuration.
pub open spec fn config_size() -> nat {
    vstd::layout::size_of::<SessionConfiguration>()
}

/// A template for creating sessions with a predefined configuration.
#[derive(Debug)]
pub struct SessionTemplate {
    pub template_id: String,
    pub name: String,
    pub default_eval_program: Pubkey,
    pub default_namespaces: Vec<String>,
    pub default_capabilities: Vec<String>,
    pub session_config: SessionConfiguration,
    pub is_active: bool,
    pub created_at: i64,
    pub updated_at: i64,
    pub created_by: Pubkey,
    /// PDA bump seed.
    pub bump: u8,
}

impl SessionTemplate {
    /// The account space of a template.
    pub fn get_space(template_id_len: usize, name_len: usize, namespaces: &Vec<String>, capabilities: &Vec<String>) -> (r: usize)
        requires
            8 + 4 + template_id_len + 4 + name_len + 32 + 4 + strings_space(namespaces@) + 4 + strings_space(capabilities@)
                + config_size() + 1 + 8 + 8 + 32 + 1 <= usize::MAX,
        ensures
            r == 8 + 4 + template_id_len + 4 + name_len + 32 + 4 + strings_space(namespaces@) + 4 + strings_space(capabilities@)
                + config_size() + 1 + 8 + 8 + 32 + 1,
    {
        let ns = strings_space_of(namespaces);
        let caps = strings_space_of(capabilities);
        let cfg = core::mem::size_of::<SessionConfiguration>();
        8 + 4 + template_id_len + 4 + name_len + 32 + 4 + ns + 4 + caps + cfg + 1 + 8 + 8 + 32 + 1
    }
}

/// A reservation for two-phase session creation.
#[derive(Debug)]
pub struct SessionReservation {
    pub reservation_id: String,
    pub session_id: String,
    /// Who made the reservation.
    pub reserved_by: Pubkey,
    /// The intended owner of the session.
    pub session_owner: Pubkey,
    /// Template to create the session from.
    pub template_id: Option<String>,
    /// Configuration to use where no template is given.
    pub session_config: Option<SessionConfiguration>,
    pub expires_at: i64,
    pub reserved_at: i64,
    pub is_used: bool,
    /// PDA bump seed.
    pub bump: u8,
}

/// The space the optional template id takes.
pub open spec fn template_space(template_id_len: Option<usize>) -> int {
    match template_id_len {
        Some(len) => 4 + len,
        None => 0,
    }
}

/// The reservation has expired at `t`.
pub open spec fn reservation_expired(r: SessionReservation, t: i64) -> bool {
    t > r.expires_at
}

/// The reservation can still be used at `t`.
pub open spec fn reservation_valid(r: SessionReservation, t: i64) -> bool {
    !r.is_used && !reservation_expired(r, t)
}

impl SessionReservation {
    /// The account space of a reservation.
    pub fn get_space(reservation_id_len: usize, session_id_len: usize, template_id_len: Option<usize>) -> (r: usize)
        requires
            8 + 4 + reservation_id_len + 4 + session_id_len + 32 + 32 + 1 + template_space(template_id_len) + 1 + config_size() + 8 + 8 + 1 + 1 <= usize::MAX,
        ensures
            r == 8 + 4 + reservation_id_len + 4 + session_id_len + 32 + 32 + 1 + template_space(template_id_len) + 1 + config_size() + 8 + 8 + 1 + 1,
    {
        let t: usize = match template_id_len {
            Some(len) => 4 + len,
            None => 0,
        };
        let cfg = core::mem::size_of::<SessionConfiguration>();
        8 + 4 + reservation_id_len + 4 + session_id_len + 32 + 32 + 1 + t + 1 + cfg + 8 + 8 + 1 + 1
    }

    /// Whether the reservation has expired at `current_timestamp`.
    pub fn is_expired(&self, current_timestamp: i64) -> (r: bool)
        ensures
            r == reservation_expired(*self, current_timestamp),
    {
        current_timestamp > self.expires_at
    }

    /// Whether the reservation can still be used at `current_timestamp`.
    pub fn is_valid(&self, current_timestamp: i64) -> (r: bool)
        ensures
            r == reservation_valid(*self, current_timestamp),
    {
        !self.is_used && !self.is_expired(current_timestamp)
    }
}

/// The account of a session.
#[derive(Debug)]
pub struct SessionState {
    pub owner: Pubkey,
    /// Eval program that may execute capabilities.
    pub eval_program: Pubkey,
    pub session_id: String,
    /// Namespaces the session may access.
    pub namespaces: Vec<String>,
    pub is_active: bool,
    pub metadata: SessionMetadata,
    pub total_executions: u64,
    pub created_at: i64,
    pub last_activity: i64,
    /// PDA bump seed.
    pub bump: u8,
}

impl SessionState {
    /// The account space of a session.
    pub fn get_space(session_id_len: usize, namespaces: &Vec<String>, metadata: &SessionMetadata) -> (r: usize)
        requires
            8 + 32 + 32 + 4 + session_id_len + 4 + strings_space(namespaces@) + 1
                + (4 + byte_len(metadata.description@) + 4 + strings_space(metadata.tags@) + 8) + 8 + 8 + 8 + 1 <= usize::MAX,
        ensures
            r == 8 + 32 + 32 + 4 + session_id_len + 4 + strings_space(namespaces@) + 1
                + (4 + byte_len(metadata.description@) + 4 + strings_space(metadata.tags@) + 8) + 8 + 8 + 8 + 1,
    {
        let ns = strings_space_of(namespaces);
        let m = metadata.get_space();
        8 + 32 + 32 + 4 + session_id_len + 4 + ns + 1 + m + 8 + 8 + 8 + 1
    }
}

} // verus!
