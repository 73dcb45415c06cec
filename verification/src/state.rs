//! The registry's accounts: the program state, library, ZK program and
//! dependency entries, version compatibility, and the addresses they live at.

use vstd::prelude::*;
use crate::error::FrameworkError;
use crate::pubkey::Pubkey;
use crate::runtime::{clock_get, clock_unix_timestamp, find_program_address, program_address};
use crate::text::{byte_len, str_byte_len, utf8, utf8_bytes, seq_lt, str_lt};

verus! {

/// The state every program of the protocol keeps.
#[derive(Clone, Copy, Debug)]
pub struct ProgramState {
    pub program_id: Pubkey,
    pub authority: Pubkey,
    pub version: u8,
    pub is_paused: bool,
    /// PDA bump seed.
    pub bump: u8,
    pub created_at: i64,
    pub last_updated: i64,
}

/// The fields every registry entry has.
#[derive(Debug)]
pub struct RegistryEntryBase {
    pub id: String,
    pub authority: Pubkey,
    pub created_at: i64,
    pub last_updated: i64,
    /// PDA bump seed.
    pub bump: u8,
}

/// The life cycle of an account: set up, closed, checked.
pub trait LifecycleManaged {
    fn initialize(&mut self, authority: Pubkey) -> Result<(), FrameworkError>;
    fn close(&mut self) -> Result<(), FrameworkError>;
    fn validate_state(&self) -> Result<(), FrameworkError>;
    fn version(&self) -> u8;
    fn bump(&self) -> u8;
}

/// The registry's account.
#[derive(Clone, Copy, Debug)]
pub struct RegistryState {
    pub base: ProgramState,
    pub total_libraries: u64,
    pub total_zk_programs: u64,
    pub total_dependencies: u64,
    pub registry_version: u16,
    pub _reserved: [u8; 32],
}

/// The state of a library.
#[derive(Clone, Copy, Debug, PartialEq, Eq, Structural)]
pub enum LibraryStatus {
    Draft,
    Published,
    Deprecated,
    Archived,
}

/// The state of a ZK program.
#[derive(Clone, Copy, Debug, PartialEq, Eq, Structural)]
pub enum ZkProgramStatus {
    Draft,
    Published,
    Verified,
    Deprecated,
    Archived,
}

/// The kind of a dependency.
#[derive(Clone, Copy, Debug, PartialEq, Eq, Structural)]
pub enum DependencyType {
    Runtime,
    Development,
    Optional,
    Peer,
}

/// A registered library.
#[derive(Debug)]
pub struct LibraryEntry {
    pub base: RegistryEntryBase,
    /// The registry the library belongs to.
    pub registry: Pubkey,
    pub name: String,
    pub version: String,
    pub author: Pubkey,
    pub metadata_hash: [u8; 32],
    pub program_id: Pubkey,
    pub status: LibraryStatus,
    pub dependencies: Vec<String>,
    pub tags: Vec<String>,
    pub is_verified: bool,
    pub usage_count: u64,
}

/// A registered ZK program.
#[derive(Debug)]
pub struct ZkProgramEntry {
    pub base: RegistryEntryBase,
    pub registry: Pubkey,
    pub name: String,
    pub version: String,
    pub author: Pubkey,
    pub verification_key: [u8; 64],
    pub metadata_hash: [u8; 32],
    pub status: ZkProgramStatus,
    pub is_verified: bool,
    pub constraints_count: u64,
    pub proofs_verified: u64,
}

/// A dependency of one library on another.
#[derive(Debug)]
pub struct DependencyEntry {
    pub base: RegistryEntryBase,
    pub dependent_library: String,
    pub dependency_library: String,
    /// A semver-like requirement.
    pub version_requirement: String,
    pub is_optional: bool,
    pub dependency_type: DependencyType,
}

/// The versions a library is compatible with.
#[derive(Debug)]
pub struct VersionCompatibility {
    pub min_version: String,
    pub max_version: String,
    pub breaking_change: bool,
}

/// The bytes of `"library"`.
pub open spec fn library_seed() -> Seq<u8> {
    seq![108u8, 105u8, 98u8, 114u8, 97u8, 114u8, 121u8]
}

/// The bytes of `"zk_program"`.
pub open spec fn zk_program_seed() -> Seq<u8> {
    seq![122u8, 107u8, 95u8, 112u8, 114u8, 111u8, 103u8, 114u8, 97u8, 109u8]
}

/// The bytes of `"dependency"`.
pub open spec fn dependency_seed() -> Seq<u8> {
    seq![100u8, 101u8, 112u8, 101u8, 110u8, 100u8, 101u8, 110u8, 99u8, 121u8]
}

/// The id of a dependency: the two library ids joined by `::`.
pub open spec fn dependency_id(dependent: Seq<char>, dependency: Seq<char>) -> Seq<char> {
    dependent + "::"@ + dependency
}

/// The program address for a tag, the registry and an id.
fn registry_address(tag: Vec<u8>, registry: &Pubkey, id: &String, program_id: &Pubkey) -> (r: (Pubkey, u8))
    requires
        tag@.len() <= 32,
        byte_len(id@) <= 32,
    ensures
        (r.0.bytes@, r.1) == program_address(seq![tag@, registry.bytes@, utf8(id@)], program_id.bytes@),
{
    let ghost t = tag@;
    let mut seeds: Vec<Vec<u8>> = Vec::new();
    seeds.push(tag);
    seeds.push(registry.to_bytes_vec());
    seeds.push(utf8_bytes(id));
    proof {
        assert(seeds.deep_view()[0] =~= seeds@[0]@);
        assert(seeds.deep_view()[1] =~= seeds@[1]@);
        assert(seeds.deep_view()[2] =~= seeds@[2]@);
        assert(seeds.deep_view() =~= seq![t, registry.bytes@, utf8(id@)]);
    }
    find_program_address(&seeds, program_id)
}

impl ProgramState {
    /// The serialized size of a program state.
    pub const SIZE: usize = 32 + 32 + 1 + 1 + 1 + 8 + 8;

    /// A program state at version 1, unpaused, stamped with the clock's
    /// time (0 where the clock cannot be read).
    pub fn new(program_id: Pubkey, authority: Pubkey, bump: u8) -> (r: ProgramState)
        ensures
            r.program_id == program_id,
            r.authority == authority,
            r.version == 1,
            !r.is_paused,
            r.bump == bump,
            r.created_at == r.last_updated,
    {
        let now = clock_unix_timestamp();
        ProgramState { program_id, authority, version: 1, is_paused: false, bump, created_at: now, last_updated: now }
    }

    /// Sets the authority; version 1, unpaused.
    pub fn initialize(&mut self, authority: Pubkey) -> (r: Result<(), FrameworkError>)
        ensures
            r is Ok,
            *final(self) == (ProgramState { authority, version: 1, is_paused: false, ..*old(self) }),
    {
        self.authority = authority;
        self.version = 1;
        self.is_paused = false;
        Ok(())
    }

    /// Pauses the program.
    pub fn close(&mut self) -> (r: Result<(), FrameworkError>)
        ensures
            r is Ok,
            *final(self) == (ProgramState { is_paused: true, ..*old(self) }),
    {
        self.is_paused = true;
        Ok(())
    }

    /// Refuses a state of version 0 as not initialized.
    pub fn validate_state(&self) -> (r: Result<(), FrameworkError>)
        ensures
            self.version > 0 ==> r is Ok,
            self.version == 0 ==> r == Err::<(), FrameworkError>(FrameworkError::AccountNotInitialized),
    {
        if self.version > 0 {
            Ok(())
        } else {
            Err(FrameworkError::AccountNotInitialized)
        }
    }
}

impl RegistryEntryBase {
    /// The serialized size of an entry base with an id of `id_len` bytes.
    pub fn get_space(id_len: usize) -> (r: usize)
        requires
            id_len + 53 <= usize::MAX,
        ensures
            r == 4 + id_len + 32 + 8 + 8 + 1,
    {
        4 + id_len + 32 + 8 + 8 + 1
    }

    /// An entry stamped with the clock's time (0 where the clock cannot be read).
    pub fn new(id: String, authority: Pubkey, bump: u8) -> (r: RegistryEntryBase)
        ensures
            r.id == id,
            r.authority == authority,
            r.bump == bump,
            r.created_at == r.last_updated,
    {
        let now = clock_unix_timestamp();
        RegistryEntryBase { id, authority, created_at: now, last_updated: now, bump }
    }
}

impl RegistryState {
    /// The account space of the registry.
    pub const SIZE: usize = 8 + ProgramState::SIZE + 8 + 8 + 8 + 2 + 32;

    /// An empty registry at version 1.
    pub fn new(program_id: Pubkey, authority: Pubkey, bump: u8) -> (r: RegistryState)
        ensures
            r.base.program_id == program_id,
            r.base.authority == authority,
            r.base.version == 1,
            !r.base.is_paused,
            r.base.bump == bump,
            r.total_libraries == 0,
            r.total_zk_programs == 0,
            r.total_dependencies == 0,
            r.registry_version == 1,
            r._reserved@ == Seq::new(32, |i: int| 0u8),
    {
        let r = RegistryState {
            base: ProgramState::new(program_id, authority, bump),
            total_libraries: 0,
            total_zk_programs: 0,
            total_dependencies: 0,
            registry_version: 1,
            _reserved: [0u8; 32],
        };
        assert(r._reserved@ =~= Seq::new(32, |i: int| 0u8));
        r
    }

    /// The registry runs: it is not paused and has a version.
    pub fn is_operational(&self) -> (r: bool)
        ensures
            r == (!self.base.is_paused && self.base.version > 0),
    {
        !self.base.is_paused && self.base.version > 0
    }
}

impl LifecycleManaged for RegistryState {
    fn initialize(&mut self, authority: Pubkey) -> (r: Result<(), FrameworkError>)
        ensures
            r is Ok,
            *final(self) == (RegistryState { base: ProgramState { authority, version: 1, is_paused: false, ..old(self).base }, ..*old(self) }),
    {
        self.base.initialize(authority)
    }

    fn close(&mut self) -> (r: Result<(), FrameworkError>)
        ensures
            r is Ok,
            *final(self) == (RegistryState { base: ProgramState { is_paused: true, ..old(self).base }, ..*old(self) }),
    {
        self.base.close()
    }

    fn validate_state(&self) -> (r: Result<(), FrameworkError>)
        ensures
            self.base.version > 0 && self.registry_version > 0 ==> r is Ok,
            !(self.base.version > 0 && self.registry_version > 0) ==> r == Err::<(), FrameworkError>(FrameworkError::AccountNotInitialized),
    {
        match self.base.validate_state() {
            Ok(()) => {}
            Err(e) => { return Err(e); }
        }
        if self.registry_version > 0 {
            Ok(())
        } else {
            Err(FrameworkError::AccountNotInitialized)
        }
    }

    fn version(&self) -> (r: u8)
        ensures
            r == self.base.version,
    {
        self.base.version
    }

    fn bump(&self) -> (r: u8)
        ensures
            r == self.base.bump,
    {
        self.base.bump
    }
}

impl LibraryEntry {
    /// The account space of a library entry, with 32 bytes estimated per
    /// dependency and 16 per tag.
    pub fn get_space(library_id: &String, name: &String, version: &String, dependencies_count: usize, tags_count: usize) -> (r: usize)
        requires
            8 + (4 + byte_len(library_id@) + 49) + 32 + 4 + byte_len(name@) + 4 + byte_len(version@) + 32 + 32 + 32 + 1
                + 4 + dependencies_count * 32 + 4 + tags_count * 16 + 8 + 8 <= usize::MAX,
        ensures
            r == 8 + (4 + byte_len(library_id@) + 49) + 32 + 4 + byte_len(name@) + 4 + byte_len(version@) + 32 + 32 + 32 + 1
                + 4 + dependencies_count * 32 + 4 + tags_count * 16 + 8 + 8,
    {
        let base = RegistryEntryBase::get_space(str_byte_len(library_id));
        8 + base + 32 + 4 + str_byte_len(name) + 4 + str_byte_len(version) + 32 + 32 + 32 + 1
            + 4 + dependencies_count * 32 + 4 + tags_count * 16 + 8 + 8
    }

    /// Counts one use (saturating) at time `now`.
    pub fn record_usage_at(&mut self, now: i64)
        ensures
            final(self).usage_count == (if old(self).usage_count == u64::MAX { u64::MAX } else { (old(self).usage_count + 1) as u64 }),
            final(self).base.last_updated == now,
            final(self).base.id == old(self).base.id,
            final(self).base.created_at == old(self).base.created_at,
            final(self).status == old(self).status,
            final(self).name == old(self).name,
            final(self).version == old(self).version,
    {
        self.usage_count = self.usage_count.saturating_add(1);
        self.base.last_updated = now;
    }

    /// Counts one use at the clock's time; refused with `UnsupportedSysvar`,
    /// the entry untouched, where the clock cannot be read.
    pub fn record_usage(&mut self) -> (r: Result<(), FrameworkError>)
        ensures
            r is Err ==> r == Err::<(), FrameworkError>(FrameworkError::UnsupportedSysvar) && *final(self) == *old(self),
            r is Ok ==> final(self).usage_count == (if old(self).usage_count == u64::MAX { u64::MAX } else { (old(self).usage_count + 1) as u64 }),
    {
        match clock_get() {
            Some(c) => {
                self.record_usage_at(c.unix_timestamp);
                Ok(())
            }
            None => Err(FrameworkError::UnsupportedSysvar),
        }
    }
}

impl ZkProgramEntry {
    /// The account space of a ZK program entry.
    pub fn get_space(program_id: &String, name: &String, version: &String) -> (r: usize)
        requires
            8 + (4 + byte_len(program_id@) + 49) + 32 + 4 + byte_len(name@) + 4 + byte_len(version@) + 32 + 64 + 32 + 1 + 8 + 8 + 8 <= usize::MAX,
        ensures
            r == 8 + (4 + byte_len(program_id@) + 49) + 32 + 4 + byte_len(name@) + 4 + byte_len(version@) + 32 + 64 + 32 + 1 + 8 + 8 + 8,
    {
        let base = RegistryEntryBase::get_space(str_byte_len(program_id));
        8 + base + 32 + 4 + str_byte_len(name) + 4 + str_byte_len(version) + 32 + 64 + 32 + 1 + 8 + 8 + 8
    }

    /// Counts one verified proof (saturating) at time `now`.
    pub fn record_proof_verification_at(&mut self, now: i64)
        ensures
            final(self).proofs_verified == (if old(self).proofs_verified == u64::MAX { u64::MAX } else { (old(self).proofs_verified + 1) as u64 }),
            final(self).base.last_updated == now,
            final(self).base.id == old(self).base.id,
            final(self).base.created_at == old(self).base.created_at,
            final(self).status == old(self).status,
            final(self).constraints_count == old(self).constraints_count,
    {
        self.proofs_verified = self.proofs_verified.saturating_add(1);
        self.base.last_updated = now;
    }

    /// Counts one verified proof at the clock's time; refused with
    /// `UnsupportedSysvar`, the entry untouched, where the clock cannot be read.
    pub fn record_proof_verification(&mut self) -> (r: Result<(), FrameworkError>)
        ensures
            r is Err ==> r == Err::<(), FrameworkError>(FrameworkError::UnsupportedSysvar) && *final(self) == *old(self),
            r is Ok ==> final(self).proofs_verified == (if old(self).proofs_verified == u64::MAX { u64::MAX } else { (old(self).proofs_verified + 1) as u64 }),
    {
        match clock_get() {
            Some(c) => {
                self.record_proof_verification_at(c.unix_timestamp);
                Ok(())
            }
            None => Err(FrameworkError::UnsupportedSysvar),
        }
    }
}

impl DependencyEntry {
    /// The account space of a dependency entry.
    pub fn get_space(dependency_id: &String, dependent_library: &String, dependency_library: &String, version_requirement: &String) -> (r: usize)
        requires
            8 + (4 + byte_len(dependency_id@) + 49) + 4 + byte_len(dependent_library@) + 4 + byte_len(dependency_library@)
                + 4 + byte_len(version_requirement@) + 8 + 1 <= usize::MAX,
        ensures
            r == 8 + (4 + byte_len(dependency_id@) + 49) + 4 + byte_len(dependent_library@) + 4 + byte_len(dependency_library@)
                + 4 + byte_len(version_requirement@) + 8 + 1,
    {
        let base = RegistryEntryBase::get_space(str_byte_len(dependency_id));
        8 + base + 4 + str_byte_len(dependent_library) + 4 + str_byte_len(dependency_library) + 4 + str_byte_len(version_requirement) + 8 + 1
    }
}

impl Default for LibraryStatus {
    fn default() -> (r: Self)
        ensures
            r == LibraryStatus::Draft,
    {
        LibraryStatus::Draft
    }
}

impl Default for ZkProgramStatus {
    fn default() -> (r: Self)
        ensures
            r == ZkProgramStatus::Draft,
    {
        ZkProgramStatus::Draft
    }
}

impl Default for DependencyType {
    fn default() -> (r: Self)
        ensures
            r == DependencyType::Runtime,
    {
        DependencyType::Runtime
    }
}

impl VersionCompatibility {
    /// The range from `min_version` to `max_version`.
    pub fn new(min_version: String, max_version: String, breaking_change: bool) -> (r: VersionCompatibility)
        ensures
            r == (VersionCompatibility { min_version, max_version, breaking_change }),
    {
        VersionCompatibility { min_version, max_version, breaking_change }
    }

    /// Whether the version lies between the bounds, both included, in the
    /// lexicographic order of strings.
    pub fn is_compatible(&self, version: &String) -> (r: bool)
        ensures
            r == (!seq_lt(version@, self.min_version@) && !seq_lt(self.max_version@, version@)),
    {
        !str_lt(version, &self.min_version) && !str_lt(&self.max_version, version)
    }
}

/// The address of a library entry: derived from `"library"`, the registry
/// and the library id, which must be at most 32 bytes.
pub fn get_library_pda(registry: &Pubkey, library_id: &String, program_id: &Pubkey) -> (r: (Pubkey, u8))
    requires
        byte_len(library_id@) <= 32,
    ensures
        (r.0.bytes@, r.1) == program_address(seq![library_seed(), registry.bytes@, utf8(library_id@)], program_id.bytes@),
{
    let tag: Vec<u8> = vec![108u8, 105, 98, 114, 97, 114, 121];
    assert(tag@ =~= library_seed());
    registry_address(tag, registry, library_id, program_id)
}

/// The address of a ZK program entry: derived from `"zk_program"`, the
/// registry and the program id, which must be at most 32 bytes.
pub fn get_zk_program_pda(registry: &Pubkey, program_id: &String, program_id_key: &Pubkey) -> (r: (Pubkey, u8))
    requires
        byte_len(program_id@) <= 32,
    ensures
        (r.0.bytes@, r.1) == program_address(seq![zk_program_seed(), registry.bytes@, utf8(program_id@)], program_id_key.bytes@),
{
    let tag: Vec<u8> = vec![122u8, 107, 95, 112, 114, 111, 103, 114, 97, 109];
    assert(tag@ =~= zk_program_seed());
    registry_address(tag, registry, program_id, program_id_key)
}

/// The address of a dependency entry: derived from `"dependency"`, the
/// registry and the two library ids joined by `::`, which must be at most
/// 32 bytes together.
pub fn get_dependency_pda(registry: &Pubkey, dependent_library: &String, dependency_library: &String, program_id: &Pubkey) -> (r: (Pubkey, u8))
    requires
        byte_len(dependency_id(dependent_library@, dependency_library@)) <= 32,
    ensures
        (r.0.bytes@, r.1) == program_address(seq![dependency_seed(), registry.bytes@, utf8(dependency_id(dependent_library@, dependency_library@))], program_id.bytes@),
{
    let mut id = dependent_library.clone();
    id.append("::");
    id.append(dependency_library.as_str());
    let tag: Vec<u8> = vec![100u8, 101, 112, 101, 110, 100, 101, 110, 99, 121];
    assert(tag@ =~= dependency_seed());
    registry_address(tag, registry, &id, program_id)
}

} // verus!
