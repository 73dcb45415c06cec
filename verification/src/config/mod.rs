//! The registry of default verification functions and its settings.

use vstd::prelude::*;
use crate::error::FrameworkError;
use crate::pubkey::Pubkey;
use crate::text::{owned, views, contains_string, push_unique};

verus! {

broadcast use vstd::seq_lib::group_seq_properties;

/// The hash of the default basic permission check: 32 bytes of 1.
pub fn default_basic_permission_hash() -> (r: [u8; 32])
    ensures
        r@ == filled(1),
{
    let r = [1u8; 32];
    assert(r@ =~= filled(1));
    r
}

/// The hash of the default system authorization check: 32 bytes of 2.
pub fn default_system_auth_hash() -> (r: [u8; 32])
    ensures
        r@ == filled(2),
{
    let r = [2u8; 32];
    assert(r@ =~= filled(2));
    r
}

/// The hash of the default block height check: 32 bytes of 3.
pub fn default_block_height_hash() -> (r: [u8; 32])
    ensures
        r@ == filled(3),
{
    let r = [3u8; 32];
    assert(r@ =~= filled(3));
    r
}

/// The hash of the default parameter constraint check: 32 bytes of 4.
pub fn default_parameter_constraint_hash() -> (r: [u8; 32])
    ensures
        r@ == filled(4),
{
    let r = [4u8; 32];
    assert(r@ =~= filled(4));
    r
}

/// The hash of the default session creation check: 32 bytes of 5.
pub fn default_session_creation_hash() -> (r: [u8; 32])
    ensures
        r@ == filled(5),
{
    let r = [5u8; 32];
    assert(r@ =~= filled(5));
    r
}

/// The settings of a verification registry.
#[derive(Clone, Copy, Debug, PartialEq, Eq, Structural)]
pub struct RegistrySettings {
    pub max_verifications: u32,
    pub require_verification: bool,
    /// In seconds.
    pub default_timeout: u64,
    pub allow_custom_verifications: bool,
}

/// The verification functions that are active by default.
#[derive(Debug)]
pub struct DefaultVerificationRegistry {
    pub authority: Pubkey,
    pub active_verifications: Vec<String>,
    pub version: u32,
    pub settings: RegistrySettings,
}

/// The configuration account.
#[derive(Debug)]
pub struct ConfigState {
    pub registry: DefaultVerificationRegistry,
    /// PDA bump seed.
    pub bump: u8,
}

/// The default settings: up to 100 functions, verification required, a
/// 30-second timeout, no custom functions.
pub open spec fn default_settings() -> RegistrySettings {
    RegistrySettings { max_verifications: 100, require_verification: true, default_timeout: 30, allow_custom_verifications: false }
}

/// The names of the default verification functions.
pub open spec fn default_verifications() -> Seq<Seq<char>> {
    seq!["basic_permission"@, "system_auth"@, "block_height"@, "parameter_constraint"@, "session_creation"@]
}

/// A 32-byte hash whose bytes are all `b`.
pub open spec fn filled(b: u8) -> Seq<u8> {
    Seq::new(32, |i: int| b)
}

/// The strings of `v` other than `x`, in order.
pub open spec fn without(v: Seq<Seq<char>>, x: Seq<char>) -> Seq<Seq<char>>
    decreases v.len(),
{
    if v.len() == 0 {
        seq![]
    } else if v.last() == x {
        without(v.drop_last(), x)
    } else {
        without(v.drop_last(), x).push(v.last())
    }
}

/// Without `x`, a list holds exactly its strings other than `x`.
proof fn lemma_without(v: Seq<Seq<char>>, x: Seq<char>, y: Seq<char>)
    ensures
        without(v, x).contains(y) <==> (v.contains(y) && y != x),
    decreases v.len(),
{
    if v.len() > 0 {
        let p = v.drop_last();
        lemma_without(p, x, y);
        if p.contains(y) {
            let j = choose|j: int| 0 <= j < p.len() && p[j] == y;
            assert(v[j] == y);
        }
        if v.contains(y) && !p.contains(y) {
            let j = choose|j: int| 0 <= j < v.len() && v[j] == y;
            if j < v.len() - 1 {
                assert(p[j] == y);
            }
            assert(v.last() == y);
        }
        let r = without(p, x);
        if v.last() != x {
            assert(r.push(v.last())[r.len() as int] == v.last());
            if r.push(v.last()).contains(y) && y != v.last() {
                let j = choose|j: int| 0 <= j < r.len() + 1 && r.push(v.last())[j] == y;
                assert(r[j] == y);
            }
            if r.contains(y) {
                let j = choose|j: int| 0 <= j < r.len() && r[j] == y;
                assert(r.push(v.last())[j] == y);
            }
        }
    }
}

/// Removing a function deactivates it and leaves every other function as
/// active as it was; adding one (where it is accepted) activates it, and
/// adding it again changes nothing.
pub proof fn lemma_registry_activation(active: Seq<Seq<char>>, x: Seq<char>)
    ensures
        !without(active, x).contains(x),
        forall|y: Seq<char>| y != x ==> (#[trigger] without(active, x).contains(y) <==> active.contains(y)),
        (if active.contains(x) { active } else { active.push(x) }).contains(x),
        active.contains(x) ==> (if active.contains(x) { active } else { active.push(x) }) == active,
{
    lemma_without(active, x, x);
    assert forall|y: Seq<char>| y != x implies (#[trigger] without(active, x).contains(y) <==> active.contains(y)) by {
        lemma_without(active, x, y);
    }
    if !active.contains(x) {
        assert(active.push(x)[active.len() as int] == x);
    }
}

impl Default for RegistrySettings {
    fn default() -> (r: Self)
        ensures
            r == default_settings(),
    {
        RegistrySettings { max_verifications: 100, require_verification: true, default_timeout: 30, allow_custom_verifications: false }
    }
}

impl DefaultVerificationRegistry {
    /// A registry at version 1 with the five default functions active and
    /// the default settings.
    pub fn new(authority: Pubkey) -> (r: DefaultVerificationRegistry)
        ensures
            r.authority == authority,
            views(r.active_verifications@) == default_verifications(),
            r.version == 1,
            r.settings == default_settings(),
    {
        let mut active: Vec<String> = Vec::new();
        active.push(owned("basic_permission"));
        active.push(owned("system_auth"));
        active.push(owned("block_height"));
        active.push(owned("parameter_constraint"));
        active.push(owned("session_creation"));
        assert(views(active@) =~= default_verifications());
        DefaultVerificationRegistry { authority, active_verifications: active, version: 1, settings: RegistrySettings::default() }
    }

    /// The hashes of the five default functions, in order.
    pub fn get_default_hashes() -> (r: Vec<[u8; 32]>)
        ensures
            r@.map_values(|h: [u8; 32]| h@) == seq![filled(1), filled(2), filled(3), filled(4), filled(5)],
    {
        let mut r: Vec<[u8; 32]> = Vec::new();
        let a = default_basic_permission_hash();
        let b = default_system_auth_hash();
        let c = default_block_height_hash();
        let d = default_parameter_constraint_hash();
        let e = default_session_creation_hash();
        r.push(a);
        r.push(b);
        r.push(c);
        r.push(d);
        r.push(e);
        assert(r@.map_values(|h: [u8; 32]| h@) =~= seq![filled(1), filled(2), filled(3), filled(4), filled(5)]);
        r
    }

    /// Activates a function, once; refused with `AccountNotEnoughKeys` once
    /// the list is full.
    pub fn add_verification(&mut self, verification_id: String) -> (r: Result<(), FrameworkError>)
        ensures
            old(self).active_verifications@.len() >= old(self).settings.max_verifications ==> r == Err::<(), FrameworkError>(FrameworkError::AccountNotEnoughKeys)
                && *final(self) == *old(self),
            old(self).active_verifications@.len() < old(self).settings.max_verifications ==> r is Ok
                && views(final(self).active_verifications@) == (if views(old(self).active_verifications@).contains(verification_id@) {
                    views(old(self).active_verifications@)
                } else {
                    views(old(self).active_verifications@).push(verification_id@)
                })
                && final(self).authority == old(self).authority && final(self).version == old(self).version && final(self).settings == old(self).settings,
    {
        if self.active_verifications.len() >= self.settings.max_verifications as usize {
            return Err(FrameworkError::AccountNotEnoughKeys);
        }
        push_unique(&mut self.active_verifications, &verification_id);
        Ok(())
    }

    /// Deactivates every occurrence of the function.
    pub fn remove_verification(&mut self, verification_id: &String) -> (r: Result<(), FrameworkError>)
        ensures
            r is Ok,
            views(final(self).active_verifications@) == without(views(old(self).active_verifications@), verification_id@),
            final(self).authority == old(self).authority && final(self).version == old(self).version && final(self).settings == old(self).settings,
    {
        let ghost v = views(self.active_verifications@);
        let mut kept: Vec<String> = Vec::new();
        let mut i: usize = 0;
        while i < self.active_verifications.len()
            invariant
                i <= self.active_verifications@.len(),
                v == views(self.active_verifications@),
                views(kept@) == without(v.take(i as int), verification_id@),
            decreases self.active_verifications@.len() - i,
        {
            assert(v.take(i + 1).drop_last() =~= v.take(i as int));
            assert(v.take(i + 1).last() == self.active_verifications@[i as int]@);
            if !(self.active_verifications[i] == *verification_id) {
                let ghost prev = kept@;
                kept.push(self.active_verifications[i].clone());
                assert(views(kept@) =~= views(prev).push(v[i as int]));
            }
            i += 1;
        }
        assert(v.take(v.len() as int) =~= v);
        self.active_verifications = kept;
        Ok(())
    }

    /// Whether the function is active.
    pub fn is_verification_active(&self, verification_id: &String) -> (r: bool)
        ensures
            r == views(self.active_verifications@).contains(verification_id@),
    {
        contains_string(&self.active_verifications, verification_id)
    }

    /// Replaces the settings and moves to the next version.
    pub fn update_settings(&mut self, settings: RegistrySettings) -> (r: Result<(), FrameworkError>)
        requires
            old(self).version < u32::MAX,
        ensures
            r is Ok,
            final(self).settings == settings,
            final(self).version == old(self).version + 1,
            final(self).authority == old(self).authority,
            final(self).active_verifications == old(self).active_verifications,
    {
        self.settings = settings;
        self.version = self.version + 1;
        Ok(())
    }
}

impl ConfigState {
    /// The account space of the configuration, with room for 20 function
    /// names of 50 bytes.
    pub fn get_space() -> (r: usize)
        ensures
            r == 8 + 32 + 4 + 50 * 20 + 4 + 4 + 1 + 8 + 1 + 1,
    {
        8 + 32 + 4 + (50 * 20) + 4 + 4 + 1 + 8 + 1 + 1
    }
}

} // verus!
