//! Namespace capabilities that bound which objects a function may change,
//! sealed by a SHA-256 digest, and the capability instructions of a shard.

use vstd::prelude::*;
use crate::error::ValenceError;
use crate::pubkey::Pubkey;
use crate::runtime::{sha256, hash_bytes};
use crate::text::{utf8, utf8_bytes, views, contains_string};
use crate::capabilities::eval_rules::{ShardState, EvalConfig, rules_outcome};
use crate::capabilities::ordering_rules::{PartialOrder, spec_consistent};
use crate::processor::execution_engine::ExecutionContext;

verus! {

broadcast use vstd::seq_lib::group_seq_properties;

/// An object a namespace may hold.
#[derive(Clone, Debug, PartialEq)]
pub struct ObjectId {
    pub id: [u8; 32],
    pub object_type: String,
}

/// A proposed change to an object.
#[derive(Debug)]
pub struct Diff {
    pub target_object: ObjectId,
    pub operation: String,
    pub data: Vec<u8>,
}

/// The input of a function.
#[derive(Debug)]
pub struct FunctionInput {
    pub data: Vec<u8>,
    pub version: String,
}

/// A capability that bounds the objects a function may change. It is
/// passed to functions, not stored.
#[derive(Debug)]
pub struct NamespaceCapability {
    pub namespace_id: String,
    pub accessible_objects: Vec<ObjectId>,
    /// Allowed object types; none listed allows every type.
    pub allowed_object_types: Vec<String>,
    pub max_objects_per_call: u32,
    /// The digest that seals the other fields.
    pub capability_hash: [u8; 32],
}

/// The abstract value of an object: its id and its type.
pub open spec fn object_view(o: ObjectId) -> (Seq<u8>, Seq<char>) {
    (o.id@, o.object_type@)
}

/// The abstract values of objects.
pub open spec fn objects_view(v: Seq<ObjectId>) -> Seq<(Seq<u8>, Seq<char>)> {
    v.map_values(|o: ObjectId| object_view(o))
}

/// The bytes of the objects: each id followed by its type's UTF-8.
pub open spec fn objects_bytes(objs: Seq<(Seq<u8>, Seq<char>)>) -> Seq<u8>
    decreases objs.len(),
{
    if objs.len() == 0 {
        seq![]
    } else {
        objects_bytes(objs.drop_last()) + objs.last().0 + utf8(objs.last().1)
    }
}

/// The UTF-8 of the strings, one after the other.
pub open spec fn strings_bytes(ts: Seq<Seq<char>>) -> Seq<u8>
    decreases ts.len(),
{
    if ts.len() == 0 {
        seq![]
    } else {
        strings_bytes(ts.drop_last()) + utf8(ts.last())
    }
}

/// The four little-endian bytes of a `u32`.
pub open spec fn le_bytes(m: u32) -> Seq<u8> {
    seq![(m % 256) as u8, ((m / 256) % 256) as u8, ((m / 65536) % 256) as u8, ((m / 16777216) % 256) as u8]
}

/// The bytes a capability's digest is taken of: the namespace, the
/// objects, the allowed types and the limit.
pub open spec fn capability_preimage(ns: Seq<char>, objs: Seq<(Seq<u8>, Seq<char>)>, types: Seq<Seq<char>>, max: u32) -> Seq<u8> {
    utf8(ns) + objects_bytes(objs) + strings_bytes(types) + le_bytes(max)
}

/// The digest a capability should carry.
pub open spec fn capability_digest(c: NamespaceCapability) -> Seq<u8> {
    sha256(capability_preimage(c.namespace_id@, objects_view(c.accessible_objects@), views(c.allowed_object_types@), c.max_objects_per_call))
}

/// The capability carries the digest of its contents: its integrity check passes.
pub open spec fn intact(c: NamespaceCapability) -> bool {
    c.capability_hash@ == capability_digest(c)
}

/// The object may be touched under the capability: it is accessible and
/// its type allowed.
pub open spec fn object_allowed(c: NamespaceCapability, o: (Seq<u8>, Seq<char>)) -> bool {
    &&& objects_view(c.accessible_objects@).contains(o)
    &&& (c.allowed_object_types@.len() == 0 || views(c.allowed_object_types@).contains(o.1)
    )
}

/// The targets of diffs.
pub open spec fn diff_targets(d: Seq<Diff>) -> Seq<(Seq<u8>, Seq<char>)> {
    d.map_values(|x: Diff| object_view(x.target_object))
}

/// The first index from `i` on of a target that is not accessible or whose
/// type is not allowed, or -1.
pub open spec fn first_bad_target(c: NamespaceCapability, ts: Seq<(Seq<u8>, Seq<char>)>, i: int) -> int
    decreases ts.len() - i,
{
    if i < 0 || i >= ts.len() {
        -1
    } else if !object_allowed(c, ts[i]) {
        i
    } else {
        first_bad_target(c, ts, i + 1)
    }
}

/// The outcome of checking diffs against the capability: too many, or the
/// first target that is not accessible, or whose type is not allowed.
pub open spec fn diffs_outcome(c: NamespaceCapability, ts: Seq<(Seq<u8>, Seq<char>)>) -> Result<(), ValenceError> {
    if ts.len() > c.max_objects_per_call {
        Err(ValenceError::NamespaceTooManyObjects)
    } else {
        let k = first_bad_target(c, ts, 0);
        if k < 0 {
            Ok(())
        } else if !objects_view(c.accessible_objects@).contains(ts[k]) {
            Err(ValenceError::NamespaceObjectNotInNamespace)
        } else {
            Err(ValenceError::NamespaceObjectTypeNotAllowed)
        }
    }
}

/// Some capability lets the object be touched.
pub open spec fn authorized_by_some(caps: Seq<NamespaceCapability>, o: (Seq<u8>, Seq<char>)) -> bool {
    exists|j: int| 0 <= j < caps.len() && object_allowed(#[trigger] caps[j], o)
}

/// The bytes of a 32-byte array.
pub fn array_bytes(a: &[u8; 32]) -> (r: Vec<u8>)
    ensures
        r@ == a@,
{
    let mut r: Vec<u8> = Vec::new();
    let mut i: usize = 0;
    while i < 32
        invariant
            i <= 32,
            r@ == a@.take(i as int),
        decreases 32 - i,
    {
        r.push(a[i]);
        assert(r@ =~= a@.take(i + 1));
        i += 1;
    }
    assert(a@.take(32) =~= a@);
    r
}

impl ObjectId {
    /// Whether two objects are equal field by field.
    pub fn same_as(&self, other: &ObjectId) -> (r: bool)
        ensures
            r == (object_view(*self) == object_view(*other)),
    {
        let mut i: usize = 0;
        while i < 32
            invariant
                i <= 32,
                forall|j: int| 0 <= j < i ==> self.id@[j] == other.id@[j],
            decreases 32 - i,
        {
            if self.id[i] != other.id[i] {
                return false;
            }
            i += 1;
        }
        assert(self.id@ =~= other.id@);
        self.object_type == other.object_type
    }
}

impl NamespaceCapability {
    /// A capability sealed with its digest.
    pub fn new(namespace_id: String, accessible_objects: Vec<ObjectId>, allowed_object_types: Vec<String>, max_objects_per_call: u32) -> (r: NamespaceCapability)
        ensures
            r.namespace_id == namespace_id,
            r.accessible_objects == accessible_objects,
            r.allowed_object_types == allowed_object_types,
            r.max_objects_per_call == max_objects_per_call,
            r.capability_hash@ == capability_digest(r),
    {
        let mut capability = NamespaceCapability {
            namespace_id,
            accessible_objects,
            allowed_object_types,
            max_objects_per_call,
            capability_hash: [0u8; 32],
        };
        capability.capability_hash = capability.calculate_hash();
        capability
    }

    /// The SHA-256 digest of the namespace, the objects, the allowed types
    /// and the limit.
    pub fn calculate_hash(&self) -> (r: [u8; 32])
        ensures
            r@ == capability_digest(*self),
    {
        let ghost objs = objects_view(self.accessible_objects@);
        let ghost types = views(self.allowed_object_types@);
        let mut data = utf8_bytes(&self.namespace_id);
        let mut i: usize = 0;
        while i < self.accessible_objects.len()
            invariant
                i <= self.accessible_objects.len(),
                objs == objects_view(self.accessible_objects@),
                data@ == utf8(self.namespace_id@) + objects_bytes(objs.take(i as int)),
            decreases self.accessible_objects.len() - i,
        {
            let obj = &self.accessible_objects[i];
            let mut id = array_bytes(&obj.id);
            data.append(&mut id);
            let mut t = utf8_bytes(&obj.object_type);
            data.append(&mut t);
            proof {
                assert(objs.take(i + 1).drop_last() =~= objs.take(i as int));
                assert(objs.take(i + 1).last() == object_view(*obj));
                assert(data@ =~= utf8(self.namespace_id@) + objects_bytes(objs.take(i + 1)));
            }
            i += 1;
        }
        assert(objs.take(objs.len() as int) =~= objs);
        let mut j: usize = 0;
        while j < self.allowed_object_types.len()
            invariant
                j <= self.allowed_object_types.len(),
                objs == objects_view(self.accessible_objects@),
                types == views(self.allowed_object_types@),
                data@ == utf8(self.namespace_id@) + objects_bytes(objs) + strings_bytes(types.take(j as int)),
            decreases self.allowed_object_types.len() - j,
        {
            let mut t = utf8_bytes(&self.allowed_object_types[j]);
            data.append(&mut t);
            proof {
                assert(types.take(j + 1).drop_last() =~= types.take(j as int));
                assert(types.take(j + 1).last() == self.allowed_object_types@[j as int]@);
                assert(data@ =~= utf8(self.namespace_id@) + objects_bytes(objs) + strings_bytes(types.take(j + 1)));
            }
            j += 1;
        }
        assert(types.take(types.len() as int) =~= types);
        let m = self.max_objects_per_call;
        data.push((m % 256) as u8);
        data.push(((m / 256) % 256) as u8);
        data.push(((m / 65536) % 256) as u8);
        data.push(((m / 16777216) % 256) as u8);
        assert(data@ =~= capability_preimage(self.namespace_id@, objs, types, m));
        hash_bytes(&data)
    }

    /// Whether the capability carries the digest of its fields.
    pub fn verify_integrity(&self) -> (r: bool)
        ensures
            r == intact(*self),
    {
        let expected = self.calculate_hash();
        let mut i: usize = 0;
        while i < 32
            invariant
                i <= 32,
                expected@ == capability_digest(*self),
                forall|j: int| 0 <= j < i ==> self.capability_hash@[j] == expected@[j],
            decreases 32 - i,
        {
            if self.capability_hash[i] != expected[i] {
                return false;
            }
            i += 1;
        }
        assert(self.capability_hash@ =~= expected@);
        true
    }

    /// Whether the object is accessible.
    pub fn can_access_object(&self, object_id: &ObjectId) -> (r: bool)
        ensures
            r == objects_view(self.accessible_objects@).contains(object_view(*object_id)),
    {
        let mut i: usize = 0;
        while i < self.accessible_objects.len()
            invariant
                i <= self.accessible_objects.len(),
                forall|j: int| 0 <= j < i ==> object_view(self.accessible_objects@[j]) != object_view(*object_id),
            decreases self.accessible_objects.len() - i,
        {
            if self.accessible_objects[i].same_as(object_id) {
                assert(objects_view(self.accessible_objects@)[i as int] == object_view(*object_id));
                return true;
            }
            i += 1;
        }
        proof {
            if objects_view(self.accessible_objects@).contains(object_view(*object_id)) {
                let k = choose|k: int| 0 <= k < objects_view(self.accessible_objects@).len() && objects_view(self.accessible_objects@)[k] == object_view(*object_id);
                assert(object_view(self.accessible_objects@[k]) == object_view(*object_id));
            }
        }
        false
    }

    /// Whether the object type is allowed: every type is where none is listed.
    pub fn is_object_type_allowed(&self, object_type: &String) -> (r: bool)
        ensures
            r == (self.allowed_object_types@.len() == 0 || views(self.allowed_object_types@).contains(object_type@)),
    {
        if self.allowed_object_types.len() == 0 {
            true
        } else {
            contains_string(&self.allowed_object_types, object_type)
        }
    }

    /// Checks that the diffs stay within the namespace: see `diffs_outcome`.
    pub fn validate_diffs(&self, proposed_diffs: &Vec<Diff>) -> (r: Result<(), ValenceError>)
        ensures
            r == diffs_outcome(*self, diff_targets(proposed_diffs@)),
    {
        let ghost ts = diff_targets(proposed_diffs@);
        if proposed_diffs.len() > self.max_objects_per_call as usize {
            return Err(ValenceError::NamespaceTooManyObjects);
        }
        let mut i: usize = 0;
        while i < proposed_diffs.len()
            invariant
                i <= proposed_diffs.len(),
                ts == diff_targets(proposed_diffs@),
                ts.len() <= self.max_objects_per_call,
                first_bad_target(*self, ts, 0) == first_bad_target(*self, ts, i as int),
            decreases proposed_diffs.len() - i,
        {
            let target = &proposed_diffs[i].target_object;
            assert(ts[i as int] == object_view(*target));
            if !self.can_access_object(target) {
                return Err(ValenceError::NamespaceObjectNotInNamespace);
            }
            if !self.is_object_type_allowed(&target.object_type) {
                return Err(ValenceError::NamespaceObjectTypeNotAllowed);
            }
            i += 1;
        }
        Ok(())
    }

    /// A sealed capability over some of this capability's objects, with its
    /// types and the limit lowered to the number of objects (as a `u32`);
    /// refused with `NamespaceObjectNotInNamespace` for an object this
    /// capability does not reach.
    pub fn create_sub_capability(&self, sub_namespace_id: String, restricted_objects: Vec<ObjectId>) -> (r: Result<NamespaceCapability, ValenceError>)
        ensures
            (forall|i: int| 0 <= i < restricted_objects@.len() ==> objects_view(self.accessible_objects@).contains(#[trigger] objects_view(restricted_objects@)[i]))
                ==> (r matches Ok(c)
                    && c.namespace_id == sub_namespace_id
                    && c.accessible_objects == restricted_objects
                    && views(c.allowed_object_types@) == views(self.allowed_object_types@)
                    && c.max_objects_per_call == (if self.max_objects_per_call <= (restricted_objects@.len() as u32) { self.max_objects_per_call } else { restricted_objects@.len() as u32 })
                    && (restricted_objects@.len() <= u32::MAX ==> c.max_objects_per_call as int
                        == if self.max_objects_per_call as int <= restricted_objects@.len() { self.max_objects_per_call as int } else { restricted_objects@.len() as int })
                    && intact(c)),
            !(forall|i: int| 0 <= i < restricted_objects@.len() ==> objects_view(self.accessible_objects@).contains(#[trigger] objects_view(restricted_objects@)[i]))
                ==> r == Err::<NamespaceCapability, ValenceError>(ValenceError::NamespaceObjectNotInNamespace),
    {
        let mut i: usize = 0;
        while i < restricted_objects.len()
            invariant
                i <= restricted_objects.len(),
                forall|j: int| 0 <= j < i ==> objects_view(self.accessible_objects@).contains(#[trigger] objects_view(restricted_objects@)[j]),
            decreases restricted_objects.len() - i,
        {
            if !self.can_access_object(&restricted_objects[i]) {
                assert(!objects_view(self.accessible_objects@).contains(objects_view(restricted_objects@)[i as int]));
                return Err(ValenceError::NamespaceObjectNotInNamespace);
            }
            i += 1;
        }
        let len = restricted_objects.len() as u32;
        let types = self.allowed_object_types.clone();
        assert(views(types@) =~= views(self.allowed_object_types@)) by {
            assert forall|k: int| 0 <= k < types@.len() implies types@[k] == self.allowed_object_types@[k] by {
                assert(cloned::<String>(self.allowed_object_types@[k], types@[k]));
            }
        }
        let max = if self.max_objects_per_call <= len { self.max_objects_per_call } else { len };
        Ok(NamespaceCapability::new(sub_namespace_id, restricted_objects, types, max))
    }
}

/// Sets up a shard with its evaluation rules.
pub fn initialize_shard(shard_state: &mut ShardState, authority: Pubkey, processor_program: Pubkey, bump: u8) -> (r: Result<(), ValenceError>)
    ensures
        r is Ok,
        final(shard_state).authority == authority,
        final(shard_state).processor_program == processor_program,
        !final(shard_state).is_paused,
        final(shard_state).total_executions == 0,
        final(shard_state).version == 1,
        final(shard_state).bump == bump,
        final(shard_state).eval_config.max_execution_time == 0,
        final(shard_state).eval_config.max_compute_units == 0,
        !final(shard_state).eval_config.record_execution,
        final(shard_state).eval_config.default_verification_functions@.len() == 0,
{
    shard_state.process_initialize(authority, processor_program, bump)
}

/// Executes a capability under the shard's rules, for the caller, with the
/// input and no compute limit.
pub fn execute_capability(shard_state: &mut ShardState, caller: Pubkey, capability_id: String, input_data: Vec<u8>) -> (r: Result<(), ValenceError>)
    ensures
        old(shard_state).is_paused ==> r == Err::<(), ValenceError>(ValenceError::SystemPaused),
        !old(shard_state).is_paused && (capability_id@.len() == 0 || input_data@.len() == 0) ==> r == Err::<(), ValenceError>(ValenceError::InvalidInput),
        !old(shard_state).is_paused && capability_id@.len() > 0 && input_data@.len() > 0 && old(shard_state).total_executions == u64::MAX
            ==> r == Err::<(), ValenceError>(ValenceError::ArithmeticOverflow),
        r is Err ==> *final(shard_state) == *old(shard_state),
        !old(shard_state).is_paused && capability_id@.len() > 0 && input_data@.len() > 0 && old(shard_state).total_executions < u64::MAX
            ==> r is Ok && *final(shard_state) == (ShardState { total_executions: (old(shard_state).total_executions + 1) as u64, ..*old(shard_state) }),
{
    let data = input_data.clone();
    assert(data@ =~= input_data@);
    let context = ExecutionContext::new(capability_id.clone(), caller, None).with_input_data(data);
    assert(context.compute_limit is None);
    match shard_state.process_execute_capability(capability_id, input_data, &context) {
        Ok(_) => Ok(()),
        Err(e) => Err(e),
    }
}

/// Replaces the shard's evaluation configuration.
pub fn update_eval_config(shard_state: &mut ShardState, new_config: EvalConfig) -> (r: Result<(), ValenceError>)
    ensures
        r is Ok,
        *final(shard_state) == (ShardState { eval_config: new_config, ..*old(shard_state) }),
{
    shard_state.update_eval_config(new_config)
}

/// Accepts ordering rules for the shard once they are consistent; refused
/// with `ConflictingConstraints` otherwise.
pub fn set_ordering_rules(partial_order: &PartialOrder) -> (r: Result<(), ValenceError>)
    ensures
        r is Ok <==> spec_consistent(partial_order.constraints@),
        r is Err ==> r == Err::<(), ValenceError>(ValenceError::ConflictingConstraints),
{
    partial_order.validate_consistency()
}

/// Checks a function's capability and its diffs: refused with
/// `NamespaceInvalidCapability` where the digest does not match, else as
/// `validate_diffs` refuses.
pub fn validate_namespace_scope(namespace_capability: &NamespaceCapability, _function_input: &FunctionInput, proposed_diffs: &Vec<Diff>) -> (r: Result<(), ValenceError>)
    ensures
        namespace_capability.capability_hash@ != capability_digest(*namespace_capability) ==> r == Err::<(), ValenceError>(ValenceError::NamespaceInvalidCapability),
        namespace_capability.capability_hash@ == capability_digest(*namespace_capability) ==> r == diffs_outcome(*namespace_capability, diff_targets(proposed_diffs@)),
{
    if !namespace_capability.verify_integrity() {
        return Err(ValenceError::NamespaceInvalidCapability);
    }
    namespace_capability.validate_diffs(proposed_diffs)
}

/// Whether the object may be touched under the capability; refused with
/// `NamespaceInvalidCapability` where the digest does not match.
pub fn check_object_access(namespace_capability: &NamespaceCapability, target_object: &ObjectId) -> (r: Result<bool, ValenceError>)
    ensures
        namespace_capability.capability_hash@ != capability_digest(*namespace_capability) ==> r == Err::<bool, ValenceError>(ValenceError::NamespaceInvalidCapability),
        namespace_capability.capability_hash@ == capability_digest(*namespace_capability) ==> r == Ok::<bool, ValenceError>(object_allowed(*namespace_capability, object_view(*target_object))),
{
    if !namespace_capability.verify_integrity() {
        return Err(ValenceError::NamespaceInvalidCapability);
    }
    let can_access = namespace_capability.can_access_object(target_object) && namespace_capability.is_object_type_allowed(&target_object.object_type);
    Ok(can_access)
}

/// Checks that each diff is allowed by at least one of the capabilities:
/// refused with `NamespaceInvalidCapability` where a digest does not match,
/// and with `NamespaceObjectNotInNamespace` for a diff none allows.
pub fn verify_capability_composition(capabilities: &Vec<NamespaceCapability>, proposed_diffs: &Vec<Diff>) -> (r: Result<(), ValenceError>)
    ensures
        (exists|j: int| 0 <= j < capabilities@.len() && (#[trigger] capabilities@[j]).capability_hash@ != capability_digest(capabilities@[j]))
            ==> r == Err::<(), ValenceError>(ValenceError::NamespaceInvalidCapability),
        (forall|j: int| 0 <= j < capabilities@.len() ==> (#[trigger] capabilities@[j]).capability_hash@ == capability_digest(capabilities@[j]))
            ==> (r is Ok <==> forall|i: int| 0 <= i < proposed_diffs@.len() ==> authorized_by_some(capabilities@, #[trigger] diff_targets(proposed_diffs@)[i])),
        r is Err ==> r == Err::<(), ValenceError>(ValenceError::NamespaceInvalidCapability) || r == Err::<(), ValenceError>(ValenceError::NamespaceObjectNotInNamespace),
{
    let mut k: usize = 0;
    while k < capabilities.len()
        invariant
            k <= capabilities.len(),
            forall|j: int| 0 <= j < k ==> (#[trigger] capabilities@[j]).capability_hash@ == capability_digest(capabilities@[j]),
        decreases capabilities.len() - k,
    {
        if !capabilities[k].verify_integrity() {
            return Err(ValenceError::NamespaceInvalidCapability);
        }
        k += 1;
    }
    let ghost ts = diff_targets(proposed_diffs@);
    let mut i: usize = 0;
    while i < proposed_diffs.len()
        invariant
            i <= proposed_diffs.len(),
            ts == diff_targets(proposed_diffs@),
            forall|j: int| 0 <= j < capabilities@.len() ==> (#[trigger] capabilities@[j]).capability_hash@ == capability_digest(capabilities@[j]),
            forall|m: int| 0 <= m < i ==> authorized_by_some(capabilities@, #[trigger] ts[m]),
        decreases proposed_diffs.len() - i,
    {
        let target = &proposed_diffs[i].target_object;
        assert(ts[i as int] == object_view(*target));
        let mut authorized = false;
        let mut j: usize = 0;
        while j < capabilities.len() && !authorized
            invariant
                j <= capabilities.len(),
                i < proposed_diffs@.len(),
                ts.len() == proposed_diffs@.len(),
                ts[i as int] == object_view(*target),
                authorized ==> authorized_by_some(capabilities@, ts[i as int]),
                !authorized ==> forall|m: int| 0 <= m < j ==> !object_allowed(#[trigger] capabilities@[m], ts[i as int]),
            decreases capabilities.len() - j + if authorized { 0int } else { 1int },
        {
            if capabilities[j].can_access_object(target) && capabilities[j].is_object_type_allowed(&target.object_type) {
                assert(object_allowed(capabilities@[j as int], ts[i as int]));
                authorized = true;
            } else {
                j += 1;
            }
        }
        if !authorized {
            assert(!authorized_by_some(capabilities@, ts[i as int]));
            return Err(ValenceError::NamespaceObjectNotInNamespace);
        }
        i += 1;
    }
    Ok(())
}

} // verus!
