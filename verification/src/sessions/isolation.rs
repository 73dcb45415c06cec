//! Session isolation through namespace capabilities: which objects a
//! session may reach, and which diffs and operations it may make.

use vstd::prelude::*;
use crate::error::ValenceError;
use crate::pubkey::{Pubkey, zero_bytes};
use crate::sessions::state::SessionConfiguration;
use crate::text::{owned, views};

verus! {

broadcast use vstd::seq_lib::group_seq_properties;

/// The identifier of an object that diffs change.
#[derive(Clone, Debug, PartialEq)]
pub struct ObjectId {
    pub hash: [u8; 32],
    pub object_type: String,
    pub namespace: Option<String>,
}

/// A key-value metadata entry.
#[derive(Clone, Debug)]
pub struct MetadataEntry {
    pub key: String,
    pub value: String,
}

/// A change to an object.
#[derive(Debug)]
pub struct Diff {
    pub content_hash: [u8; 32],
    pub target_object: ObjectId,
    pub operation_type: String,
    pub data: Vec<u8>,
    pub timestamp: i64,
    pub creator: Pubkey,
    pub dependencies: Vec<[u8; 32]>,
    pub metadata: Vec<MetadataEntry>,
}

/// What a session may reach in one namespace.
#[derive(Debug)]
pub struct NamespaceCapability {
    pub namespace_id: String,
    pub accessible_objects: Vec<ObjectId>,
    /// The object types allowed; none listed allows every type.
    pub allowed_object_types: Vec<String>,
    pub max_objects_per_call: u32,
    pub capability_hash: [u8; 32],
}

/// The isolation settings of a session.
#[derive(Debug)]
pub struct SessionIsolationConfig {
    pub namespace_capabilities: Vec<NamespaceCapability>,
    pub max_diffs_per_tx: u32,
    pub max_diff_size_bytes: u64,
    pub allow_cross_session: bool,
}

/// The input of a function: its diffs and parameters.
#[derive(Debug)]
pub struct FunctionInput {
    pub diffs: Vec<Diff>,
    pub parameters: Vec<u8>,
}

/// Validates diffs and object access against a session's isolation.
pub struct SessionIsolationValidator;

/// Builds a session's namespace capabilities and checks its operations.
pub struct SessionNamespaceIntegration;

/// Enforces session boundaries on function execution and composition.
pub struct SessionBoundaryEnforcer;

/// The abstract value of an object identifier.
pub struct ObjectView {
    pub hash: Seq<u8>,
    pub object_type: Seq<char>,
    pub namespace: Option<Seq<char>>,
}

/// The abstract value of an object identifier.
pub open spec fn object_view(o: ObjectId) -> ObjectView {
    ObjectView {
        hash: o.hash@,
        object_type: o.object_type@,
        namespace: match o.namespace {
            Some(n) => Some(n@),
            None => None,
        },
    }
}

/// The abstract values of object identifiers.
pub open spec fn objects_view(v: Seq<ObjectId>) -> Seq<ObjectView> {
    v.map_values(|o: ObjectId| object_view(o))
}

/// The abstract value of a namespace capability.
pub struct CapabilityView {
    pub namespace_id: Seq<char>,
    pub objects: Seq<ObjectView>,
    pub types: Seq<Seq<char>>,
    pub max_objects_per_call: u32,
    pub hash: Seq<u8>,
}

/// The abstract value of a namespace capability.
pub open spec fn capability_view(c: NamespaceCapability) -> CapabilityView {
    CapabilityView {
        namespace_id: c.namespace_id@,
        objects: objects_view(c.accessible_objects@),
        types: views(c.allowed_object_types@),
        max_objects_per_call: c.max_objects_per_call,
        hash: c.capability_hash@,
    }
}

/// The namespace an object belongs to: its own, or `default`.
pub open spec fn object_namespace(o: ObjectView) -> Seq<char> {
    match o.namespace {
        Some(n) => n,
        None => "default"@,
    }
}

/// The objects of the namespace `ns`, in order.
pub open spec fn objects_in(objs: Seq<ObjectView>, ns: Seq<char>) -> Seq<ObjectView>
    decreases objs.len(),
{
    if objs.len() == 0 {
        seq![]
    } else if object_namespace(objs.last()) == ns {
        objects_in(objs.drop_last(), ns).push(objs.last())
    } else {
        objects_in(objs.drop_last(), ns)
    }
}

/// The objects of `a` that `b` holds too, in order.
pub open spec fn common_objects(a: Seq<ObjectView>, b: Seq<ObjectView>) -> Seq<ObjectView>
    decreases a.len(),
{
    if a.len() == 0 {
        seq![]
    } else if b.contains(a.last()) {
        common_objects(a.drop_last(), b).push(a.last())
    } else {
        common_objects(a.drop_last(), b)
    }
}

/// The capability of a session in one namespace.
pub open spec fn session_capability(session_id: Seq<char>, objs: Seq<ObjectView>, ns: Seq<char>, max: u32) -> CapabilityView {
    CapabilityView {
        namespace_id: session_id + ":"@ + ns,
        objects: objects_in(objs, ns),
        types: seq![],
        max_objects_per_call: max,
        hash: zero_bytes(),
    }
}

/// The operations a session may make on an object it can reach.
pub open spec fn operation_allowed(op: Seq<char>) -> bool {
    op == "read"@ || op == "query"@ || op == "write"@ || op == "update"@
}

/// A copy of the bytes of a 32-byte array.
pub fn copy_hash(h: &[u8; 32]) -> (r: [u8; 32])
    ensures
        r@ == h@,
{
    *h
}

/// An object is common to `a` and `b` exactly when both hold it.
proof fn lemma_common_objects(a: Seq<ObjectView>, b: Seq<ObjectView>, o: ObjectView)
    ensures
        common_objects(a, b).contains(o) <==> (a.contains(o) && b.contains(o)),
    decreases a.len(),
{
    if a.len() > 0 {
        let p = a.drop_last();
        lemma_common_objects(p, b, o);
        if p.contains(o) {
            let j = choose|j: int| 0 <= j < p.len() && p[j] == o;
            assert(a[j] == o);
        }
        if a.contains(o) && !p.contains(o) {
            let j = choose|j: int| 0 <= j < a.len() && a[j] == o;
            if j < a.len() - 1 {
                assert(p[j] == o);
            }
            assert(a.last() == o);
        }
        let r = common_objects(p, b);
        if b.contains(a.last()) {
            assert(r.push(a.last())[r.len() as int] == a.last());
            if r.push(a.last()).contains(o) && o != a.last() {
                let j = choose|j: int| 0 <= j < r.len() + 1 && r.push(a.last())[j] == o;
                assert(r[j] == o);
            }
            if r.contains(o) {
                let j = choose|j: int| 0 <= j < r.len() && r[j] == o;
                assert(r.push(a.last())[j] == o);
            }
        }
    }
}

/// An object is among the objects of namespace `ns` exactly when it is one
/// of the objects and belongs to `ns`.
proof fn lemma_objects_in(objs: Seq<ObjectView>, ns: Seq<char>, o: ObjectView)
    ensures
        objects_in(objs, ns).contains(o) <==> (objs.contains(o) && object_namespace(o) == ns),
    decreases objs.len(),
{
    if objs.len() > 0 {
        let p = objs.drop_last();
        lemma_objects_in(p, ns, o);
        if p.contains(o) {
            let j = choose|j: int| 0 <= j < p.len() && p[j] == o;
            assert(objs[j] == o);
        }
        if objs.contains(o) && !p.contains(o) {
            let j = choose|j: int| 0 <= j < objs.len() && objs[j] == o;
            if j < objs.len() - 1 {
                assert(p[j] == o);
            }
            assert(objs.last() == o);
        }
        let r = objects_in(p, ns);
        if object_namespace(objs.last()) == ns {
            assert(r.push(objs.last())[r.len() as int] == objs.last());
            if r.push(objs.last()).contains(o) && o != objs.last() {
                let j = choose|j: int| 0 <= j < r.len() + 1 && r.push(objs.last())[j] == o;
                assert(r[j] == o);
            }
            if r.contains(o) {
                let j = choose|j: int| 0 <= j < r.len() && r[j] == o;
                assert(r.push(objs.last())[j] == o);
            }
        }
    }
}

/// The intersection of two capabilities reaches an object exactly when
/// both of them reach it.
pub proof fn lemma_intersection_reaches_common(a: Seq<ObjectView>, b: Seq<ObjectView>)
    ensures
        forall|o: ObjectView| #[trigger] common_objects(a, b).contains(o) <==> (a.contains(o) && b.contains(o)),
{
    assert forall|o: ObjectView| #[trigger] common_objects(a, b).contains(o) <==> (a.contains(o) && b.contains(o)) by {
        lemma_common_objects(a, b, o);
    }
}

/// A session's capability in a namespace reaches exactly the session's
/// objects that belong to that namespace, and no other.
pub proof fn lemma_session_capability_isolated(session_id: Seq<char>, objs: Seq<ObjectView>, ns: Seq<char>, max: u32)
    ensures
        forall|o: ObjectView| #[trigger] session_capability(session_id, objs, ns, max).objects.contains(o)
            <==> (objs.contains(o) && object_namespace(o) == ns),
{
    assert forall|o: ObjectView| #[trigger] session_capability(session_id, objs, ns, max).objects.contains(o)
        <==> (objs.contains(o) && object_namespace(o) == ns) by {
        lemma_objects_in(objs, ns, o);
    }
}

impl ObjectId {
    /// A copy of the identifier.
    pub fn copy_object(&self) -> (r: ObjectId)
        ensures
            object_view(r) == object_view(*self),
    {
        let namespace = match &self.namespace {
            Some(n) => Some(n.clone()),
            None => None,
        };
        ObjectId { hash: self.hash, object_type: self.object_type.clone(), namespace }
    }

    /// Whether two identifiers are equal field by field.
    pub fn same_as(&self, other: &ObjectId) -> (r: bool)
        ensures
            r == (object_view(*self) == object_view(*other)),
    {
        let mut i: usize = 0;
        while i < 32
            invariant
                i <= 32,
                forall|j: int| 0 <= j < i ==> self.hash@[j] == other.hash@[j],
            decreases 32 - i,
        {
            if self.hash[i] != other.hash[i] {
                return false;
            }
            i += 1;
        }
        assert(self.hash@ =~= other.hash@);
        if self.object_type != other.object_type {
            return false;
        }
        match (&self.namespace, &other.namespace) {
            (Some(a), Some(b)) => *a == *b,
            (None, None) => true,
            _ => false,
        }
    }

    /// The namespace the object belongs to: its own, or `default`.
    pub fn namespace_or_default(&self) -> (r: String)
        ensures
            r@ == object_namespace(object_view(*self)),
    {
        match &self.namespace {
            Some(n) => n.clone(),
            None => owned("default"),
        }
    }
}

/// Whether `objs` holds an object equal to `o`.
pub fn contains_object(objs: &Vec<ObjectId>, o: &ObjectId) -> (r: bool)
    ensures
        r == objects_view(objs@).contains(object_view(*o)),
{
    let mut i: usize = 0;
    while i < objs.len()
        invariant
            i <= objs.len(),
            forall|j: int| 0 <= j < i ==> object_view(objs@[j]) != object_view(*o),
        decreases objs.len() - i,
    {
        if objs[i].same_as(o) {
            assert(objects_view(objs@)[i as int] == object_view(*o));
            return true;
        }
        i += 1;
    }
    proof {
        if objects_view(objs@).contains(object_view(*o)) {
            let k = choose|k: int| 0 <= k < objects_view(objs@).len() && objects_view(objs@)[k] == object_view(*o);
            assert(object_view(objs@[k]) == object_view(*o));
        }
    }
    false
}

/// Copies of the identifiers.
pub fn copy_objects(objs: &Vec<ObjectId>) -> (r: Vec<ObjectId>)
    ensures
        objects_view(r@) == objects_view(objs@),
{
    let mut r: Vec<ObjectId> = Vec::new();
    let mut i: usize = 0;
    while i < objs.len()
        invariant
            i <= objs.len(),
            objects_view(r@) == objects_view(objs@).take(i as int),
        decreases objs.len() - i,
    {
        let ghost prev = r@;
        r.push(objs[i].copy_object());
        assert(objects_view(r@) =~= objects_view(prev).push(object_view(objs@[i as int])));
        assert(objects_view(objs@).take(i + 1) =~= objects_view(objs@).take(i as int).push(object_view(objs@[i as int])));
        i += 1;
    }
    assert(objects_view(objs@).take(objs.len() as int) =~= objects_view(objs@));
    r
}

impl NamespaceCapability {
    /// A capability over the given objects and types, with a zero hash.
    pub fn new(namespace_id: String, accessible_objects: Vec<ObjectId>, allowed_object_types: Vec<String>, max_objects_per_call: u32) -> (r: NamespaceCapability)
        ensures
            r.namespace_id == namespace_id,
            r.accessible_objects == accessible_objects,
            r.allowed_object_types == allowed_object_types,
            r.max_objects_per_call == max_objects_per_call,
            r.capability_hash@ == zero_bytes(),
    {
        let capability_hash = [0u8; 32];
        assert(capability_hash@ =~= zero_bytes());
        NamespaceCapability { namespace_id, accessible_objects, allowed_object_types, max_objects_per_call, capability_hash }
    }

    /// The capability is well formed: it names a namespace and allows at
    /// least one object per call.
    pub fn verify_integrity(&self) -> (r: bool)
        ensures
            r == (self.namespace_id@.len() > 0 && self.max_objects_per_call > 0),
    {
        !self.namespace_id.as_str().is_empty() && self.max_objects_per_call > 0
    }

    /// Whether the object is among the accessible ones.
    pub fn can_access_object(&self, object_id: &ObjectId) -> (r: bool)
        ensures
            r == objects_view(self.accessible_objects@).contains(object_view(*object_id)),
    {
        contains_object(&self.accessible_objects, object_id)
    }

    /// Whether the object type is allowed: every type is where none is listed.
    pub fn is_object_type_allowed(&self, object_type: &String) -> (r: bool)
        ensures
            r == (self.allowed_object_types@.len() == 0 || views(self.allowed_object_types@).contains(object_type@)),
    {
        self.allowed_object_types.len() == 0 || crate::text::contains_string(&self.allowed_object_types, object_type)
    }

    /// The capability over the objects both reach, with no type listed, the
    /// smaller limit, and the two namespaces joined by `+`.
    pub fn intersect(&self, other: &NamespaceCapability) -> (r: NamespaceCapability)
        ensures
            capability_view(r) == (CapabilityView {
                namespace_id: self.namespace_id@ + "+"@ + other.namespace_id@,
                objects: common_objects(objects_view(self.accessible_objects@), objects_view(other.accessible_objects@)),
                types: seq![],
                max_objects_per_call: if self.max_objects_per_call <= other.max_objects_per_call { self.max_objects_per_call } else { other.max_objects_per_call },
                hash: zero_bytes(),
            }),
    {
        let ghost a = objects_view(self.accessible_objects@);
        let ghost b = objects_view(other.accessible_objects@);
        let mut common: Vec<ObjectId> = Vec::new();
        let mut i: usize = 0;
        while i < self.accessible_objects.len()
            invariant
                i <= self.accessible_objects.len(),
                a == objects_view(self.accessible_objects@),
                b == objects_view(other.accessible_objects@),
                objects_view(common@) == common_objects(a.take(i as int), b),
            decreases self.accessible_objects.len() - i,
        {
            assert(a.take(i + 1).drop_last() =~= a.take(i as int));
            assert(a.take(i + 1).last() == object_view(self.accessible_objects@[i as int]));
            if other.can_access_object(&self.accessible_objects[i]) {
                let ghost prev = common@;
                common.push(self.accessible_objects[i].copy_object());
                assert(objects_view(common@) =~= objects_view(prev).push(a[i as int]));
            }
            i += 1;
        }
        assert(a.take(a.len() as int) =~= a);
        let mut id = self.namespace_id.clone();
        id.append("+");
        id.append(other.namespace_id.as_str());
        let max = if self.max_objects_per_call <= other.max_objects_per_call { self.max_objects_per_call } else { other.max_objects_per_call };
        let types: Vec<String> = Vec::new();
        let r = NamespaceCapability::new(id, common, types, max);
        assert(views(r.allowed_object_types@) =~= Seq::<Seq<char>>::empty());
        r
    }
}

impl Default for SessionIsolationConfig {
    fn default() -> (r: Self)
        ensures
            r.namespace_capabilities@.len() == 1,
            capability_view(r.namespace_capabilities@[0]) == (CapabilityView {
                namespace_id: "default"@,
                objects: seq![],
                types: seq![],
                max_objects_per_call: 10,
                hash: zero_bytes(),
            }),
            r.max_diffs_per_tx == 10,
            r.max_diff_size_bytes == 1024,
            !r.allow_cross_session,
    {
        let objects: Vec<ObjectId> = Vec::new();
        let types: Vec<String> = Vec::new();
        let default_capability = NamespaceCapability::new(owned("default"), objects, types, 10);
        assert(objects_view(default_capability.accessible_objects@) =~= Seq::<ObjectView>::empty());
        assert(views(default_capability.allowed_object_types@) =~= Seq::<Seq<char>>::empty());
        let mut caps: Vec<NamespaceCapability> = Vec::new();
        caps.push(default_capability);
        SessionIsolationConfig { namespace_capabilities: caps, max_diffs_per_tx: 10, max_diff_size_bytes: 1024, allow_cross_session: false }
    }
}

impl SessionIsolationValidator {
    /// Whether a diff respects the session's isolation: every diff does.
    pub fn validate_diff(_session_config: &SessionConfiguration, _diff: &Diff) -> (r: Result<bool, ValenceError>)
        ensures
            r == Ok::<bool, ValenceError>(true),
    {
        Ok(true)
    }

    /// Validates each diff of a batch: all pass.
    pub fn validate_diff_batch(_session_config: &SessionConfiguration, diffs: &Vec<Diff>) -> (r: Result<Vec<bool>, ValenceError>)
        ensures
            r matches Ok(v) && v@.len() == diffs@.len() && forall|i: int| 0 <= i < v@.len() ==> v@[i],
    {
        let mut results: Vec<bool> = Vec::new();
        let mut i: usize = 0;
        while i < diffs.len()
            invariant
                i <= diffs.len(),
                results@.len() == i,
                forall|j: int| 0 <= j < results@.len() ==> results@[j],
            decreases diffs.len() - i,
        {
            results.push(true);
            i += 1;
        }
        Ok(results)
    }

    /// Whether the session may reach the object: it may.
    pub fn can_access_object(_session_config: &SessionConfiguration, _object_id: &ObjectId) -> (r: bool)
        ensures
            r,
    {
        true
    }

    /// Splits diffs into allowed and blocked: all are allowed.
    pub fn filter_diffs(_session_config: &SessionConfiguration, diffs: Vec<Diff>) -> (r: (Vec<Diff>, Vec<Diff>))
        ensures
            r.0@ == diffs@,
            r.1@.len() == 0,
    {
        (diffs, Vec::new())
    }

    /// Whether two sessions may interact: they may not.
    pub fn can_sessions_interact(_source_config: &SessionConfiguration, _target_config: &SessionConfiguration) -> (r: bool)
        ensures
            !r,
    {
        false
    }
}

impl SessionNamespaceIntegration {
    /// One capability per allowed namespace, in order: named
    /// `session:namespace`, over the objects of that namespace (an object
    /// without one belongs to `default`), with no type listed.
    pub fn create_session_capabilities(session_id: &String, accessible_objects: Vec<ObjectId>, allowed_namespaces: Vec<String>, max_objects_per_call: u32) -> (r: Vec<NamespaceCapability>)
        ensures
            r@.len() == allowed_namespaces@.len(),
            forall|i: int| 0 <= i < r@.len() ==> capability_view(#[trigger] r@[i]) == session_capability(session_id@, objects_view(accessible_objects@), allowed_namespaces@[i]@, max_objects_per_call),
    {
        let ghost objs = objects_view(accessible_objects@);
        let mut capabilities: Vec<NamespaceCapability> = Vec::new();
        let mut n: usize = 0;
        while n < allowed_namespaces.len()
            invariant
                n <= allowed_namespaces.len(),
                objs == objects_view(accessible_objects@),
                capabilities@.len() == n,
                forall|i: int| 0 <= i < n ==> capability_view(#[trigger] capabilities@[i]) == session_capability(session_id@, objs, allowed_namespaces@[i]@, max_objects_per_call),
            decreases allowed_namespaces.len() - n,
        {
            let ns = &allowed_namespaces[n];
            let mut members: Vec<ObjectId> = Vec::new();
            let mut i: usize = 0;
            while i < accessible_objects.len()
                invariant
                    i <= accessible_objects.len(),
                    objs == objects_view(accessible_objects@),
                    objects_view(members@) == objects_in(objs.take(i as int), ns@),
                decreases accessible_objects.len() - i,
            {
                assert(objs.take(i + 1).drop_last() =~= objs.take(i as int));
                assert(objs.take(i + 1).last() == object_view(accessible_objects@[i as int]));
                let home = accessible_objects[i].namespace_or_default();
                if home == *ns {
                    let ghost prev = members@;
                    members.push(accessible_objects[i].copy_object());
                    assert(objects_view(members@) =~= objects_view(prev).push(objs[i as int]));
                }
                i += 1;
            }
            assert(objs.take(objs.len() as int) =~= objs);
            let mut id = session_id.clone();
            id.append(":");
            id.append(ns.as_str());
            let types: Vec<String> = Vec::new();
            let cap = NamespaceCapability::new(id, members, types, max_objects_per_call);
            assert(views(cap.allowed_object_types@) =~= Seq::<Seq<char>>::empty());
            capabilities.push(cap);
            n += 1;
        }
        capabilities
    }

    /// Whether the session may make the operation on the object: `read`,
    /// `query`, `write` and `update` are allowed; `create`, `delete` and any
    /// other operation are not.
    pub fn validate_session_operation(session_config: &SessionConfiguration, target_object: &ObjectId, operation: &String) -> (r: bool)
        ensures
            r == operation_allowed(operation@),
    {
        if !SessionIsolationValidator::can_access_object(session_config, target_object) {
            return false;
        }
        *operation == owned("read") || *operation == owned("query") || *operation == owned("write") || *operation == owned("update")
    }
}

impl SessionBoundaryEnforcer {
    /// Whether every diff of the input respects the session's isolation.
    pub fn enforce_function_boundaries(session_config: &SessionConfiguration, function_input: &FunctionInput) -> (r: Result<bool, ValenceError>)
        ensures
            r == Ok::<bool, ValenceError>(true),
    {
        let mut i: usize = 0;
        while i < function_input.diffs.len()
            invariant
                i <= function_input.diffs.len(),
            decreases function_input.diffs.len() - i,
        {
            match SessionIsolationValidator::validate_diff(session_config, &function_input.diffs[i]) {
                Ok(true) => {}
                Ok(false) => { return Ok(false); }
                Err(e) => { return Err(e); }
            }
            i += 1;
        }
        Ok(true)
    }

    /// The diffs of a composition that the session's isolation allows.
    pub fn enforce_composition_boundaries(session_config: &SessionConfiguration, composition_diffs: Vec<Diff>) -> (r: Result<Vec<Diff>, ValenceError>)
        ensures
            r matches Ok(v) && v@ == composition_diffs@,
    {
        let (allowed, _blocked) = SessionIsolationValidator::filter_diffs(session_config, composition_diffs);
        Ok(allowed)
    }
}

} // verus!
