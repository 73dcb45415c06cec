//! Capability definitions and scopes, namespace access, and the checks a
//! namespace capability makes on a function call.

use vstd::prelude::*;
use crate::error::ValenceError;
use crate::pubkey::{Pubkey, zero_bytes};
use crate::sessions::isolation::{
    NamespaceCapability, ObjectId, ObjectView, FunctionInput, CapabilityView,
    object_view, objects_view, capability_view, copy_objects, contains_object,
};
use crate::text::{owned, views, decimal, push_decimal, contains_string};

verus! {

broadcast use vstd::seq_lib::group_seq_properties;

/// The scope a capability applies in.
#[derive(Clone, Debug, PartialEq)]
pub enum CapabilityScope {
    /// Everywhere.
    Global,
    /// Within a session.
    Session,
    /// Within one namespace.
    Namespace(String),
    /// Under custom rules.
    Custom(String),
}

/// The kind of a capability.
#[derive(Clone, Copy, Debug, PartialEq, Eq, Structural)]
pub enum CapabilityType {
    Function,
    DataAccess,
    StateModification,
    Verification,
    Administrative,
    /// Combines other capabilities; compatible with every type.
    Composite,
}

/// A capability definition.
#[derive(Debug)]
pub struct CapabilityDefinition {
    pub id: String,
    pub name: String,
    pub description: String,
    pub capability_type: CapabilityType,
    pub scope: CapabilityScope,
    pub required_permissions: Vec<String>,
    pub version: String,
    pub is_active: bool,
}

/// Namespace access control.
pub struct NamespaceManager;

/// The namespaces a party may reach.
#[derive(Debug)]
pub enum NamespaceAccess {
    /// Every namespace.
    Global,
    /// The listed namespaces.
    Scoped(Vec<String>),
    /// No namespace.
    NoAccess,
}

/// The outcome of checking a call against a namespace capability.
#[derive(Debug)]
pub struct CapabilityValidationResult {
    pub is_valid: bool,
    pub access_granted: bool,
    pub reason: String,
    pub validated_objects: Vec<ObjectId>,
    pub namespace_id: String,
}

/// The abstract value of a scope.
pub enum ScopeView {
    Global,
    Session,
    Namespace(Seq<char>),
    Custom(Seq<char>),
}

/// The abstract value of a scope.
pub open spec fn scope_view(s: CapabilityScope) -> ScopeView {
    match s {
        CapabilityScope::Global => ScopeView::Global,
        CapabilityScope::Session => ScopeView::Session,
        CapabilityScope::Namespace(n) => ScopeView::Namespace(n@),
        CapabilityScope::Custom(n) => ScopeView::Custom(n@),
    }
}

/// A capability of scope `mine` applies in scope `asked`: a global one
/// everywhere, the others in the same scope only.
pub open spec fn scope_matches(mine: ScopeView, asked: ScopeView) -> bool {
    match (mine, asked) {
        (ScopeView::Global, _) => true,
        (ScopeView::Session, ScopeView::Session) => true,
        (ScopeView::Namespace(a), ScopeView::Namespace(b)) => a == b,
        (ScopeView::Custom(a), ScopeView::Custom(b)) => a == b,
        _ => false,
    }
}

/// The abstract value of a validation result.
pub struct ValidationView {
    pub is_valid: bool,
    pub access_granted: bool,
    pub reason: Seq<char>,
    pub objects: Seq<ObjectView>,
    pub namespace_id: Seq<char>,
}

/// The abstract value of a validation result.
pub open spec fn validation_view(r: CapabilityValidationResult) -> ValidationView {
    ValidationView {
        is_valid: r.is_valid,
        access_granted: r.access_granted,
        reason: r.reason@,
        objects: objects_view(r.validated_objects@),
        namespace_id: r.namespace_id@,
    }
}

/// The text `{:?}` gives for an object identifier.
pub uninterp spec fn object_debug_text(hash: Seq<u8>, object_type: Seq<char>, namespace: Option<Seq<char>>) -> Seq<char>;

/// Formats the object identifier with its derived `Debug`. The claim is only
/// that the text is a function of the identifier's fields.
#[verifier::external_body]
fn debug_object(o: &ObjectId) -> (r: String)
    ensures
        r@ == object_debug_text(object_view(*o).hash, object_view(*o).object_type, object_view(*o).namespace),
{
    format!("{:?}", o)
}

/// The type is allowed: every type is where none is listed.
pub open spec fn type_allowed(c: CapabilityView, t: Seq<char>) -> bool {
    c.types.len() == 0 || c.types.contains(t)
}

/// The object may be touched under the capability.
pub open spec fn object_ok(c: CapabilityView, o: ObjectView) -> bool {
    c.objects.contains(o) && type_allowed(c, o.object_type)
}

/// The first index from `i` on of an object that may not be touched, or -1.
pub open spec fn first_refused_from(c: CapabilityView, objs: Seq<ObjectView>, i: int) -> int
    decreases objs.len() - i,
{
    if i < 0 || i >= objs.len() {
        -1
    } else if !object_ok(c, objs[i]) {
        i
    } else {
        first_refused_from(c, objs, i + 1)
    }
}

/// Why an object is refused.
pub open spec fn refusal_reason(c: CapabilityView, o: ObjectView) -> Seq<char> {
    if !c.objects.contains(o) {
        "Object not in namespace: "@ + object_debug_text(o.hash, o.object_type, o.namespace)
    } else {
        "Object type not allowed: "@ + o.object_type
    }
}

/// The outcome of checking a call that touches `objs` against the capability.
pub open spec fn call_validation(c: CapabilityView, objs: Seq<ObjectView>) -> ValidationView {
    if !(c.namespace_id.len() > 0 && c.max_objects_per_call > 0) {
        ValidationView { is_valid: false, access_granted: false, reason: "Capability hash verification failed"@, objects: seq![], namespace_id: seq![] }
    } else if objs.len() > c.max_objects_per_call {
        ValidationView {
            is_valid: true,
            access_granted: false,
            reason: "Too many objects accessed: "@ + decimal(objs.len()) + " > "@ + decimal(c.max_objects_per_call as nat),
            objects: objs,
            namespace_id: c.namespace_id,
        }
    } else {
        let k = first_refused_from(c, objs, 0);
        if k >= 0 {
            ValidationView { is_valid: true, access_granted: false, reason: refusal_reason(c, objs[k]), objects: objs, namespace_id: c.namespace_id }
        } else {
            ValidationView { is_valid: true, access_granted: true, reason: "All objects within namespace capability"@, objects: objs, namespace_id: c.namespace_id }
        }
    }
}

/// `acc` followed by the items of `more` that are not already there, in order.
pub open spec fn merge_objects(acc: Seq<ObjectView>, more: Seq<ObjectView>) -> Seq<ObjectView>
    decreases more.len(),
{
    if more.len() == 0 {
        acc
    } else {
        let m = merge_objects(acc, more.drop_last());
        if m.contains(more.last()) { m } else { m.push(more.last()) }
    }
}

/// `acc` followed by the strings of `more` that are not already there, in order.
pub open spec fn merge_strings(acc: Seq<Seq<char>>, more: Seq<Seq<char>>) -> Seq<Seq<char>>
    decreases more.len(),
{
    if more.len() == 0 {
        acc
    } else {
        let m = merge_strings(acc, more.drop_last());
        if m.contains(more.last()) { m } else { m.push(more.last()) }
    }
}

/// The merge holds an object exactly when one of its two parts does.
proof fn lemma_merge_objects(acc: Seq<ObjectView>, more: Seq<ObjectView>, o: ObjectView)
    ensures
        merge_objects(acc, more).contains(o) <==> (acc.contains(o) || more.contains(o)),
    decreases more.len(),
{
    if more.len() > 0 {
        let p = more.drop_last();
        lemma_merge_objects(acc, p, o);
        if p.contains(o) {
            let j = choose|j: int| 0 <= j < p.len() && p[j] == o;
            assert(more[j] == o);
        }
        if more.contains(o) && !p.contains(o) {
            let j = choose|j: int| 0 <= j < more.len() && more[j] == o;
            if j < more.len() - 1 {
                assert(p[j] == o);
            }
            assert(more.last() == o);
        }
        let m = merge_objects(acc, p);
        if !m.contains(more.last()) {
            assert(m.push(more.last())[m.len() as int] == more.last());
            if m.push(more.last()).contains(o) && o != more.last() {
                let j = choose|j: int| 0 <= j < m.len() + 1 && m.push(more.last())[j] == o;
                assert(m[j] == o);
            }
            if m.contains(o) {
                let j = choose|j: int| 0 <= j < m.len() && m[j] == o;
                assert(m.push(more.last())[j] == o);
            }
        }
    }
}

/// The merge holds a string exactly when one of its two parts does.
proof fn lemma_merge_strings(acc: Seq<Seq<char>>, more: Seq<Seq<char>>, t: Seq<char>)
    ensures
        merge_strings(acc, more).contains(t) <==> (acc.contains(t) || more.contains(t)),
    decreases more.len(),
{
    if more.len() > 0 {
        let p = more.drop_last();
        lemma_merge_strings(acc, p, t);
        if p.contains(t) {
            let j = choose|j: int| 0 <= j < p.len() && p[j] == t;
            assert(more[j] == t);
        }
        if more.contains(t) && !p.contains(t) {
            let j = choose|j: int| 0 <= j < more.len() && more[j] == t;
            if j < more.len() - 1 {
                assert(p[j] == t);
            }
            assert(more.last() == t);
        }
        let m = merge_strings(acc, p);
        if !m.contains(more.last()) {
            assert(m.push(more.last())[m.len() as int] == more.last());
            if m.push(more.last()).contains(t) && t != more.last() {
                let j = choose|j: int| 0 <= j < m.len() + 1 && m.push(more.last())[j] == t;
                assert(m[j] == t);
            }
            if m.contains(t) {
                let j = choose|j: int| 0 <= j < m.len() && m[j] == t;
                assert(m.push(more.last())[j] == t);
            }
        }
    }
}

/// The union of two capabilities reaches an object exactly when one of
/// them reaches it, and lists a type exactly when one of them lists it.
pub proof fn lemma_union_reaches_either(a: Seq<ObjectView>, b: Seq<ObjectView>, ta: Seq<Seq<char>>, tb: Seq<Seq<char>>)
    ensures
        forall|o: ObjectView| #[trigger] merge_objects(a, b).contains(o) <==> (a.contains(o) || b.contains(o)),
        forall|t: Seq<char>| #[trigger] merge_strings(ta, tb).contains(t) <==> (ta.contains(t) || tb.contains(t)),
{
    assert forall|o: ObjectView| #[trigger] merge_objects(a, b).contains(o) <==> (a.contains(o) || b.contains(o)) by {
        lemma_merge_objects(a, b, o);
    }
    assert forall|t: Seq<char>| #[trigger] merge_strings(ta, tb).contains(t) <==> (ta.contains(t) || tb.contains(t)) by {
        lemma_merge_strings(ta, tb, t);
    }
}

impl CapabilityScope {
    /// A copy of the scope.
    pub fn copy_scope(&self) -> (r: CapabilityScope)
        ensures
            scope_view(r) == scope_view(*self),
    {
        match self {
            CapabilityScope::Global => CapabilityScope::Global,
            CapabilityScope::Session => CapabilityScope::Session,
            CapabilityScope::Namespace(n) => CapabilityScope::Namespace(n.clone()),
            CapabilityScope::Custom(n) => CapabilityScope::Custom(n.clone()),
        }
    }
}

impl Default for CapabilityScope {
    fn default() -> (r: Self)
        ensures
            r == CapabilityScope::Session,
    {
        CapabilityScope::Session
    }
}

impl Default for CapabilityType {
    fn default() -> (r: Self)
        ensures
            r == CapabilityType::Function,
    {
        CapabilityType::Function
    }
}

impl Default for NamespaceAccess {
    fn default() -> (r: Self)
        ensures
            r is NoAccess,
    {
        NamespaceAccess::NoAccess
    }
}

impl CapabilityDefinition {
    /// An active capability of version `1.0.0` with no required permission.
    pub fn new(id: String, name: String, description: String, capability_type: CapabilityType, scope: CapabilityScope) -> (r: CapabilityDefinition)
        ensures
            r.id == id,
            r.name == name,
            r.description == description,
            r.capability_type == capability_type,
            r.scope == scope,
            r.required_permissions@.len() == 0,
            r.version@ == "1.0.0"@,
            r.is_active,
    {
        CapabilityDefinition {
            id,
            name,
            description,
            capability_type,
            scope,
            required_permissions: Vec::new(),
            version: owned("1.0.0"),
            is_active: true,
        }
    }

    /// The capability with one more required permission.
    pub fn with_permission(self, permission: String) -> (r: CapabilityDefinition)
        ensures
            r.required_permissions@ == self.required_permissions@.push(permission),
            r == (CapabilityDefinition { required_permissions: r.required_permissions, ..self }),
    {
        let mut s = self;
        s.required_permissions.push(permission);
        s
    }

    /// The capability with another version.
    pub fn with_version(self, version: String) -> (r: CapabilityDefinition)
        ensures
            r == (CapabilityDefinition { version, ..self }),
    {
        let mut s = self;
        s.version = version;
        s
    }

    /// Whether the capability applies in the scope: a global one
    /// everywhere, the others in the same scope only.
    pub fn matches_scope(&self, scope: &CapabilityScope) -> (r: bool)
        ensures
            r == scope_matches(scope_view(self.scope), scope_view(*scope)),
    {
        match (&self.scope, scope) {
            (CapabilityScope::Global, _) => true,
            (CapabilityScope::Session, CapabilityScope::Session) => true,
            (CapabilityScope::Namespace(a), CapabilityScope::Namespace(b)) => *a == *b,
            (CapabilityScope::Custom(a), CapabilityScope::Custom(b)) => *a == *b,
            _ => false,
        }
    }

    /// Whether the capability serves the type: its own type, or any type
    /// for a composite capability.
    pub fn is_compatible_type(&self, capability_type: &CapabilityType) -> (r: bool)
        ensures
            r == (self.capability_type == *capability_type || self.capability_type == CapabilityType::Composite),
    {
        self.capability_type == *capability_type || self.capability_type == CapabilityType::Composite
    }
}

impl NamespaceManager {
    /// Whether the session may reach the namespace: it may.
    pub fn check_namespace_access(_session: &Pubkey, _namespace: &String, _capabilities: &Vec<String>) -> (r: Result<bool, ValenceError>)
        ensures
            r == Ok::<bool, ValenceError>(true),
    {
        Ok(true)
    }

    /// Whether the namespace is among the allowed ones.
    pub fn validate_capability_namespace(_capability_id: &String, namespace: &String, allowed_namespaces: &Vec<String>) -> (r: Result<bool, ValenceError>)
        ensures
            r == Ok::<bool, ValenceError>(views(allowed_namespaces@).contains(namespace@)),
    {
        Ok(contains_string(allowed_namespaces, namespace))
    }

    /// The namespaces the session may reach: `default`.
    pub fn get_accessible_namespaces(_session: &Pubkey, _capabilities: &Vec<String>) -> (r: Result<Vec<String>, ValenceError>)
        ensures
            r matches Ok(v) && views(v@) == seq!["default"@],
    {
        let mut v: Vec<String> = Vec::new();
        v.push(owned("default"));
        assert(views(v@) =~= seq!["default"@]);
        Ok(v)
    }
}

impl CapabilityValidationResult {
    /// Access granted.
    pub fn granted(namespace_id: String, validated_objects: Vec<ObjectId>, reason: String) -> (r: Self)
        ensures
            r.is_valid && r.access_granted,
            r.reason == reason && r.validated_objects == validated_objects && r.namespace_id == namespace_id,
    {
        CapabilityValidationResult { is_valid: true, access_granted: true, reason, validated_objects, namespace_id }
    }

    /// Access denied to a valid request.
    pub fn denied(namespace_id: String, validated_objects: Vec<ObjectId>, reason: String) -> (r: Self)
        ensures
            r.is_valid && !r.access_granted,
            r.reason == reason && r.validated_objects == validated_objects && r.namespace_id == namespace_id,
    {
        CapabilityValidationResult { is_valid: true, access_granted: false, reason, validated_objects, namespace_id }
    }

    /// An invalid request.
    pub fn invalid(reason: String) -> (r: Self)
        ensures
            !r.is_valid && !r.access_granted,
            r.reason == reason,
            r.validated_objects@.len() == 0,
            r.namespace_id@.len() == 0,
    {
        let namespace_id = String::new();
        CapabilityValidationResult { is_valid: false, access_granted: false, reason, validated_objects: Vec::new(), namespace_id }
    }
}

/// The search from `i` finds the first refused object at or after `i`.
proof fn lemma_first_refused(c: CapabilityView, objs: Seq<ObjectView>, i: int)
    requires
        0 <= i <= objs.len(),
    ensures
        ({
            let k = first_refused_from(c, objs, i);
            ||| (k == -1 && forall|j: int| i <= j < objs.len() ==> object_ok(c, #[trigger] objs[j]))
            ||| (i <= k < objs.len() && !object_ok(c, objs[k]))
        }),
    decreases objs.len() - i,
{
    if i < objs.len() && object_ok(c, objs[i]) {
        lemma_first_refused(c, objs, i + 1);
    }
}

impl NamespaceCapability {
    /// Checks a call touching `accessed_objects`: invalid where the
    /// capability is not well formed; denied where it touches more objects
    /// than allowed, or an object the capability does not reach or of a type
    /// it does not allow (the first such object decides the reason); granted
    /// otherwise.
    pub fn validate_function_call(&self, _function_input: &FunctionInput, accessed_objects: &Vec<ObjectId>) -> (r: CapabilityValidationResult)
        ensures
            validation_view(r) == call_validation(capability_view(*self), objects_view(accessed_objects@)),
    {
        let ghost c = capability_view(*self);
        let ghost objs = objects_view(accessed_objects@);
        if !self.verify_integrity() {
            let r = CapabilityValidationResult::invalid(owned("Capability hash verification failed"));
            assert(objects_view(r.validated_objects@) =~= Seq::<ObjectView>::empty());
            return r;
        }
        if accessed_objects.len() > self.max_objects_per_call as usize {
            let mut reason = owned("Too many objects accessed: ");
            push_decimal(&mut reason, accessed_objects.len() as u64);
            reason.append(" > ");
            push_decimal(&mut reason, self.max_objects_per_call as u64);
            return CapabilityValidationResult::denied(self.namespace_id.clone(), copy_objects(accessed_objects), reason);
        }
        let mut i: usize = 0;
        while i < accessed_objects.len()
            invariant
                i <= accessed_objects.len(),
                c == capability_view(*self),
                objs == objects_view(accessed_objects@),
                first_refused_from(c, objs, 0) == first_refused_from(c, objs, i as int),
                c.namespace_id.len() > 0 && c.max_objects_per_call > 0,
                objs.len() <= c.max_objects_per_call,
            decreases accessed_objects.len() - i,
        {
            let obj = &accessed_objects[i];
            assert(objs[i as int] == object_view(*obj));
            if !self.can_access_object(obj) {
                let mut reason = owned("Object not in namespace: ");
                let text = debug_object(obj);
                reason.append(text.as_str());
                return CapabilityValidationResult::denied(self.namespace_id.clone(), copy_objects(accessed_objects), reason);
            }
            if !self.is_object_type_allowed(&obj.object_type) {
                let mut reason = owned("Object type not allowed: ");
                reason.append(obj.object_type.as_str());
                return CapabilityValidationResult::denied(self.namespace_id.clone(), copy_objects(accessed_objects), reason);
            }
            i += 1;
        }
        CapabilityValidationResult::granted(self.namespace_id.clone(), copy_objects(accessed_objects), owned("All objects within namespace capability"))
    }

    /// Checks the function input: every input passes.
    pub fn validate_function_input(&self, _function_input: &FunctionInput) -> (r: Result<(), ValenceError>)
        ensures
            r is Ok,
    {
        Ok(())
    }

    /// The capability over the objects either reaches and the types either
    /// allows (each once, this capability's first), with the larger limit and
    /// the two namespaces joined by `∪`.
    pub fn union(&self, other: &NamespaceCapability) -> (r: NamespaceCapability)
        ensures
            capability_view(r) == (CapabilityView {
                namespace_id: self.namespace_id@ + "\u{222a}"@ + other.namespace_id@,
                objects: merge_objects(objects_view(self.accessible_objects@), objects_view(other.accessible_objects@)),
                types: merge_strings(views(self.allowed_object_types@), views(other.allowed_object_types@)),
                max_objects_per_call: if self.max_objects_per_call >= other.max_objects_per_call { self.max_objects_per_call } else { other.max_objects_per_call },
                hash: zero_bytes(),
            }),
    {
        let ghost a = objects_view(self.accessible_objects@);
        let ghost b = objects_view(other.accessible_objects@);
        let mut objects = copy_objects(&self.accessible_objects);
        let mut i: usize = 0;
        while i < other.accessible_objects.len()
            invariant
                i <= other.accessible_objects.len(),
                a == objects_view(self.accessible_objects@),
                b == objects_view(other.accessible_objects@),
                objects_view(objects@) == merge_objects(a, b.take(i as int)),
            decreases other.accessible_objects.len() - i,
        {
            assert(b.take(i + 1).drop_last() =~= b.take(i as int));
            assert(b.take(i + 1).last() == b[i as int]);
            let obj = &other.accessible_objects[i];
            if !contains_object(&objects, obj) {
                let ghost prev = objects@;
                objects.push(obj.copy_object());
                assert(objects_view(objects@) =~= objects_view(prev).push(b[i as int]));
            }
            i += 1;
        }
        assert(b.take(b.len() as int) =~= b);
        let ghost ta = views(self.allowed_object_types@);
        let ghost tb = views(other.allowed_object_types@);
        let mut types = self.allowed_object_types.clone();
        assert(views(types@) =~= ta) by {
            assert forall|k: int| 0 <= k < types@.len() implies types@[k] == self.allowed_object_types@[k] by {
                assert(cloned::<String>(self.allowed_object_types@[k], types@[k]));
            }
        }
        let mut j: usize = 0;
        while j < other.allowed_object_types.len()
            invariant
                j <= other.allowed_object_types.len(),
                tb == views(other.allowed_object_types@),
                views(types@) == merge_strings(ta, tb.take(j as int)),
            decreases other.allowed_object_types.len() - j,
        {
            assert(tb.take(j + 1).drop_last() =~= tb.take(j as int));
            assert(tb.take(j + 1).last() == tb[j as int]);
            let t = &other.allowed_object_types[j];
            if !contains_string(&types, t) {
                let ghost prev = types@;
                types.push(t.clone());
                assert(views(types@) =~= views(prev).push(tb[j as int]));
            }
            j += 1;
        }
        assert(tb.take(tb.len() as int) =~= tb);
        let mut id = self.namespace_id.clone();
        id.append("\u{222a}");
        id.append(other.namespace_id.as_str());
        let max = if self.max_objects_per_call >= other.max_objects_per_call { self.max_objects_per_call } else { other.max_objects_per_call };
        NamespaceCapability::new(id, objects, types, max)
    }
}

} // verus!
