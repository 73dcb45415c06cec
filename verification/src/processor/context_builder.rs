//! Building and checking execution contexts.

use vstd::prelude::*;
use crate::error::ValenceError;
use crate::pubkey::{Pubkey, zero_bytes};
use crate::processor::execution_engine::ExecutionContext;

verus! {

/// Builds an execution context step by step.
pub struct ContextBuilder {
    capability_id: String,
    session_id: Option<String>,
    session: Option<Pubkey>,
    caller: Pubkey,
    compute_limit: Option<u64>,
    input_data: Vec<u8>,
    labels: Vec<String>,
}

/// The abstract value of a context builder.
pub struct BuilderView {
    pub capability_id: Seq<char>,
    pub session_id: Option<Seq<char>>,
    pub session: Option<Pubkey>,
    pub caller: Pubkey,
    pub compute_limit: Option<u64>,
    pub input_data: Seq<u8>,
    pub labels: Seq<Seq<char>>,
}

impl View for ContextBuilder {
    type V = BuilderView;

    closed spec fn view(&self) -> BuilderView {
        BuilderView {
            capability_id: self.capability_id@,
            session_id: match self.session_id {
                Some(s) => Some(s@),
                None => None,
            },
            session: self.session,
            caller: self.caller,
            compute_limit: self.compute_limit,
            input_data: self.input_data@,
            labels: self.labels@.map_values(|s: String| s@),
        }
    }
}

/// The fields of a built context, its time stamps aside.
pub open spec fn built_from(c: ExecutionContext, b: BuilderView) -> bool {
    &&& c.capability_id@ == b.capability_id
    &&& c.caller == b.caller
    &&& c.compute_limit == b.compute_limit
    &&& c.input_data@ == b.input_data
    &&& match (b.session_id, b.session) {
        (Some(id), Some(s)) => c.session_id@ == id && c.session == Some(s),
        _ => c.session_id@.len() == 0 && c.session is None,
    }
}

impl ContextBuilder {
    /// A builder for the capability and caller, with nothing else set.
    pub fn new_builder(capability_id: String, caller: Pubkey) -> (r: ContextBuilder)
        ensures
            r@ == (BuilderView {
                capability_id: capability_id@,
                session_id: None,
                session: None,
                caller,
                compute_limit: None,
                input_data: seq![],
                labels: seq![],
            }),
    {
        let r = ContextBuilder {
            capability_id,
            session_id: None,
            session: None,
            caller,
            compute_limit: None,
            input_data: Vec::new(),
            labels: Vec::new(),
        };
        assert(r@.input_data =~= Seq::<u8>::empty());
        assert(r@.labels =~= Seq::<Seq<char>>::empty());
        r
    }

    /// Sets the session and its id.
    pub fn add_session(self, session_id: String, session: Pubkey) -> (r: ContextBuilder)
        ensures
            r@ == (BuilderView { session_id: Some(session_id@), session: Some(session), ..self@ }),
    {
        let mut s = self;
        s.session_id = Some(session_id);
        s.session = Some(session);
        s
    }

    /// Sets the compute limit.
    pub fn set_compute_limit(self, limit: u64) -> (r: ContextBuilder)
        ensures
            r@ == (BuilderView { compute_limit: Some(limit), ..self@ }),
    {
        let mut s = self;
        s.compute_limit = Some(limit);
        s
    }

    /// Sets the input data.
    pub fn add_input_data(self, data: Vec<u8>) -> (r: ContextBuilder)
        ensures
            r@ == (BuilderView { input_data: data@, ..self@ }),
    {
        let mut s = self;
        s.input_data = data;
        s
    }

    /// Sets the labels.
    pub fn add_labels(self, labels: Vec<String>) -> (r: ContextBuilder)
        ensures
            r@ == (BuilderView { labels: labels@.map_values(|s: String| s@), ..self@ }),
    {
        let mut s = self;
        s.labels = labels;
        s
    }

    /// The context: in the session where both a session and its id are
    /// set, with the limit and input set; stamped with the clock.
    pub fn build(self) -> (r: ExecutionContext)
        ensures
            built_from(r, self@),
    {
        let ghost b = self@;
        let ContextBuilder { capability_id, session_id, session, caller, compute_limit, input_data, labels: _ } = self;
        let mut context = match (session_id, session) {
            (Some(id), Some(s)) => ExecutionContext::with_session(capability_id, id, s, caller),
            _ => ExecutionContext::new(capability_id, caller, None),
        };
        match compute_limit {
            Some(limit) => { context = context.with_compute_limit(limit); }
            None => {}
        }
        if input_data.len() > 0 {
            context = context.with_input_data(input_data);
        } else {
            assert(context.input_data@ =~= input_data@);
        }
        context
    }

    /// A context for the capability and caller.
    pub fn new(capability_id: String, caller: Pubkey) -> (r: ExecutionContext)
        ensures
            r.capability_id == capability_id,
            r.session_id@.len() == 0,
            r.session is None,
            r.caller == caller,
            r.compute_limit is None,
            r.input_data@.len() == 0,
    {
        ExecutionContext::new(capability_id, caller, None)
    }

    /// A context in the session.
    pub fn with_session(capability_id: String, session_id: String, session: Pubkey, caller: Pubkey) -> (r: ExecutionContext)
        ensures
            r.capability_id == capability_id,
            r.session_id == session_id,
            r.session == Some(session),
            r.caller == caller,
            r.compute_limit is None,
            r.input_data@.len() == 0,
    {
        ExecutionContext::with_session(capability_id, session_id, session, caller)
    }

    /// A context with a compute limit.
    pub fn with_compute_limit(capability_id: String, caller: Pubkey, compute_limit: u64) -> (r: ExecutionContext)
        ensures
            r.capability_id == capability_id,
            r.session_id@.len() == 0,
            r.session is None,
            r.caller == caller,
            r.compute_limit == Some(compute_limit),
            r.input_data@.len() == 0,
    {
        ExecutionContext::new(capability_id, caller, None).with_compute_limit(compute_limit)
    }

    /// A context from the keys of an instruction's session and caller
    /// accounts.
    pub fn from_accounts(capability_id: String, session_key: Option<Pubkey>, caller_key: Pubkey) -> (r: ExecutionContext)
        ensures
            r.capability_id == capability_id,
            r.session_id@.len() == 0,
            r.session == session_key,
            r.caller == caller_key,
            r.compute_limit is None,
            r.input_data@.len() == 0,
    {
        ExecutionContext::new(capability_id, caller_key, session_key)
    }

    /// Checks a context: refused with `CapabilityInvalidId` for an empty
    /// capability id, and with `ExecutionFailed` where the session or the
    /// caller is the default address.
    pub fn validate(&self, context: &ExecutionContext) -> (r: Result<(), ValenceError>)
        ensures
            context.capability_id@.len() == 0 ==> r == Err::<(), ValenceError>(ValenceError::CapabilityInvalidId),
            context.capability_id@.len() > 0 && ((context.session matches Some(s) && s.bytes@ == zero_bytes()) || context.caller.bytes@ == zero_bytes())
                ==> r == Err::<(), ValenceError>(ValenceError::ExecutionFailed),
            context.capability_id@.len() > 0 && !(context.session matches Some(s) && s.bytes@ == zero_bytes()) && context.caller.bytes@ != zero_bytes()
                ==> r is Ok,
    {
        if context.capability_id.as_str().is_empty() {
            return Err(ValenceError::CapabilityInvalidId);
        }
        let session_default = match context.session {
            Some(s) => s.is_default(),
            None => false,
        };
        if session_default || context.caller.is_default() {
            return Err(ValenceError::ExecutionFailed);
        }
        Ok(())
    }

    /// The context with its compute limit replaced.
    pub fn with_metadata(context: ExecutionContext, compute_limit: Option<u64>) -> (r: ExecutionContext)
        ensures
            r == (ExecutionContext { compute_limit, ..context }),
    {
        let mut c = context;
        c.compute_limit = compute_limit;
        c
    }
}

} // verus!
