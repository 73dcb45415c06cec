//! The execution of a capability: its context, its gas accounting and its
//! result.

use vstd::prelude::*;
use crate::error::ValenceError;
use crate::pubkey::{Pubkey, zero_bytes};
use crate::runtime::{clock_get, base58, pubkey_base58};
use crate::text::{owned, decimal, push_decimal};

verus! {

/// Executes capabilities.
pub struct ExecutionEngine;

/// The context a capability executes in.
#[derive(Debug)]
pub struct ExecutionContext {
    pub capability_id: String,
    pub session_id: String,
    pub session: Option<Pubkey>,
    pub caller: Pubkey,
    pub timestamp: i64,
    pub block_height: u64,
    pub compute_limit: Option<u64>,
    pub input_data: Vec<u8>,
}

/// The result of executing a capability.
#[derive(Debug)]
pub struct ExecutionResult {
    pub success: bool,
    pub output_data: Vec<u8>,
    pub gas_used: u64,
    pub error_message: Option<String>,
    pub logs: Vec<String>,
}

/// The gas limit where the context sets none.
pub const DEFAULT_GAS_LIMIT: u64 = 1_000_000;

/// The abstract value of an execution result.
pub struct ResultView {
    pub success: bool,
    pub output: Seq<u8>,
    pub gas_used: int,
    pub error_message: Option<Seq<char>>,
    pub logs: Seq<Seq<char>>,
}

/// The abstract value of an execution result.
pub open spec fn result_view(r: ExecutionResult) -> ResultView {
    ResultView {
        success: r.success,
        output: r.output_data@,
        gas_used: r.gas_used as int,
        error_message: match r.error_message {
            Some(m) => Some(m@),
            None => None,
        },
        logs: r.logs@.map_values(|s: String| s@),
    }
}

/// A failed result with the message and the gas used.
pub open spec fn failure_view(message: Seq<char>, gas: int) -> ResultView {
    ResultView { success: false, output: seq![], gas_used: gas, error_message: Some(message), logs: seq![] }
}

/// The session is set and is not the default address.
pub open spec fn session_set(session: Option<Pubkey>) -> bool {
    session matches Some(s) && s.bytes@ != zero_bytes()
}

/// The gas charged before the limit is first checked.
pub open spec fn entry_gas(input_len: nat) -> int {
    (100 + input_len * 10) as int
}

/// The gas charged in all.
pub open spec fn total_gas(input_len: nat) -> int {
    entry_gas(input_len) + 50 + 200 + if input_len > 0 { input_len * 5 } else { 0 }
}

/// The log of a successful execution.
pub open spec fn execution_logs(id: Seq<char>, input: Seq<u8>, session: Seq<u8>, gas: int) -> Seq<Seq<char>> {
    seq![
        "Started execution of capability: "@ + id,
        "Input data size: "@ + decimal(input.len()) + " bytes"@,
        "Executing in session context: "@ + base58(session),
        "Stage 1: Context validation - PASSED"@,
        "Stage 2: Permission check - PASSED"@,
        "Stage 3: Resource allocation - PASSED"@,
    ] + (if input.len() > 0 { seq!["Processed "@ + decimal(input.len()) + " bytes of input data"@] } else { seq![] })
        + seq!["Execution completed successfully. Gas used: "@ + decimal(gas as nat)]
}

/// What executing the capability `id` on `input` in a context with the
/// given session and compute limit gives: refused for an empty id or a
/// missing or default session; a failure where the gas charged passes the
/// limit (1,000,000 where none is set) at entry or at the end; otherwise a
/// success whose output is the first 32 bytes of the input.
pub open spec fn execution_outcome(id: Seq<char>, input: Seq<u8>, session: Option<Pubkey>, compute_limit: Option<u64>) -> Result<ResultView, ValenceError> {
    let limit: int = match compute_limit {
        Some(l) => l as int,
        None => DEFAULT_GAS_LIMIT as int,
    };
    if id.len() == 0 {
        Err(ValenceError::CapabilityInvalidId)
    } else if !session_set(session) {
        Err(ValenceError::ExecutionFailed)
    } else if entry_gas(input.len()) > limit {
        Ok(failure_view("Gas limit exceeded"@, entry_gas(input.len())))
    } else if total_gas(input.len()) > limit {
        Ok(failure_view("Gas limit exceeded during execution"@, total_gas(input.len())))
    } else {
        Ok(ResultView {
            success: true,
            output: input.take(if input.len() <= 32 { input.len() as int } else { 32 }),
            gas_used: total_gas(input.len()),
            error_message: None,
            logs: execution_logs(id, input, session->0.bytes@, total_gas(input.len())),
        })
    }
}

impl ExecutionContext {
    /// A context without session id or limit, stamped with the clock's time
    /// and slot (0 where the clock cannot be read).
    pub fn new(capability_id: String, caller: Pubkey, session: Option<Pubkey>) -> (r: ExecutionContext)
        ensures
            r.capability_id == capability_id,
            r.session_id@.len() == 0,
            r.session == session,
            r.caller == caller,
            r.compute_limit is None,
            r.input_data@.len() == 0,
    {
        let (timestamp, block_height) = match clock_get() {
            Some(c) => (c.unix_timestamp, c.slot),
            None => (0, 0),
        };
        ExecutionContext {
            capability_id,
            session_id: String::new(),
            session,
            caller,
            timestamp,
            block_height,
            compute_limit: None,
            input_data: Vec::new(),
        }
    }

    /// A context in the session, stamped as `new` stamps one.
    pub fn with_session(capability_id: String, session_id: String, session: Pubkey, caller: Pubkey) -> (r: ExecutionContext)
        ensures
            r.capability_id == capability_id,
            r.session_id == session_id,
            r.session == Some(session),
            r.caller == caller,
            r.compute_limit is None,
            r.input_data@.len() == 0,
    {
        let (timestamp, block_height) = match clock_get() {
            Some(c) => (c.unix_timestamp, c.slot),
            None => (0, 0),
        };
        ExecutionContext {
            capability_id,
            session_id,
            session: Some(session),
            caller,
            timestamp,
            block_height,
            compute_limit: None,
            input_data: Vec::new(),
        }
    }

    /// The context with a compute limit.
    pub fn with_compute_limit(self, limit: u64) -> (r: ExecutionContext)
        ensures
            r == (ExecutionContext { compute_limit: Some(limit), ..self }),
    {
        let mut s = self;
        s.compute_limit = Some(limit);
        s
    }

    /// The context with input data.
    pub fn with_input_data(self, data: Vec<u8>) -> (r: ExecutionContext)
        ensures
            r == (ExecutionContext { input_data: data, ..self }),
    {
        let mut s = self;
        s.input_data = data;
        s
    }
}

impl ExecutionResult {
    /// A successful result without logs.
    pub fn success(output_data: Vec<u8>, gas_used: u64) -> (r: ExecutionResult)
        ensures
            r.success,
            r.output_data == output_data,
            r.gas_used == gas_used,
            r.error_message is None,
            r.logs@.len() == 0,
    {
        ExecutionResult { success: true, output_data, gas_used, error_message: None, logs: Vec::new() }
    }

    /// A failed result with the message, without output or logs.
    pub fn failure(error_message: String, gas_used: u64) -> (r: ExecutionResult)
        ensures
            !r.success,
            r.output_data@.len() == 0,
            r.gas_used == gas_used,
            r.error_message == Some(error_message),
            r.logs@.len() == 0,
    {
        ExecutionResult { success: false, output_data: Vec::new(), gas_used, error_message: Some(error_message), logs: Vec::new() }
    }

    /// Appends a log entry.
    pub fn add_log(&mut self, log: String)
        ensures
            final(self).logs@ == old(self).logs@.push(log),
            *final(self) == (ExecutionResult { logs: final(self).logs, ..*old(self) }),
    {
        self.logs.push(log);
    }
}

impl ExecutionEngine {
    /// Executes the capability: see `execution_outcome`.
    pub fn execute_capability(capability_id: &String, input_data: &Vec<u8>, context: &ExecutionContext) -> (r: Result<ExecutionResult, ValenceError>)
        requires
            input_data@.len() * 15 + 350 <= u64::MAX,
        ensures
            match (r, execution_outcome(capability_id@, input_data@, context.session, context.compute_limit)) {
                (Ok(res), Ok(v)) => result_view(res) == v,
                (Err(e), Err(f)) => e == f,
                _ => false,
            },
    {
        if capability_id.as_str().is_empty() {
            return Err(ValenceError::CapabilityInvalidId);
        }
        match Self::validate_context(context) {
            Ok(()) => {}
            Err(e) => { return Err(e); }
        }
        let gas_limit: u64 = match context.compute_limit {
            Some(l) => l,
            None => DEFAULT_GAS_LIMIT,
        };
        let n = input_data.len() as u64;
        let mut gas_used: u64 = 0;
        gas_used = gas_used + 100;
        gas_used = gas_used + n * 10;
        if gas_used > gas_limit {
            let r = ExecutionResult::failure(owned("Gas limit exceeded"), gas_used);
            assert(result_view(r).logs =~= Seq::<Seq<char>>::empty());
            assert(result_view(r).output =~= Seq::<u8>::empty());
            return Ok(r);
        }
        let mut result = ExecutionResult::success(Vec::new(), gas_used);
        let mut line = owned("Started execution of capability: ");
        line.append(capability_id.as_str());
        result.add_log(line);
        let mut line = owned("Input data size: ");
        push_decimal(&mut line, n);
        line.append(" bytes");
        result.add_log(line);
        gas_used = gas_used + 50;
        let session = match context.session {
            Some(s) => s,
            None => { return Err(ValenceError::ExecutionFailed); }
        };
        let mut line = owned("Executing in session context: ");
        let key = pubkey_base58(&session);
        line.append(key.as_str());
        result.add_log(line);
        gas_used = gas_used + 200;
        result.add_log(owned("Stage 1: Context validation - PASSED"));
        result.add_log(owned("Stage 2: Permission check - PASSED"));
        result.add_log(owned("Stage 3: Resource allocation - PASSED"));
        if n > 0 {
            gas_used = gas_used + n * 5;
            let mut line = owned("Processed ");
            push_decimal(&mut line, n);
            line.append(" bytes of input data");
            result.add_log(line);
            let output_len: usize = if input_data.len() <= 32 { input_data.len() } else { 32 };
            let mut out: Vec<u8> = Vec::new();
            let mut i: usize = 0;
            while i < output_len
                invariant
                    i <= output_len,
                    output_len <= input_data@.len(),
                    out@ == input_data@.take(i as int),
                decreases output_len - i,
            {
                out.push(input_data[i]);
                assert(out@ =~= input_data@.take(i + 1));
                i += 1;
            }
            result.output_data = out;
        } else {
            assert(result.output_data@ =~= input_data@.take(0));
        }
        if gas_used > gas_limit {
            let r = ExecutionResult::failure(owned("Gas limit exceeded during execution"), gas_used);
            assert(result_view(r).logs =~= Seq::<Seq<char>>::empty());
            assert(result_view(r).output =~= Seq::<u8>::empty());
            return Ok(r);
        }
        result.gas_used = gas_used;
        let mut line = owned("Execution completed successfully. Gas used: ");
        push_decimal(&mut line, gas_used);
        result.add_log(line);
        assert(result_view(result).logs =~= execution_logs(capability_id@, input_data@, session.bytes@, total_gas(input_data@.len())));
        Ok(result)
    }

    /// Accepts a context whose session is set and is not the default
    /// address; refused with `ExecutionFailed` otherwise.
    pub fn validate_context(context: &ExecutionContext) -> (r: Result<(), ValenceError>)
        ensures
            session_set(context.session) ==> r is Ok,
            !session_set(context.session) ==> r == Err::<(), ValenceError>(ValenceError::ExecutionFailed),
    {
        match context.session {
            None => Err(ValenceError::ExecutionFailed),
            Some(s) => {
                if s.is_default() {
                    Err(ValenceError::ExecutionFailed)
                } else {
                    Ok(())
                }
            }
        }
    }
}

} // verus!
