//! The inputs and outputs of pure functions, and the context they are
//! evaluated in.

use vstd::prelude::*;
use crate::error::FunctionError;
use crate::pubkey::Pubkey;
use crate::text::{views, contains_string};

verus! {

/// The result of a function.
pub type FunctionResult<T> = Result<T, FunctionError>;

/// The input of a function.
#[derive(Debug)]
pub struct FunctionInput {
    pub function_id: String,
    /// The parameters, encoded.
    pub parameters: Vec<u8>,
    pub eval_context: EvalContext,
    /// The namespaces the function may reach.
    pub namespaces: Vec<String>,
}

/// The output of a function.
#[derive(Debug)]
pub struct FunctionOutput {
    pub function_id: String,
    /// The output, encoded.
    pub data: Vec<u8>,
    pub success: bool,
    pub error_message: Option<String>,
}

/// The context a function is evaluated in.
#[derive(Debug)]
pub struct EvalContext {
    pub block_height: u64,
    pub timestamp: i64,
    /// The signers of the transaction.
    pub signers: Vec<Pubkey>,
    pub fees: TransactionFees,
}

/// The fees of a transaction.
#[derive(Debug, Clone, Copy)]
pub struct TransactionFees {
    pub base_fee: u64,
    pub priority_fee: u64,
}

/// A pure function that checks its inputs and outputs.
pub trait PureFunction {
    /// The kind of function.
    fn function_type(&self) -> String;
    /// The version of its schema.
    fn schema_version(&self) -> String;
    /// Checks an input.
    fn validate_input(&self, input: &FunctionInput) -> FunctionResult<()>;
    /// Checks an output.
    fn validate_output(&self, output: &FunctionOutput) -> FunctionResult<()>;
}

impl EvalContext {
    /// The signers of the transaction.
    pub fn transaction_signers(&self) -> (r: &[Pubkey])
        ensures
            r@ == self.signers@,
    {
        self.signers.as_slice()
    }

    /// The fees of the transaction.
    pub fn transaction_fees(&self) -> (r: &TransactionFees)
        ensures
            *r == self.fees,
    {
        &self.fees
    }
}

impl FunctionInput {
    /// Whether the input may reach the namespace.
    pub fn has_namespace(&self, namespace: &String) -> (r: bool)
        ensures
            r == views(self.namespaces@).contains(namespace@),
    {
        contains_string(&self.namespaces, namespace)
    }

    /// Whether the input may reach the object: it may.
    pub fn can_access_object(&self, _object_id: &String) -> (r: bool)
        ensures
            r,
    {
        true
    }

    /// The block height of the context.
    pub fn block_height(&self) -> (r: u64)
        ensures
            r == self.eval_context.block_height,
    {
        self.eval_context.block_height
    }

    /// The time of the context.
    pub fn timestamp(&self) -> (r: i64)
        ensures
            r == self.eval_context.timestamp,
    {
        self.eval_context.timestamp
    }
}

} // verus!
