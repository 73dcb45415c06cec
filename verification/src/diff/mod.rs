//! State differencing: diff operations, their computation, application and optimization.

pub mod instructions;
pub mod diff_calculator;
pub mod optimizer;
pub mod state;
