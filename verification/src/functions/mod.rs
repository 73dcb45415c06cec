//! Pure functions of the protocol: their inputs and outputs, verification
//! functions, and the composition of functions into chains and aggregations.

pub mod types;
pub mod verification;
pub mod execution;
pub mod instructions;
pub mod registry;
