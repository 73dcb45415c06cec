//! The processor: the execution of capabilities, their contexts, and the
//! chain of verification functions run before them.

pub mod execution_engine;
pub mod context_builder;
pub mod verification_orchestrator;
pub mod state;
pub mod instructions;
