//! Capabilities: ordering rules between them, execution configuration,
//! namespace scoping and the evaluation rules of a shard.

pub mod ordering_rules;
pub mod scoping;
pub mod eval_rules;
pub mod instructions;
pub mod execution_config;
