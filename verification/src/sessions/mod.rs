//! Sessions: their accounts, their life cycle and their isolation.

pub mod state;

pub mod lifecycle;

pub mod isolation;
pub mod instructions;
