//! Scheduling of capability executions across shards.

pub mod dependency_graph;
pub mod partial_order_composer;
pub mod topological_scheduler;
pub mod state;
pub mod instructions;
pub mod ordering_coordinator;
pub mod priority_engine;
pub mod resource_allocator;
pub mod queue_manager;
pub mod session_queue;
