//! Orchestration core of a tool that runs WildFly application servers in
//! containers: it resolves a selection of versions into uniquely named
//! instances, parses server placements, plans bounded-concurrency execution
//! and summarises the outcomes.
pub mod container;
pub mod executor;
pub mod progress;
pub mod server;
pub mod summary;
pub mod text;
pub mod topology;
pub mod wildfly;
