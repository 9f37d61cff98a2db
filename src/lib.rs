//! Local blockchain development nodes run as named instances: their on-disk
//! layout, the registry that many processes share, the funding of generated
//! accounts, and the start/stop life cycle that ties them together.
pub mod accounts;
pub mod api;
pub mod chain;
pub mod error;
pub mod funding;
pub mod instance;
pub mod orchestrator;
pub mod paths;
pub mod registry;
pub mod supervisor;
pub mod text;
pub mod validation;
