//! A typed builder for the workflow files of a continuous integration
//! platform: workflows, jobs, steps and triggers are built by chained
//! setters, rendered to YAML text, and read back from it.

pub mod auto_commit;
pub mod cargo;
pub mod cargo_step;
pub mod codec;
pub mod error;
pub mod event;
pub mod expr;
pub mod generate;
pub mod job;
pub mod laws;
pub mod ordered_map;
pub mod presets;
pub mod rust_flag;
pub mod settings;
pub mod step;
pub mod text;
pub mod toolchain;
pub mod tree;
pub mod version;
pub mod workflow;
pub mod yaml;

pub use crate::codec::Codec;
pub use crate::error::WorkflowError;
pub use crate::event::Event;
pub use crate::job::Job;
pub use crate::job::RunsOn;
pub use crate::ordered_map::OrderedMap;
pub use crate::rust_flag::RustFlags;
pub use crate::settings::Expression;
pub use crate::settings::Permissions;
pub use crate::step::Env;
pub use crate::step::Input;
pub use crate::step::Step;
pub use crate::step::StepValue;
pub use crate::tree::Shape;
pub use crate::tree::Tree;
pub use crate::workflow::EventValue;
pub use crate::workflow::Jobs;
pub use crate::workflow::Workflow;
