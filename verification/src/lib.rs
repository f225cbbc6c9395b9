//! A policy evaluation engine: patterns are matched against runtime values,
//! producing an explanation tree (a rationale) alongside the verdict, so that
//! both the outcome and the reason for it can be rendered and audited.
#![verifier::loop_isolation(false)]

pub mod config;
pub mod eval;
pub mod format;
pub mod laws;
pub mod maven;
pub mod protocol;
pub mod rationale;
pub mod render;
pub mod trusted;
pub mod report;
pub mod response;
pub mod value;

pub use config::Of;
pub use eval::{evaluate, FunctionHolder, Pattern, World};
pub use format::Format;
pub use maven::GAV;
pub use protocol::{Binding, Bindings, EngineFault, ExecutionContext, Function};
pub use rationale::{EvaluationResult, Rationale, Severity};
pub use render::FormatError;
pub use report::{reason, support, Report};
pub use response::Response;
pub use value::Value;
