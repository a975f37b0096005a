//! The types that building and running a pipeline needs.

pub use crate::handle::{Handle, Process};
pub use crate::pipeline::{Fork, Middleware, Pipeline, PipelineNext};
pub use crate::request::{Method, PipelineError, PipelineResult, Request, Response};
