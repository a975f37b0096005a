//! A pipelined request handler: every request goes through a chain of
//! middleware, each of which may answer it, change it, hand it on to the rest
//! of the chain, or change the answer that the rest of the chain gave.
//! A fork hands the request to a chain of its own when a predicate holds, or
//! when the path starts with given segments, which it then strips.

pub mod fork;
pub mod handle;
pub mod path;
pub mod pipeline;
pub mod prelude;
pub mod request;

pub use pipeline::{Middleware, Pipeline, PipelineNext};
pub use request::Error;
