//! Staging and recovery of per-dispatch values for script contexts.
//!
//! A context factory builds a value for each script dispatch, stages it under a fresh
//! invoke id, and hands the handler a context labelled `invoke:<id>|<actor>`. The handler
//! recovers the value, once, from that label.
pub mod context;
pub mod error;
pub mod label;
pub mod stage;

pub use context::{
    actor_label, dispatch_context, stage_built, stage_dispatch, ValenceScriptContext,
    ValenceScriptContextFactory,
};
pub use error::InvokeError;
pub use label::{invoke_label, parse_invoke_id};
pub use stage::{valence_from_context, InvokeStage};
