//! An HTTP interception pipeline: ordered middleware hooks observe and
//! rewrite requests and responses, share per-request state, and may
//! short-circuit a request before it reaches the upstream client.
//!
//! One call runs: clear the state store, draw a request id, the before phase
//! (which may halt), then either the after phase at once (short-circuit) or —
//! once the caller has dispatched upstream — the success or failure phase
//! followed by the after phase. The meaning of every phase is a fold of the
//! middlewares' hook specifications over the chain, so the orchestrator's
//! contracts pin the response, the store and the error flow exactly; the
//! ordering, exactly-once and state-visibility guarantees are proved in
//! `laws`.
//!
//! A service instance owns its chain and store. Scoping one instance per
//! connection keeps the clear-at-start-of-call memory bound and removes the
//! race a store shared across connections would have between one
//! connection's clear and another's in-flight request.

mod builtin;
mod laws;
mod message;
mod pipeline;
mod protocol;
mod store;

pub use builtin::BuiltinMiddleware;
pub use laws::{after_keeps, failure_keeps, index_run, success_keeps};
pub use laws::{
    lemma_after_none_fires_each_once, lemma_after_with_fires_each_once,
    lemma_before_fires_in_order, lemma_before_state_reaches_end_of_request,
    lemma_failure_fires_each_once, lemma_short_circuit_confines,
    lemma_state_visible_after_none, lemma_state_visible_after_with,
    lemma_state_visible_failure, lemma_state_visible_success,
    lemma_success_fires_each_once,
};
pub use message::{spec_has_header, spec_plain_response};
pub use message::{Header, HeaderV, ReqV, Request, RespV, Response};
pub use pipeline::{run_after_none, run_after_with, run_before, run_failure, run_success};
pub use pipeline::{AfterPhase, BeforePhase, FailurePhase, RecoverPhase, SuccessPhase};
pub use pipeline::{BeginOutcome, ProxyService};
pub use protocol::{error_response, hook_out_of, opt_view, spec_error_response};
pub use protocol::{AfterStep, BeforeStep, SuccessStep};
pub use protocol::{CtxV, Decision, HookError, HookErrorV, HookOut, Middleware, ServiceContext};
pub use protocol::{StoreV, TransportError, TransportErrorV};
pub use store::StateStore;
