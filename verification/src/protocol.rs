//! The decision protocol and the middleware capability: the tagged result
//! every hook returns, the per-request context handed to every hook, and the
//! four-hook interface a middleware implements.

use vstd::prelude::*;
use crate::message::{Request, ReqV, Response, RespV};
use crate::store::StateStore;

verus! {

/// The contents of the state store, abstractly: a map from a namespace key
/// and a request id to the stored value.
pub type StoreV = Map<(Seq<char>, u64), Seq<char>>;

/// Per-request immutable metadata, created once per call and passed to every
/// hook of that call. The request id is drawn from the service's generator;
/// it need only tell requests apart within one clear-to-clear window of the
/// state store.
pub struct ServiceContext {
    pub remote_addr: String,
    pub req_id: u64,
}

/// The abstract value of a `ServiceContext`.
#[verifier::ext_equal]
pub struct CtxV {
    pub remote_addr: Seq<char>,
    pub req_id: u64,
}

impl View for ServiceContext {
    type V = CtxV;

    open spec fn view(&self) -> CtxV {
        CtxV { remote_addr: self.remote_addr@, req_id: self.req_id }
    }
}

/// An error raised by a hook. The orchestrator converts it into a response at
/// once and treats it like an explicit `RespondWith`; it never surfaces past
/// the orchestrator.
pub struct HookError {
    pub status: u16,
    pub body: String,
}

/// The abstract value of a `HookError`.
#[verifier::ext_equal]
pub struct HookErrorV {
    pub status: u16,
    pub body: Seq<char>,
}

impl View for HookError {
    type V = HookErrorV;

    open spec fn view(&self) -> HookErrorV {
        HookErrorV { status: self.status, body: self.body@ }
    }
}

/// A failure to obtain any response from upstream, as the connection layer
/// reported it. Distinct from an HTTP error status, which is a normal
/// response.
pub struct TransportError {
    pub message: String,
}

/// The abstract value of a `TransportError`.
#[verifier::ext_equal]
pub struct TransportErrorV {
    pub message: Seq<char>,
}

impl View for TransportError {
    type V = TransportErrorV;

    open spec fn view(&self) -> TransportErrorV {
        TransportErrorV { message: self.message@ }
    }
}

/// What a hook decided: continue the pipeline, or replace the current
/// response (for `before_request`, also skip upstream dispatch).
pub enum Decision {
    Next,
    RespondWith(Response),
}

/// A hook's outcome, abstractly: continue, replace the response, or fail.
/// The orchestrator treats `Fail` exactly like `Respond` with the error's
/// response.
pub enum HookOut {
    Next,
    Respond(RespV),
    Fail(HookErrorV),
}

/// The abstract outcome of a hook's return value.
pub open spec fn hook_out_of(r: Result<Decision, HookError>) -> HookOut {
    match r {
        Ok(Decision::Next) => HookOut::Next,
        Ok(Decision::RespondWith(resp)) => HookOut::Respond(resp@),
        Err(e) => HookOut::Fail(e@),
    }
}

/// The response that stands in for a hook error: the error's status and body.
pub open spec fn spec_error_response(e: HookErrorV) -> RespV {
    RespV { status: e.status, headers: Seq::empty(), body: e.body }
}

/// The response a hook error is converted into: the error's status and body.
pub fn error_response(e: HookError) -> (r: Response)
    ensures
        r@ == spec_error_response(e@),
{
    let ghost ev = e@;
    let r = Response { status: e.status, headers: Vec::new(), body: e.body };
    proof {
        assert(r@.headers =~= Seq::<crate::message::HeaderV>::empty());
        assert(r@ =~= spec_error_response(ev));
    }
    r
}

/// The abstract value of an optional response.
pub open spec fn opt_view(o: Option<Response>) -> Option<RespV> {
    match o {
        Some(r) => Some(r@),
        None => None,
    }
}

/// What a `before_request` hook did: the possibly rewritten request, the new
/// store contents, and the hook's outcome.
#[verifier::ext_equal]
pub struct BeforeStep {
    pub req: ReqV,
    pub store: StoreV,
    pub out: HookOut,
}

/// What a `request_success` hook did: the possibly rewritten response, the
/// new store contents, and the hook's outcome.
#[verifier::ext_equal]
pub struct SuccessStep {
    pub resp: RespV,
    pub store: StoreV,
    pub out: HookOut,
}

/// What an `after_request` hook did: the possibly rewritten response, the new
/// store contents, and the hook's outcome.
#[verifier::ext_equal]
pub struct AfterStep {
    pub resp: Option<RespV>,
    pub store: StoreV,
    pub out: HookOut,
}

/// The four-hook middleware capability.
///
/// Each hook's behavior is pinned by a spec function of the same inputs, so
/// the orchestrator's contract can state the whole pipeline as a fold of
/// those functions over the chain. Hooks share data between phases of one
/// request through the state store; they take the middleware itself by shared
/// reference.
pub trait Middleware: Sized {
    /// What `before_request` does, as a function of the request, the context
    /// and the store.
    spec fn before_spec(&self, req: ReqV, ctx: CtxV, st: StoreV) -> BeforeStep;

    /// What `request_success` does, as a function of the upstream response,
    /// the context and the store.
    spec fn success_spec(&self, resp: RespV, ctx: CtxV, st: StoreV) -> SuccessStep;

    /// What `request_failure` does to the store. Its return value is
    /// observational only, so only the store effect is specified.
    spec fn failure_spec(&self, err: TransportErrorV, ctx: CtxV, st: StoreV) -> StoreV;

    /// What `after_request` does, as a function of the response so far (if
    /// any), the context and the store.
    spec fn after_spec(&self, resp: Option<RespV>, ctx: CtxV, st: StoreV) -> AfterStep;

    /// `after_request` may rewrite the response it is handed, but cannot
    /// create or discard one through the reference; only its returned
    /// decision can replace the response.
    proof fn after_spec_keeps_presence(&self, resp: Option<RespV>, ctx: CtxV, st: StoreV)
        ensures
            (self.after_spec(resp, ctx, st).resp is Some) <==> (resp is Some),
    ;

    /// Observe and possibly rewrite the request before upstream dispatch.
    /// Returning `RespondWith` or an error short-circuits the pipeline.
    fn before_request(&self, req: &mut Request, ctx: &ServiceContext, state: &mut StateStore)
        -> (r: Result<Decision, HookError>)
        ensures
            ({
                let step = self.before_spec(old(req)@, ctx@, old(state)@);
                final(req)@ == step.req
                    && final(state)@ == step.store
                    && hook_out_of(r) == step.out
            }),
    ;

    /// Observe and possibly rewrite the response after a successful upstream
    /// call; later middlewares see the response as this one left it.
    fn request_success(&self, resp: &mut Response, ctx: &ServiceContext, state: &mut StateStore)
        -> (r: Result<Decision, HookError>)
        ensures
            ({
                let step = self.success_spec(old(resp)@, ctx@, old(state)@);
                final(resp)@ == step.resp
                    && final(state)@ == step.store
                    && hook_out_of(r) == step.out
            }),
    ;

    /// Observe a failed upstream call. The request cannot be recovered here;
    /// an error returned from this hook is dropped, never propagated.
    fn request_failure(&self, err: &TransportError, ctx: &ServiceContext, state: &mut StateStore)
        -> (r: Result<(), HookError>)
        ensures
            final(state)@ == self.failure_spec(err@, ctx@, old(state)@),
    ;

    /// Runs exactly once per request, whatever path the request took. The
    /// response is present unless the path was failure with no recovery so
    /// far; this is the place for cleanup, metrics, and recovery.
    fn after_request(&self, resp: &mut Option<Response>, ctx: &ServiceContext, state: &mut StateStore)
        -> (r: Result<Decision, HookError>)
        ensures
            ({
                let step = self.after_spec(opt_view(*old(resp)), ctx@, old(state)@);
                opt_view(*final(resp)) == step.resp
                    && final(state)@ == step.store
                    && hook_out_of(r) == step.out
            }),
    ;
}

} // verus!
