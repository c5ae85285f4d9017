//! A small catalogue of middlewares over the four-hook capability: header
//! gatekeeping, phase logging, failure recovery, state probing and hit
//! counting. Each hook is proved to match its specification, so chains built
//! from these enjoy the orchestrator's contracts in full.

use vstd::prelude::*;
use crate::message::{spec_has_header, spec_plain_response, Response};
use crate::protocol::{
    AfterStep, BeforeStep, CtxV, Decision, HookError, HookErrorV, HookOut, Middleware,
    ServiceContext, StoreV, SuccessStep, TransportError, TransportErrorV,
};
use crate::message::{Header, HeaderV, Request, ReqV, RespV};
use crate::store::StateStore;

verus! {

/// A middleware from the built-in catalogue.
pub enum BuiltinMiddleware {
    /// Short-circuits with 401 any request that lacks the named header.
    Auth { header: String },
    /// Marks each phase it observes in the state store, under the keys
    /// `log.before`, `log.success`, `log.failure` and `log.after`.
    Log,
    /// On the failure path, synthesizes a response with the given status in
    /// `after_request`; in `request_failure` it records the transport
    /// error's message under `recover.error`.
    Recover { status: u16 },
    /// Records the request method under its key in `before_request`, and in
    /// `request_success` and `request_failure` reads that binding back:
    /// the success hook replies with the recorded value as the body, the
    /// failure hook re-records it under `probe.seen` (or `missing`).
    Probe { key: String },
    /// Records a hit (`"1"`) under its key in `before_request`.
    Counter { key: String },
    /// Fails `before_request` with a hook error of the given status; the
    /// orchestrator converts it into a response and short-circuits.
    Deny { status: u16 },
    /// Appends its header to the request in `before_request` and to the
    /// response in `request_success`.
    Tag { name: String, value: String },
}

impl Middleware for BuiltinMiddleware {
    open spec fn before_spec(&self, req: ReqV, ctx: CtxV, st: StoreV) -> BeforeStep {
        match self {
            BuiltinMiddleware::Auth { header } => if spec_has_header(req, header@) {
                BeforeStep { req, store: st, out: HookOut::Next }
            } else {
                BeforeStep {
                    req,
                    store: st,
                    out: HookOut::Respond(spec_plain_response(401, "unauthorized"@)),
                }
            },
            BuiltinMiddleware::Log => BeforeStep {
                req,
                store: st.insert(("log.before"@, ctx.req_id), "1"@),
                out: HookOut::Next,
            },
            BuiltinMiddleware::Recover { .. } => BeforeStep { req, store: st, out: HookOut::Next },
            BuiltinMiddleware::Probe { key } => BeforeStep {
                req,
                store: st.insert((key@, ctx.req_id), req.method),
                out: HookOut::Next,
            },
            BuiltinMiddleware::Counter { key } => BeforeStep {
                req,
                store: st.insert((key@, ctx.req_id), "1"@),
                out: HookOut::Next,
            },
            BuiltinMiddleware::Deny { status } => BeforeStep {
                req,
                store: st,
                out: HookOut::Fail(HookErrorV { status: *status, body: "denied"@ }),
            },
            BuiltinMiddleware::Tag { name, value } => BeforeStep {
                req: ReqV {
                    method: req.method,
                    uri: req.uri,
                    headers: req.headers.push(HeaderV { name: name@, value: value@ }),
                    body: req.body,
                },
                store: st,
                out: HookOut::Next,
            },
        }
    }

    open spec fn success_spec(&self, resp: RespV, ctx: CtxV, st: StoreV) -> SuccessStep {
        match self {
            BuiltinMiddleware::Log => SuccessStep {
                resp,
                store: st.insert(("log.success"@, ctx.req_id), "1"@),
                out: HookOut::Next,
            },
            BuiltinMiddleware::Probe { key } => if st.dom().contains((key@, ctx.req_id)) {
                SuccessStep {
                    resp,
                    store: st,
                    out: HookOut::Respond(
                        spec_plain_response(200, st[(key@, ctx.req_id)]),
                    ),
                }
            } else {
                SuccessStep { resp, store: st, out: HookOut::Next }
            },
            BuiltinMiddleware::Tag { name, value } => SuccessStep {
                resp: RespV {
                    status: resp.status,
                    headers: resp.headers.push(HeaderV { name: name@, value: value@ }),
                    body: resp.body,
                },
                store: st,
                out: HookOut::Next,
            },
            _ => SuccessStep { resp, store: st, out: HookOut::Next },
        }
    }

    open spec fn failure_spec(&self, err: TransportErrorV, ctx: CtxV, st: StoreV) -> StoreV {
        match self {
            BuiltinMiddleware::Log => st.insert(("log.failure"@, ctx.req_id), "1"@),
            BuiltinMiddleware::Recover { .. } => st.insert(
                ("recover.error"@, ctx.req_id),
                err.message,
            ),
            BuiltinMiddleware::Probe { key } => if st.dom().contains((key@, ctx.req_id)) {
                st.insert(("probe.seen"@, ctx.req_id), st[(key@, ctx.req_id)])
            } else {
                st.insert(("probe.seen"@, ctx.req_id), "missing"@)
            },
            _ => st,
        }
    }

    open spec fn after_spec(&self, resp: Option<RespV>, ctx: CtxV, st: StoreV) -> AfterStep {
        match self {
            BuiltinMiddleware::Auth { .. } => AfterStep {
                resp,
                store: st.insert(("auth.after"@, ctx.req_id), "1"@),
                out: HookOut::Next,
            },
            BuiltinMiddleware::Log => AfterStep {
                resp,
                store: st.insert(("log.after"@, ctx.req_id), "1"@),
                out: HookOut::Next,
            },
            BuiltinMiddleware::Recover { status } => if resp is None {
                AfterStep {
                    resp,
                    store: st,
                    out: HookOut::Respond(spec_plain_response(*status, "recovered"@)),
                }
            } else {
                AfterStep { resp, store: st, out: HookOut::Next }
            },
            _ => AfterStep { resp, store: st, out: HookOut::Next },
        }
    }

    proof fn after_spec_keeps_presence(&self, resp: Option<RespV>, ctx: CtxV, st: StoreV) {
    }

    fn before_request(&self, req: &mut Request, ctx: &ServiceContext, state: &mut StateStore)
        -> (r: Result<Decision, HookError>)
    {
        match self {
            BuiltinMiddleware::Auth { header } => {
                if req.has_header(header.as_str()) {
                    Ok(Decision::Next)
                } else {
                    Ok(Decision::RespondWith(Response::plain(401, "unauthorized")))
                }
            },
            BuiltinMiddleware::Log => {
                state.set("log.before", ctx.req_id, "1");
                Ok(Decision::Next)
            },
            BuiltinMiddleware::Recover { .. } => Ok(Decision::Next),
            BuiltinMiddleware::Probe { key } => {
                state.set(key.as_str(), ctx.req_id, req.method.as_str());
                Ok(Decision::Next)
            },
            BuiltinMiddleware::Counter { key } => {
                state.set(key.as_str(), ctx.req_id, "1");
                Ok(Decision::Next)
            },
            BuiltinMiddleware::Deny { status } => {
                Err(HookError { status: *status, body: "denied".to_owned() })
            },
            BuiltinMiddleware::Tag { name, value } => {
                req.headers.push(Header { name: name.clone(), value: value.clone() });
                proof {
                    assert(req@.headers =~= old(req)@.headers.push(
                        HeaderV { name: name@, value: value@ },
                    ));
                }
                Ok(Decision::Next)
            },
        }
    }

    fn request_success(&self, resp: &mut Response, ctx: &ServiceContext, state: &mut StateStore)
        -> (r: Result<Decision, HookError>)
    {
        match self {
            BuiltinMiddleware::Log => {
                state.set("log.success", ctx.req_id, "1");
                Ok(Decision::Next)
            },
            BuiltinMiddleware::Probe { key } => {
                match state.get(key.as_str(), ctx.req_id) {
                    Some(v) => Ok(Decision::RespondWith(Response::plain(200, v.as_str()))),
                    None => Ok(Decision::Next),
                }
            },
            BuiltinMiddleware::Tag { name, value } => {
                resp.headers.push(Header { name: name.clone(), value: value.clone() });
                proof {
                    assert(resp@.headers =~= old(resp)@.headers.push(
                        HeaderV { name: name@, value: value@ },
                    ));
                }
                Ok(Decision::Next)
            },
            _ => Ok(Decision::Next),
        }
    }

    fn request_failure(&self, err: &TransportError, ctx: &ServiceContext, state: &mut StateStore)
        -> (r: Result<(), HookError>)
    {
        match self {
            BuiltinMiddleware::Log => {
                state.set("log.failure", ctx.req_id, "1");
                Ok(())
            },
            BuiltinMiddleware::Recover { .. } => {
                state.set("recover.error", ctx.req_id, err.message.as_str());
                Ok(())
            },
            BuiltinMiddleware::Probe { key } => {
                match state.get(key.as_str(), ctx.req_id) {
                    Some(v) => state.set("probe.seen", ctx.req_id, v.as_str()),
                    None => state.set("probe.seen", ctx.req_id, "missing"),
                }
                Ok(())
            },
            _ => Ok(()),
        }
    }

    fn after_request(&self, resp: &mut Option<Response>, ctx: &ServiceContext, state: &mut StateStore)
        -> (r: Result<Decision, HookError>)
    {
        match self {
            BuiltinMiddleware::Auth { .. } => {
                state.set("auth.after", ctx.req_id, "1");
                Ok(Decision::Next)
            },
            BuiltinMiddleware::Log => {
                state.set("log.after", ctx.req_id, "1");
                Ok(Decision::Next)
            },
            BuiltinMiddleware::Recover { status } => {
                if resp.is_none() {
                    Ok(Decision::RespondWith(Response::plain(*status, "recovered")))
                } else {
                    Ok(Decision::Next)
                }
            },
            _ => Ok(Decision::Next),
        }
    }
}

} // verus!
