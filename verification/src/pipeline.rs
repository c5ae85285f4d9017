//! The per-request orchestrator. It clears the state store, assigns a request
//! id, drives the request through the middleware phases in registration
//! order, and reconciles success, failure and short-circuit outcomes.
//!
//! Upstream dispatch is the caller's job: `begin_request` either finishes the
//! request itself (short-circuit) or hands back the request to dispatch, and
//! `finish_request` folds the upstream outcome through the remaining phases.
//! The meaning of each phase is given by the `run_*` spec functions: folds of
//! the middlewares' hook specifications over the chain, which also record
//! which middlewares fired, in order.
//!
//! The chain and the store belong to one service instance. An instance is
//! owned, not shared: scoping one instance per connection removes the race a
//! service-wide store would have between one connection's clear and another's
//! in-flight request, at the price of per-connection state only.

use vstd::prelude::*;
use rand::rngs::SmallRng;
use rand::RngCore;
use rand::SeedableRng;
use crate::message::{Request, ReqV, Response, RespV};
use crate::protocol::{
    CtxV, Decision, HookOut, Middleware, ServiceContext, StoreV, TransportError,
    opt_view, spec_error_response,
};
use crate::store::StateStore;

verus! {

#[verifier::external_type_specification]
#[verifier::external_body]
pub struct ExSmallRng(SmallRng);

/// Relies on rand's `SmallRng::from_entropy` for a generator seeded from the
/// operating system; nothing is assumed about the seed or the stream. It
/// aborts the process if the operating system's entropy source fails.
#[verifier::external_body]
fn fresh_rng() -> SmallRng {
    SmallRng::from_entropy()
}

/// Relies on rand's `RngCore::next_u64`. The id drawn is arbitrary — a
/// pseudorandom generator may even repeat — so nothing is promised of the
/// value; every contract downstream holds for every id.
#[verifier::external_body]
fn draw_request_id(rng: &mut SmallRng) -> u64 {
    rng.next_u64()
}

/// The before phase from middleware `i` on: the request and store as the
/// phase leaves them, the short-circuit response if some hook halted the
/// phase, and the indices of the middlewares whose hook fired, in order.
#[verifier::ext_equal]
pub struct BeforePhase {
    pub req: ReqV,
    pub store: StoreV,
    pub halt: Option<RespV>,
    pub fired: Seq<int>,
}

/// The before phase: each middleware's `before_spec` in turn, stopping at the
/// first that answers `Respond` or `Fail` (a failure halts exactly like an
/// explicit response, with the error's response).
pub open spec fn run_before<M: Middleware>(mws: Seq<M>, i: int, req: ReqV, ctx: CtxV, st: StoreV)
    -> BeforePhase
    decreases mws.len() - i,
{
    if i < 0 || i >= mws.len() {
        BeforePhase { req, store: st, halt: None, fired: Seq::empty() }
    } else {
        let step = mws[i].before_spec(req, ctx, st);
        match step.out {
            HookOut::Next => {
                let rest = run_before(mws, i + 1, step.req, ctx, step.store);
                BeforePhase {
                    req: rest.req,
                    store: rest.store,
                    halt: rest.halt,
                    fired: seq![i] + rest.fired,
                }
            },
            HookOut::Respond(r) => BeforePhase {
                req: step.req,
                store: step.store,
                halt: Some(r),
                fired: seq![i],
            },
            HookOut::Fail(e) => BeforePhase {
                req: step.req,
                store: step.store,
                halt: Some(spec_error_response(e)),
                fired: seq![i],
            },
        }
    }
}

/// The success phase from middleware `i` on: the response and store as the
/// phase leaves them, and the indices fired, in order.
#[verifier::ext_equal]
pub struct SuccessPhase {
    pub resp: RespV,
    pub store: StoreV,
    pub fired: Seq<int>,
}

/// The success phase: every middleware's `success_spec` in turn. A hook that
/// answers `Respond` or `Fail` replaces the response; the phase never stops
/// early, and later middlewares observe the response as earlier ones left it.
pub open spec fn run_success<M: Middleware>(mws: Seq<M>, i: int, resp: RespV, ctx: CtxV, st: StoreV)
    -> SuccessPhase
    decreases mws.len() - i,
{
    if i < 0 || i >= mws.len() {
        SuccessPhase { resp, store: st, fired: Seq::empty() }
    } else {
        let step = mws[i].success_spec(resp, ctx, st);
        let next = match step.out {
            HookOut::Next => step.resp,
            HookOut::Respond(r) => r,
            HookOut::Fail(e) => spec_error_response(e),
        };
        let rest = run_success(mws, i + 1, next, ctx, step.store);
        SuccessPhase { resp: rest.resp, store: rest.store, fired: seq![i] + rest.fired }
    }
}

/// The failure phase from middleware `i` on: the store as the phase leaves
/// it, and the indices fired, in order.
#[verifier::ext_equal]
pub struct FailurePhase {
    pub store: StoreV,
    pub fired: Seq<int>,
}

/// The failure phase: every middleware's `failure_spec` in turn, best-effort;
/// hook errors are dropped, so only the store threads through.
pub open spec fn run_failure<M: Middleware>(
    mws: Seq<M>,
    i: int,
    err: crate::protocol::TransportErrorV,
    ctx: CtxV,
    st: StoreV,
) -> FailurePhase
    decreases mws.len() - i,
{
    if i < 0 || i >= mws.len() {
        FailurePhase { store: st, fired: Seq::empty() }
    } else {
        let st2 = mws[i].failure_spec(err, ctx, st);
        let rest = run_failure(mws, i + 1, err, ctx, st2);
        FailurePhase { store: rest.store, fired: seq![i] + rest.fired }
    }
}

/// The after phase, with a response present, from middleware `i` on.
#[verifier::ext_equal]
pub struct AfterPhase {
    pub resp: RespV,
    pub store: StoreV,
    pub fired: Seq<int>,
}

/// The after phase on the success and short-circuit paths: every
/// middleware's `after_spec` in turn, each handed the response as earlier
/// ones left it; `Respond` and `Fail` replace it.
pub open spec fn run_after_with<M: Middleware>(mws: Seq<M>, i: int, resp: RespV, ctx: CtxV, st: StoreV)
    -> AfterPhase
    decreases mws.len() - i,
{
    if i < 0 || i >= mws.len() {
        AfterPhase { resp, store: st, fired: Seq::empty() }
    } else {
        let step = mws[i].after_spec(Some(resp), ctx, st);
        let cur = match step.resp {
            Some(r) => r,
            None => resp,
        };
        let next = match step.out {
            HookOut::Next => cur,
            HookOut::Respond(r) => r,
            HookOut::Fail(e) => spec_error_response(e),
        };
        let rest = run_after_with(mws, i + 1, next, ctx, step.store);
        AfterPhase { resp: rest.resp, store: rest.store, fired: seq![i] + rest.fired }
    }
}

/// The after phase on the failure path, from middleware `i` on: the store,
/// the recovery response if any hook supplied one, and the indices fired.
#[verifier::ext_equal]
pub struct RecoverPhase {
    pub store: StoreV,
    pub recovered: Option<RespV>,
    pub fired: Seq<int>,
}

/// The after phase on the failure path: every middleware's `after_spec` in
/// turn, each handed no response — recovery does not change what later hooks
/// see — while the last `Respond` or `Fail` answer, if any, becomes the
/// recovery response.
pub open spec fn run_after_none<M: Middleware>(
    mws: Seq<M>,
    i: int,
    ctx: CtxV,
    st: StoreV,
    recovered: Option<RespV>,
) -> RecoverPhase
    decreases mws.len() - i,
{
    if i < 0 || i >= mws.len() {
        RecoverPhase { store: st, recovered, fired: Seq::empty() }
    } else {
        let step = mws[i].after_spec(None, ctx, st);
        let rec = match step.out {
            HookOut::Next => recovered,
            HookOut::Respond(r) => Some(r),
            HookOut::Fail(e) => Some(spec_error_response(e)),
        };
        let rest = run_after_none(mws, i + 1, ctx, step.store, rec);
        RecoverPhase { store: rest.store, recovered: rest.recovered, fired: seq![i] + rest.fired }
    }
}

/// What `begin_request` decided: hand the (possibly rewritten) request to the
/// upstream client, or — after a short-circuit — the finished response. In
/// the `Done` case upstream dispatch must not happen; the request is over.
pub enum BeginOutcome {
    Forward { req: Request, ctx: ServiceContext },
    Done { resp: Response, ctx: ServiceContext },
}

/// One service instance: the ordered middleware chain, the state store, the
/// connection's remote address, and the request-id generator.
pub struct ProxyService<M: Middleware> {
    middlewares: Vec<M>,
    state: StateStore,
    remote_addr: String,
    rng: SmallRng,
}

impl<M: Middleware> ProxyService<M> {
    /// The middleware chain, in registration order. It is never reordered;
    /// every phase iterates it front to back.
    pub closed spec fn chain(&self) -> Seq<M> {
        self.middlewares@
    }

    /// The current contents of the state store.
    pub closed spec fn store_view(&self) -> StoreV {
        self.state@
    }

    /// The remote address every context of this service carries.
    pub closed spec fn addr(&self) -> Seq<char> {
        self.remote_addr@
    }

    /// A service over the given chain and remote address, with an empty
    /// store and a fresh id generator.
    pub fn new(middlewares: Vec<M>, remote_addr: String) -> (r: Self)
        ensures
            r.chain() == middlewares@,
            r.addr() == remote_addr@,
            r.store_view() == Map::<(Seq<char>, u64), Seq<char>>::empty(),
    {
        ProxyService { middlewares, state: StateStore::new(), remote_addr, rng: fresh_rng() }
    }

    /// Drop all state. Runs at the start of every call, which bounds memory
    /// across a keep-alive connection issuing many requests.
    pub fn clear_state(&mut self)
        ensures
            final(self).chain() == old(self).chain(),
            final(self).addr() == old(self).addr(),
            final(self).store_view() == Map::<(Seq<char>, u64), Seq<char>>::empty(),
    {
        self.state.clear();
    }

    /// Look up a value in the state store.
    pub fn state_get(&self, key: &str, req_id: u64) -> (r: Option<String>)
        ensures
            match r {
                Some(v) => self.store_view().dom().contains((key@, req_id))
                    && v@ == self.store_view()[(key@, req_id)],
                None => !self.store_view().dom().contains((key@, req_id)),
            },
    {
        self.state.get(key, req_id)
    }

    /// The opening steps of a call: clear the store, draw a fresh request id,
    /// build the context, and run the before phase. If some middleware
    /// short-circuited, the after phase runs here too, over the full chain,
    /// and the finished response comes back as `Done` — upstream dispatch is
    /// bypassed entirely. Otherwise `Forward` hands back the request as the
    /// before phase left it, to be dispatched and then given to
    /// `finish_request` together with the same context.
    pub fn begin_request(&mut self, req: Request) -> (r: BeginOutcome)
        ensures
            final(self).chain() == old(self).chain(),
            final(self).addr() == old(self).addr(),
            match r {
                BeginOutcome::Forward { req: fwd, ctx } => ({
                    let bp = run_before(
                        old(self).chain(), 0, req@, ctx@,
                        Map::<(Seq<char>, u64), Seq<char>>::empty(),
                    );
                    ctx@.remote_addr == old(self).addr()
                        && bp.halt is None
                        && fwd@ == bp.req
                        && final(self).store_view() == bp.store
                }),
                BeginOutcome::Done { resp, ctx } => ({
                    let bp = run_before(
                        old(self).chain(), 0, req@, ctx@,
                        Map::<(Seq<char>, u64), Seq<char>>::empty(),
                    );
                    ctx@.remote_addr == old(self).addr()
                        && bp.halt is Some
                        && ({
                            let ap = run_after_with(
                                old(self).chain(), 0, bp.halt->Some_0, ctx@, bp.store,
                            );
                            resp@ == ap.resp && final(self).store_view() == ap.store
                        })
                }),
            },
    {
        self.state.clear();
        let req_id = draw_request_id(&mut self.rng);
        let ctx = ServiceContext { remote_addr: self.remote_addr.clone(), req_id };
        let ghost chain = self.middlewares@;
        let ghost addr0 = self.remote_addr@;
        let ghost cv = ctx@;
        let ghost req0 = req@;
        let mut cur_req = req;
        let mut halted: Option<Response> = None;
        let n = self.middlewares.len();
        let mut i: usize = 0;
        while i < n && halted.is_none()
            invariant
                n == chain.len(),
                chain == self.middlewares@,
                addr0 == self.remote_addr@,
                cv == ctx@,
                i <= n,
                ({
                    let full = run_before(
                        chain, 0, req0, cv, Map::<(Seq<char>, u64), Seq<char>>::empty(),
                    );
                    match halted {
                        None => ({
                            let rest = run_before(chain, i as int, cur_req@, cv, self.state@);
                            full.req == rest.req
                                && full.store == rest.store
                                && full.halt == rest.halt
                        }),
                        Some(h) => full.halt == Some(h@) && full.store == self.state@,
                    }
                }),
            decreases n - i + (if halted is Some { 0int } else { 1int }),
        {
            let outcome = self.middlewares[i].before_request(&mut cur_req, &ctx, &mut self.state);
            match outcome {
                Ok(Decision::Next) => {
                    i = i + 1;
                },
                Ok(Decision::RespondWith(resp)) => {
                    halted = Some(resp);
                },
                Err(e) => {
                    halted = Some(crate::protocol::error_response(e));
                },
            }
        }
        match halted {
            None => BeginOutcome::Forward { req: cur_req, ctx },
            Some(h) => {
                let ghost bp = run_before(
                    chain, 0, req0, cv, Map::<(Seq<char>, u64), Seq<char>>::empty(),
                );
                let ghost h0 = bp.halt->Some_0;
                let ghost st0 = bp.store;
                let mut cur: Option<Response> = Some(h);
                let mut j: usize = 0;
                while j < n
                    invariant
                        n == chain.len(),
                        chain == self.middlewares@,
                        addr0 == self.remote_addr@,
                        cv == ctx@,
                        j <= n,
                        cur is Some,
                        ({
                            let full = run_after_with(chain, 0, h0, cv, st0);
                            let rest = run_after_with(
                                chain, j as int, cur->Some_0@, cv, self.state@,
                            );
                            full.resp == rest.resp && full.store == rest.store
                        }),
                    decreases n - j,
                {
                    proof {
                        chain[j as int].after_spec_keeps_presence(
                            opt_view(cur), cv, self.state@,
                        );
                    }
                    let outcome = self.middlewares[j].after_request(&mut cur, &ctx, &mut self.state);
                    match outcome {
                        Ok(Decision::Next) => {},
                        Ok(Decision::RespondWith(resp)) => {
                            cur = Some(resp);
                        },
                        Err(e) => {
                            cur = Some(crate::protocol::error_response(e));
                        },
                    }
                    j = j + 1;
                }
                let resp = cur.unwrap();
                BeginOutcome::Done { resp, ctx }
            },
        }
    }

    /// The closing steps of a call, given the upstream outcome for the
    /// context that `begin_request` handed out. On success the success phase
    /// runs, then the after phase with the response. On failure the failure
    /// phase runs best-effort, then the after phase with no response; the
    /// result is a recovery response if some middleware supplied one, else
    /// the original transport error, unchanged.
    pub fn finish_request(&mut self, outcome: Result<Response, TransportError>, ctx: ServiceContext)
        -> (r: Result<Response, TransportError>)
        ensures
            final(self).chain() == old(self).chain(),
            final(self).addr() == old(self).addr(),
            match outcome {
                Ok(resp) => ({
                    let sp = run_success(old(self).chain(), 0, resp@, ctx@, old(self).store_view());
                    let ap = run_after_with(old(self).chain(), 0, sp.resp, ctx@, sp.store);
                    r is Ok && r->Ok_0@ == ap.resp && final(self).store_view() == ap.store
                }),
                Err(e) => ({
                    let fp = run_failure(old(self).chain(), 0, e@, ctx@, old(self).store_view());
                    let rp = run_after_none(old(self).chain(), 0, ctx@, fp.store, None);
                    final(self).store_view() == rp.store
                        && match rp.recovered {
                            Some(rv) => r is Ok && r->Ok_0@ == rv,
                            None => r is Err && r->Err_0 == e,
                        }
                }),
            },
    {
        let ghost chain = self.middlewares@;
        let ghost addr0 = self.remote_addr@;
        let ghost cv = ctx@;
        let ghost st_in = self.state@;
        let n = self.middlewares.len();
        match outcome {
            Ok(resp) => {
                let mut cur_resp = resp;
                let mut i: usize = 0;
                while i < n
                    invariant
                        n == chain.len(),
                        chain == self.middlewares@,
                        addr0 == self.remote_addr@,
                        cv == ctx@,
                        i <= n,
                        ({
                            let full = run_success(chain, 0, resp@, cv, st_in);
                            let rest = run_success(chain, i as int, cur_resp@, cv, self.state@);
                            full.resp == rest.resp && full.store == rest.store
                        }),
                    decreases n - i,
                {
                    let out = self.middlewares[i].request_success(&mut cur_resp, &ctx, &mut self.state);
                    match out {
                        Ok(Decision::Next) => {},
                        Ok(Decision::RespondWith(r2)) => {
                            cur_resp = r2;
                        },
                        Err(e) => {
                            cur_resp = crate::protocol::error_response(e);
                        },
                    }
                    i = i + 1;
                }
                let ghost sp = run_success(chain, 0, resp@, cv, st_in);
                let ghost s_resp = sp.resp;
                let ghost s_store = sp.store;
                let mut cur: Option<Response> = Some(cur_resp);
                let mut j: usize = 0;
                while j < n
                    invariant
                        n == chain.len(),
                        chain == self.middlewares@,
                        addr0 == self.remote_addr@,
                        cv == ctx@,
                        j <= n,
                        cur is Some,
                        ({
                            let full = run_after_with(chain, 0, s_resp, cv, s_store);
                            let rest = run_after_with(
                                chain, j as int, cur->Some_0@, cv, self.state@,
                            );
                            full.resp == rest.resp && full.store == rest.store
                        }),
                    decreases n - j,
                {
                    proof {
                        chain[j as int].after_spec_keeps_presence(
                            opt_view(cur), cv, self.state@,
                        );
                    }
                    let out = self.middlewares[j].after_request(&mut cur, &ctx, &mut self.state);
                    match out {
                        Ok(Decision::Next) => {},
                        Ok(Decision::RespondWith(r2)) => {
                            cur = Some(r2);
                        },
                        Err(e) => {
                            cur = Some(crate::protocol::error_response(e));
                        },
                    }
                    j = j + 1;
                }
                Ok(cur.unwrap())
            },
            Err(err) => {
                let mut i: usize = 0;
                while i < n
                    invariant
                        n == chain.len(),
                        chain == self.middlewares@,
                        addr0 == self.remote_addr@,
                        cv == ctx@,
                        i <= n,
                        ({
                            let full = run_failure(chain, 0, err@, cv, st_in);
                            let rest = run_failure(chain, i as int, err@, cv, self.state@);
                            full.store == rest.store
                        }),
                    decreases n - i,
                {
                    let _ignored = self.middlewares[i].request_failure(&err, &ctx, &mut self.state);
                    i = i + 1;
                }
                let ghost fp = run_failure(chain, 0, err@, cv, st_in);
                let ghost f_store = fp.store;
                let mut recovered: Option<Response> = None;
                let mut j: usize = 0;
                while j < n
                    invariant
                        n == chain.len(),
                        chain == self.middlewares@,
                        addr0 == self.remote_addr@,
                        cv == ctx@,
                        j <= n,
                        ({
                            let full = run_after_none(chain, 0, cv, f_store, None);
                            let rest = run_after_none(
                                chain, j as int, cv, self.state@, opt_view(recovered),
                            );
                            full.recovered == rest.recovered && full.store == rest.store
                        }),
                    decreases n - j,
                {
                    let mut absent: Option<Response> = None;
                    proof {
                        chain[j as int].after_spec_keeps_presence(None, cv, self.state@);
                    }
                    let out = self.middlewares[j].after_request(&mut absent, &ctx, &mut self.state);
                    match out {
                        Ok(Decision::Next) => {},
                        Ok(Decision::RespondWith(r2)) => {
                            recovered = Some(r2);
                        },
                        Err(e) => {
                            recovered = Some(crate::protocol::error_response(e));
                        },
                    }
                    j = j + 1;
                }
                match recovered {
                    Some(r2) => Ok(r2),
                    None => Err(err),
                }
            },
        }
    }
}

} // verus!
