//! The pipeline's guarantees, stated and proved over the phase folds that the
//! orchestrator's contracts are written in: every phase fires the chain in
//! registration order, `after_request` fires every middleware exactly once on
//! every path, a short-circuit confines the before phase to the chain prefix,
//! and state written early in a request stays visible to its later phases.

use vstd::prelude::*;
use crate::message::{ReqV, RespV};
use crate::pipeline::{
    run_after_none, run_after_with, run_before, run_failure, run_success,
};
use crate::protocol::{spec_error_response, CtxV, HookOut, Middleware, StoreV, TransportErrorV};

verus! {

/// The ascending run of indices `lo, lo + 1, ..., lo + n - 1`.
pub open spec fn index_run(lo: int, n: nat) -> Seq<int> {
    Seq::new(n, |k: int| lo + k)
}

/// The before phase fires middlewares in ascending registration order and
/// without gaps, starting at `i`; it covers the whole chain unless some hook
/// halts it, and a halt fires at least the hook that halted.
pub proof fn lemma_before_fires_in_order<M: Middleware>(
    mws: Seq<M>, i: int, req: ReqV, ctx: CtxV, st: StoreV,
)
    requires
        0 <= i <= mws.len(),
    ensures
        ({
            let ph = run_before(mws, i, req, ctx, st);
            ph.fired == index_run(i, ph.fired.len())
                && (ph.halt is None ==> ph.fired.len() == mws.len() - i)
                && (ph.halt is Some ==> 1 <= ph.fired.len() <= mws.len() - i)
        }),
    decreases mws.len() - i,
{
    let ph = run_before(mws, i, req, ctx, st);
    if i < mws.len() {
        let step = mws[i].before_spec(req, ctx, st);
        match step.out {
            HookOut::Next => {
                let rest = run_before(mws, i + 1, step.req, ctx, step.store);
                lemma_before_fires_in_order(mws, i + 1, step.req, ctx, step.store);
                assert(ph.fired =~= index_run(i, ph.fired.len()));
            },
            HookOut::Respond(r) => {
                assert(ph.fired =~= index_run(i, 1));
            },
            HookOut::Fail(e) => {
                assert(ph.fired =~= index_run(i, 1));
            },
        }
    } else {
        assert(ph.fired =~= index_run(i, 0));
    }
}

/// The success phase fires every middleware from `i` on, exactly once each,
/// in ascending registration order.
pub proof fn lemma_success_fires_each_once<M: Middleware>(
    mws: Seq<M>, i: int, resp: RespV, ctx: CtxV, st: StoreV,
)
    requires
        0 <= i <= mws.len(),
    ensures
        run_success(mws, i, resp, ctx, st).fired == index_run(i, (mws.len() - i) as nat),
    decreases mws.len() - i,
{
    let ph = run_success(mws, i, resp, ctx, st);
    if i < mws.len() {
        let step = mws[i].success_spec(resp, ctx, st);
        let next = match step.out {
            HookOut::Next => step.resp,
            HookOut::Respond(r) => r,
            HookOut::Fail(e) => spec_error_response(e),
        };
        lemma_success_fires_each_once(mws, i + 1, next, ctx, step.store);
        assert(ph.fired =~= index_run(i, (mws.len() - i) as nat));
    } else {
        assert(ph.fired =~= index_run(i, 0));
    }
}

/// The failure phase fires every middleware from `i` on, exactly once each,
/// in ascending registration order.
pub proof fn lemma_failure_fires_each_once<M: Middleware>(
    mws: Seq<M>, i: int, err: TransportErrorV, ctx: CtxV, st: StoreV,
)
    requires
        0 <= i <= mws.len(),
    ensures
        run_failure(mws, i, err, ctx, st).fired == index_run(i, (mws.len() - i) as nat),
    decreases mws.len() - i,
{
    let ph = run_failure(mws, i, err, ctx, st);
    if i < mws.len() {
        let st2 = mws[i].failure_spec(err, ctx, st);
        lemma_failure_fires_each_once(mws, i + 1, err, ctx, st2);
        assert(ph.fired =~= index_run(i, (mws.len() - i) as nat));
    } else {
        assert(ph.fired =~= index_run(i, 0));
    }
}

/// On the paths that carry a response — success and short-circuit — the
/// after phase fires every middleware from `i` on, exactly once each, in
/// ascending registration order.
pub proof fn lemma_after_with_fires_each_once<M: Middleware>(
    mws: Seq<M>, i: int, resp: RespV, ctx: CtxV, st: StoreV,
)
    requires
        0 <= i <= mws.len(),
    ensures
        run_after_with(mws, i, resp, ctx, st).fired == index_run(i, (mws.len() - i) as nat),
    decreases mws.len() - i,
{
    let ph = run_after_with(mws, i, resp, ctx, st);
    if i < mws.len() {
        let step = mws[i].after_spec(Some(resp), ctx, st);
        let cur = match step.resp {
            Some(r) => r,
            None => resp,
        };
        let next = match step.out {
            HookOut::Next => cur,
            HookOut::Respond(r) => r,
            HookOut::Fail(e) => spec_error_response(e),
        };
        lemma_after_with_fires_each_once(mws, i + 1, next, ctx, step.store);
        assert(ph.fired =~= index_run(i, (mws.len() - i) as nat));
    } else {
        assert(ph.fired =~= index_run(i, 0));
    }
}

/// On the failure path the after phase fires every middleware from `i` on,
/// exactly once each, in ascending registration order — so `after_request`
/// runs exactly once per middleware on every path a request can take.
pub proof fn lemma_after_none_fires_each_once<M: Middleware>(
    mws: Seq<M>, i: int, ctx: CtxV, st: StoreV, recovered: Option<RespV>,
)
    requires
        0 <= i <= mws.len(),
    ensures
        run_after_none(mws, i, ctx, st, recovered).fired == index_run(i, (mws.len() - i) as nat),
    decreases mws.len() - i,
{
    let ph = run_after_none(mws, i, ctx, st, recovered);
    if i < mws.len() {
        let step = mws[i].after_spec(None, ctx, st);
        let rec = match step.out {
            HookOut::Next => recovered,
            HookOut::Respond(r) => Some(r),
            HookOut::Fail(e) => Some(spec_error_response(e)),
        };
        lemma_after_none_fires_each_once(mws, i + 1, ctx, step.store, rec);
        assert(ph.fired =~= index_run(i, (mws.len() - i) as nat));
    } else {
        assert(ph.fired =~= index_run(i, 0));
    }
}

/// A short-circuit confines the before phase to the chain prefix: if the
/// phase halts, its whole outcome — request, store, response and fired
/// hooks — is already determined by the middlewares up to and including the
/// one that halted. Middlewares past the halt never receive a
/// `before_request` call; and by `begin_request`'s contract a halted phase
/// comes back as `Done`, so upstream dispatch does not occur either.
pub proof fn lemma_short_circuit_confines<M: Middleware>(
    mws: Seq<M>, i: int, req: ReqV, ctx: CtxV, st: StoreV, n: int,
)
    requires
        0 <= i <= mws.len(),
        run_before(mws, i, req, ctx, st).halt is Some,
        i + run_before(mws, i, req, ctx, st).fired.len() <= n <= mws.len(),
    ensures
        run_before(mws, i, req, ctx, st) == run_before(mws.take(n), i, req, ctx, st),
    decreases mws.len() - i,
{
    let ph = run_before(mws, i, req, ctx, st);
    lemma_before_fires_in_order(mws, i, req, ctx, st);
    assert(i < mws.len());
    assert(mws.take(n).len() == n);
    assert(mws.take(n)[i] == mws[i]);
    let step = mws[i].before_spec(req, ctx, st);
    match step.out {
        HookOut::Next => {
            let rest = run_before(mws, i + 1, step.req, ctx, step.store);
            lemma_before_fires_in_order(mws, i + 1, step.req, ctx, step.store);
            lemma_short_circuit_confines(mws, i + 1, step.req, ctx, step.store, n);
            assert(run_before(mws.take(n), i, req, ctx, st)
                =~= run_before(mws, i, req, ctx, st));
        },
        HookOut::Respond(r) => {
            assert(run_before(mws.take(n), i, req, ctx, st)
                =~= run_before(mws, i, req, ctx, st));
        },
        HookOut::Fail(e) => {
            assert(run_before(mws.take(n), i, req, ctx, st)
                =~= run_before(mws, i, req, ctx, st));
        },
    }
}

/// Middleware `m`'s success hook never drops the binding `k -> v`.
pub open spec fn success_keeps<M: Middleware>(m: M, k: (Seq<char>, u64), v: Seq<char>) -> bool {
    forall|resp: RespV, ctx: CtxV, st: StoreV|
        st.contains_pair(k, v) ==> (#[trigger] m.success_spec(
            resp, ctx, st,
        )).store.contains_pair(k, v)
}

/// Middleware `m`'s failure hook never drops the binding `k -> v`.
pub open spec fn failure_keeps<M: Middleware>(m: M, k: (Seq<char>, u64), v: Seq<char>) -> bool {
    forall|err: TransportErrorV, ctx: CtxV, st: StoreV|
        st.contains_pair(k, v) ==> (#[trigger] m.failure_spec(err, ctx, st)).contains_pair(k, v)
}

/// Middleware `m`'s after hook never drops the binding `k -> v`.
pub open spec fn after_keeps<M: Middleware>(m: M, k: (Seq<char>, u64), v: Seq<char>) -> bool {
    forall|resp: Option<RespV>, ctx: CtxV, st: StoreV|
        st.contains_pair(k, v) ==> (#[trigger] m.after_spec(
            resp, ctx, st,
        )).store.contains_pair(k, v)
}

/// State visibility across the success phase: a binding present when the
/// phase starts — say, written during `before_request` of the same request,
/// whose store the orchestrator hands on unchanged — is still present after
/// it, provided no middleware's success hook drops it.
pub proof fn lemma_state_visible_success<M: Middleware>(
    mws: Seq<M>, i: int, resp: RespV, ctx: CtxV, st: StoreV, k: (Seq<char>, u64), v: Seq<char>,
)
    requires
        0 <= i <= mws.len(),
        st.contains_pair(k, v),
        forall|j: int| 0 <= j < mws.len() ==> success_keeps(#[trigger] mws[j], k, v),
    ensures
        run_success(mws, i, resp, ctx, st).store.contains_pair(k, v),
    decreases mws.len() - i,
{
    if i < mws.len() {
        let step = mws[i].success_spec(resp, ctx, st);
        let next = match step.out {
            HookOut::Next => step.resp,
            HookOut::Respond(r) => r,
            HookOut::Fail(e) => spec_error_response(e),
        };
        assert(success_keeps(mws[i], k, v));
        lemma_state_visible_success(mws, i + 1, next, ctx, step.store, k, v);
    }
}

/// State visibility across the failure phase: a binding present when the
/// phase starts is still present after it, provided no middleware's failure
/// hook drops it.
pub proof fn lemma_state_visible_failure<M: Middleware>(
    mws: Seq<M>, i: int, err: TransportErrorV, ctx: CtxV, st: StoreV, k: (Seq<char>, u64),
    v: Seq<char>,
)
    requires
        0 <= i <= mws.len(),
        st.contains_pair(k, v),
        forall|j: int| 0 <= j < mws.len() ==> failure_keeps(#[trigger] mws[j], k, v),
    ensures
        run_failure(mws, i, err, ctx, st).store.contains_pair(k, v),
    decreases mws.len() - i,
{
    if i < mws.len() {
        let st2 = mws[i].failure_spec(err, ctx, st);
        assert(failure_keeps(mws[i], k, v));
        lemma_state_visible_failure(mws, i + 1, err, ctx, st2, k, v);
    }
}

/// State visibility across the after phase that carries a response.
pub proof fn lemma_state_visible_after_with<M: Middleware>(
    mws: Seq<M>, i: int, resp: RespV, ctx: CtxV, st: StoreV, k: (Seq<char>, u64), v: Seq<char>,
)
    requires
        0 <= i <= mws.len(),
        st.contains_pair(k, v),
        forall|j: int| 0 <= j < mws.len() ==> after_keeps(#[trigger] mws[j], k, v),
    ensures
        run_after_with(mws, i, resp, ctx, st).store.contains_pair(k, v),
    decreases mws.len() - i,
{
    if i < mws.len() {
        let step = mws[i].after_spec(Some(resp), ctx, st);
        let cur = match step.resp {
            Some(r) => r,
            None => resp,
        };
        let next = match step.out {
            HookOut::Next => cur,
            HookOut::Respond(r) => r,
            HookOut::Fail(e) => spec_error_response(e),
        };
        assert(after_keeps(mws[i], k, v));
        lemma_state_visible_after_with(mws, i + 1, next, ctx, step.store, k, v);
    }
}

/// State visibility across the after phase on the failure path.
pub proof fn lemma_state_visible_after_none<M: Middleware>(
    mws: Seq<M>, i: int, ctx: CtxV, st: StoreV, recovered: Option<RespV>, k: (Seq<char>, u64),
    v: Seq<char>,
)
    requires
        0 <= i <= mws.len(),
        st.contains_pair(k, v),
        forall|j: int| 0 <= j < mws.len() ==> after_keeps(#[trigger] mws[j], k, v),
    ensures
        run_after_none(mws, i, ctx, st, recovered).store.contains_pair(k, v),
    decreases mws.len() - i,
{
    if i < mws.len() {
        let step = mws[i].after_spec(None, ctx, st);
        let rec = match step.out {
            HookOut::Next => recovered,
            HookOut::Respond(r) => Some(r),
            HookOut::Fail(e) => Some(spec_error_response(e)),
        };
        assert(after_keeps(mws[i], k, v));
        lemma_state_visible_after_none(mws, i + 1, ctx, step.store, rec, k, v);
    }
}

/// State written during `before_request` of a request is visible through to
/// the end of the same request's success path: the orchestrator hands the
/// before phase's store to the success phase and then to the after phase
/// unchanged, so a binding the before phase produced — and no later hook
/// drops — is still present in the final store.
pub proof fn lemma_before_state_reaches_end_of_request<M: Middleware>(
    mws: Seq<M>, resp: RespV, ctx: CtxV, st: StoreV, k: (Seq<char>, u64), v: Seq<char>,
)
    requires
        st.contains_pair(k, v),
        forall|j: int| 0 <= j < mws.len() ==> success_keeps(#[trigger] mws[j], k, v),
        forall|j: int| 0 <= j < mws.len() ==> after_keeps(#[trigger] mws[j], k, v),
    ensures
        ({
            let sp = run_success(mws, 0, resp, ctx, st);
            run_after_with(mws, 0, sp.resp, ctx, sp.store).store.contains_pair(k, v)
        }),
{
    let sp = run_success(mws, 0, resp, ctx, st);
    lemma_state_visible_success(mws, 0, resp, ctx, st, k, v);
    lemma_state_visible_after_with(mws, 0, sp.resp, ctx, sp.store, k, v);
}

} // verus!
