use proxy_pipeline::{
    BeginOutcome, BuiltinMiddleware, Header, HookError, ProxyService, Request, Response,
    ServiceContext, TransportError, error_response,
};

fn plain_request(method: &str) -> Request {
    Request {
        method: String::from(method),
        uri: String::from("http://upstream.example/x"),
        headers: Vec::new(),
        body: String::new(),
    }
}

fn request_with_header(name: &str, value: &str) -> Request {
    Request {
        method: String::from("GET"),
        uri: String::from("http://upstream.example/x"),
        headers: vec![Header { name: String::from(name), value: String::from(value) }],
        body: String::new(),
    }
}

fn upstream_response(status: u16, body: &str) -> Response {
    Response { status, headers: Vec::new(), body: String::from(body) }
}

fn service(chain: Vec<BuiltinMiddleware>) -> ProxyService<BuiltinMiddleware> {
    ProxyService::new(chain, String::from("127.0.0.1:4000"))
}

/// Chain `[Auth, Log]`, request missing the auth header: `Auth` answers 401,
/// `Log.before_request` never runs, and both `after_request` hooks run once.
#[test]
fn auth_short_circuit_skips_rest_and_runs_after() {
    let mut svc = service(vec![
        BuiltinMiddleware::Auth { header: String::from("authorization") },
        BuiltinMiddleware::Log,
    ]);
    match svc.begin_request(plain_request("GET")) {
        BeginOutcome::Done { resp, ctx } => {
            assert_eq!(resp.status, 401);
            assert_eq!(resp.body, "unauthorized");
            // Log's before hook never fired...
            assert_eq!(svc.state_get("log.before", ctx.req_id), None);
            // ...but both after hooks did.
            assert_eq!(svc.state_get("auth.after", ctx.req_id), Some(String::from("1")));
            assert_eq!(svc.state_get("log.after", ctx.req_id), Some(String::from("1")));
        }
        BeginOutcome::Forward { .. } => panic!("expected a short-circuit"),
    }
}

/// With the auth header present the request is forwarded unchanged.
#[test]
fn auth_passes_request_through() {
    let mut svc = service(vec![
        BuiltinMiddleware::Auth { header: String::from("authorization") },
    ]);
    match svc.begin_request(request_with_header("authorization", "token")) {
        BeginOutcome::Forward { req, .. } => {
            assert_eq!(req.method, "GET");
            assert_eq!(req.headers.len(), 1);
        }
        BeginOutcome::Done { .. } => panic!("expected a forward"),
    }
}

/// Chain `[]`: the request is forwarded unchanged and the upstream response
/// comes back verbatim.
#[test]
fn empty_chain_is_transparent() {
    let mut svc = service(Vec::new());
    let ctx: ServiceContext;
    match svc.begin_request(plain_request("POST")) {
        BeginOutcome::Forward { req, ctx: c } => {
            assert_eq!(req.method, "POST");
            assert_eq!(req.uri, "http://upstream.example/x");
            assert_eq!(req.headers.len(), 0);
            assert_eq!(req.body, "");
            ctx = c;
        }
        BeginOutcome::Done { .. } => panic!("expected a forward"),
    }
    let out = svc.finish_request(Ok(upstream_response(204, "payload")), ctx);
    match out {
        Ok(resp) => {
            assert_eq!(resp.status, 204);
            assert_eq!(resp.body, "payload");
            assert_eq!(resp.headers.len(), 0);
        }
        Err(_) => panic!("expected the upstream response"),
    }
}

/// Chain `[Recover]`, upstream dial fails: `request_failure` records the
/// error, `after_request` sees no response and answers 502.
#[test]
fn recover_synthesizes_response_on_failure() {
    let mut svc = service(vec![BuiltinMiddleware::Recover { status: 502 }]);
    let ctx = match svc.begin_request(plain_request("GET")) {
        BeginOutcome::Forward { ctx, .. } => ctx,
        BeginOutcome::Done { .. } => panic!("expected a forward"),
    };
    let req_id = ctx.req_id;
    let err = TransportError { message: String::from("connection refused") };
    match svc.finish_request(Err(err), ctx) {
        Ok(resp) => {
            assert_eq!(resp.status, 502);
            assert_eq!(resp.body, "recovered");
        }
        Err(_) => panic!("expected the recovery response"),
    }
    assert_eq!(
        svc.state_get("recover.error", req_id),
        Some(String::from("connection refused"))
    );
}

/// With no middleware supplying a recovery response, the transport error
/// comes back unchanged.
#[test]
fn unrecovered_failure_returns_original_error() {
    let mut svc = service(vec![BuiltinMiddleware::Log]);
    let ctx = match svc.begin_request(plain_request("GET")) {
        BeginOutcome::Forward { ctx, .. } => ctx,
        BeginOutcome::Done { .. } => panic!("expected a forward"),
    };
    let req_id = ctx.req_id;
    let err = TransportError { message: String::from("dns failure") };
    match svc.finish_request(Err(err), ctx) {
        Err(back) => assert_eq!(back.message, "dns failure"),
        Ok(_) => panic!("expected the transport error back"),
    }
    // The failure and after phases still ran.
    assert_eq!(svc.state_get("log.failure", req_id), Some(String::from("1")));
    assert_eq!(svc.state_get("log.after", req_id), Some(String::from("1")));
    assert_eq!(svc.state_get("log.success", req_id), None);
}

/// On the failure path the last recovery answer wins: middleware order is
/// kept in the after phase.
#[test]
fn later_recovery_overrides_earlier() {
    let mut svc = service(vec![
        BuiltinMiddleware::Recover { status: 502 },
        BuiltinMiddleware::Recover { status: 503 },
    ]);
    let ctx = match svc.begin_request(plain_request("GET")) {
        BeginOutcome::Forward { ctx, .. } => ctx,
        BeginOutcome::Done { .. } => panic!("expected a forward"),
    };
    let err = TransportError { message: String::from("reset") };
    match svc.finish_request(Err(err), ctx) {
        Ok(resp) => assert_eq!(resp.status, 503),
        Err(_) => panic!("expected a recovery response"),
    }
}

/// A before-phase short-circuit in the middle of the chain: hooks before the
/// halting middleware ran, hooks after it did not.
#[test]
fn short_circuit_confines_before_phase_to_prefix() {
    let mut svc = service(vec![
        BuiltinMiddleware::Counter { key: String::from("first") },
        BuiltinMiddleware::Auth { header: String::from("authorization") },
        BuiltinMiddleware::Counter { key: String::from("second") },
    ]);
    match svc.begin_request(plain_request("GET")) {
        BeginOutcome::Done { resp, ctx } => {
            assert_eq!(resp.status, 401);
            assert_eq!(svc.state_get("first", ctx.req_id), Some(String::from("1")));
            assert_eq!(svc.state_get("second", ctx.req_id), None);
        }
        BeginOutcome::Forward { .. } => panic!("expected a short-circuit"),
    }
}

/// State written in `before_request` is visible to `request_success` of the
/// same request: `Probe` records the method early and replies with it later.
#[test]
fn before_state_visible_to_success_phase() {
    let mut svc = service(vec![BuiltinMiddleware::Probe { key: String::from("probe") }]);
    let ctx = match svc.begin_request(plain_request("PUT")) {
        BeginOutcome::Forward { ctx, .. } => ctx,
        BeginOutcome::Done { .. } => panic!("expected a forward"),
    };
    match svc.finish_request(Ok(upstream_response(200, "upstream body")), ctx) {
        Ok(resp) => {
            assert_eq!(resp.status, 200);
            assert_eq!(resp.body, "PUT");
        }
        Err(_) => panic!("expected a response"),
    }
}

/// State written in `before_request` is visible to `request_failure` of the
/// same request.
#[test]
fn before_state_visible_to_failure_phase() {
    let mut svc = service(vec![BuiltinMiddleware::Probe { key: String::from("probe") }]);
    let ctx = match svc.begin_request(plain_request("DELETE")) {
        BeginOutcome::Forward { ctx, .. } => ctx,
        BeginOutcome::Done { .. } => panic!("expected a forward"),
    };
    let req_id = ctx.req_id;
    let err = TransportError { message: String::from("refused") };
    let _ = svc.finish_request(Err(err), ctx);
    assert_eq!(svc.state_get("probe.seen", req_id), Some(String::from("DELETE")));
}

/// Chain `[Counter]`: a hit is recorded under the request's id, and the next
/// call on the same service clears it — state never crosses requests.
#[test]
fn counter_state_cleared_between_requests() {
    let mut svc = service(vec![BuiltinMiddleware::Counter { key: String::from("hits") }]);
    let first = match svc.begin_request(plain_request("GET")) {
        BeginOutcome::Forward { ctx, .. } => ctx,
        BeginOutcome::Done { .. } => panic!("expected a forward"),
    };
    assert_eq!(svc.state_get("hits", first.req_id), Some(String::from("1")));
    let second = match svc.begin_request(plain_request("GET")) {
        BeginOutcome::Forward { ctx, .. } => ctx,
        BeginOutcome::Done { .. } => panic!("expected a forward"),
    };
    assert_eq!(svc.state_get("hits", first.req_id), None);
    assert_eq!(svc.state_get("hits", second.req_id), Some(String::from("1")));
}

/// The context carries the service's remote address.
#[test]
fn context_carries_remote_address() {
    let mut svc = service(Vec::new());
    match svc.begin_request(plain_request("GET")) {
        BeginOutcome::Forward { ctx, .. } => {
            assert_eq!(ctx.remote_addr, "127.0.0.1:4000");
        }
        BeginOutcome::Done { .. } => panic!("expected a forward"),
    }
}

/// A hook error converts into a response with the error's status and body.
#[test]
fn hook_error_becomes_response() {
    let resp = error_response(HookError { status: 500, body: String::from("boom") });
    assert_eq!(resp.status, 500);
    assert_eq!(resp.body, "boom");
    assert_eq!(resp.headers.len(), 0);
}

/// `clear_state` empties the store on demand.
#[test]
fn clear_state_empties_store() {
    let mut svc = service(vec![BuiltinMiddleware::Counter { key: String::from("hits") }]);
    let ctx = match svc.begin_request(plain_request("GET")) {
        BeginOutcome::Forward { ctx, .. } => ctx,
        BeginOutcome::Done { .. } => panic!("expected a forward"),
    };
    assert_eq!(svc.state_get("hits", ctx.req_id), Some(String::from("1")));
    svc.clear_state();
    assert_eq!(svc.state_get("hits", ctx.req_id), None);
}

/// A hook error short-circuits exactly like an explicit response: the error
/// becomes the reply, later before hooks are skipped, after hooks still run.
#[test]
fn deny_error_short_circuits_as_response() {
    let mut svc = service(vec![
        BuiltinMiddleware::Deny { status: 503 },
        BuiltinMiddleware::Log,
    ]);
    match svc.begin_request(plain_request("GET")) {
        BeginOutcome::Done { resp, ctx } => {
            assert_eq!(resp.status, 503);
            assert_eq!(resp.body, "denied");
            assert_eq!(svc.state_get("log.before", ctx.req_id), None);
            assert_eq!(svc.state_get("log.after", ctx.req_id), Some(String::from("1")));
        }
        BeginOutcome::Forward { .. } => panic!("expected a short-circuit"),
    }
}

/// `Tag` rewrites the request in place before it is forwarded.
#[test]
fn tag_rewrites_forwarded_request() {
    let mut svc = service(vec![BuiltinMiddleware::Tag {
        name: String::from("x-tag"),
        value: String::from("on"),
    }]);
    match svc.begin_request(plain_request("GET")) {
        BeginOutcome::Forward { req, .. } => {
            assert!(req.has_header("x-tag"));
            assert_eq!(req.headers.len(), 1);
            assert_eq!(req.headers[0].value, "on");
        }
        BeginOutcome::Done { .. } => panic!("expected a forward"),
    }
}

/// In the success phase later middlewares observe the response as earlier
/// ones left it: two tags land in registration order.
#[test]
fn success_phase_mutations_accumulate_in_order() {
    let mut svc = service(vec![
        BuiltinMiddleware::Tag { name: String::from("x-a"), value: String::from("1") },
        BuiltinMiddleware::Tag { name: String::from("x-b"), value: String::from("2") },
    ]);
    let ctx = match svc.begin_request(plain_request("GET")) {
        BeginOutcome::Forward { ctx, .. } => ctx,
        BeginOutcome::Done { .. } => panic!("expected a forward"),
    };
    match svc.finish_request(Ok(upstream_response(200, "ok")), ctx) {
        Ok(resp) => {
            assert_eq!(resp.status, 200);
            assert_eq!(resp.headers.len(), 2);
            assert_eq!(resp.headers[0].name, "x-a");
            assert_eq!(resp.headers[1].name, "x-b");
        }
        Err(_) => panic!("expected a response"),
    }
}

/// `has_header` finds a header by exact name.
#[test]
fn request_header_lookup() {
    let req = request_with_header("authorization", "token");
    assert!(req.has_header("authorization"));
    assert!(!req.has_header("content-type"));
}
