use oxidy::dispatch::{dispatch, ChainRun, Outcome};
use oxidy::server::{Context, Method, Server};

type Handler = fn(&mut Context);

type Hook = fn(&mut Context);

/// A middleware outcome as the embedding program reports it to the chain:
/// the continuation decision and the optional post-hook.
type MwResult = (bool, Option<Hook>);

type Middleware = fn(&mut Context) -> MwResult;

fn handler_a(c: &mut Context) {
    c.response.push_str("A");
}

fn handler_b(c: &mut Context) {
    c.response.push_str("B");
}

fn fallback_f(c: &mut Context) {
    c.response.push_str("F");
}

fn hook_1(c: &mut Context) {
    c.response.push_str("p1");
}

fn hook_2(c: &mut Context) {
    c.response.push_str("p2");
}

fn hook_3(c: &mut Context) {
    c.response.push_str("p3");
}

fn mw_pass(c: &mut Context) -> MwResult {
    c.response.push_str("m");
    (true, None)
}

fn mw_1(c: &mut Context) -> MwResult {
    c.response.push_str("m1");
    (true, Some(hook_1 as Hook))
}

fn mw_2(c: &mut Context) -> MwResult {
    c.response.push_str("m2");
    (true, Some(hook_2 as Hook))
}

fn mw_3(c: &mut Context) -> MwResult {
    c.response.push_str("m3");
    (true, Some(hook_3 as Hook))
}

fn mw_halt(c: &mut Context) -> MwResult {
    c.response.push_str("halt");
    (false, Some(hook_2 as Hook))
}

/// Drives one connection through the pipeline the way the worker does:
/// middlewares forward, then routing or fallback, then the post-hooks.
fn run_pipeline(s: &Server<Middleware, Handler>, ctx: &mut Context) {
    let mut chain: ChainRun<Hook> = ChainRun::new(s.middlewares.len());
    while let Some(i) = chain.next_middleware() {
        let (continued, hook) = (s.middlewares[i])(ctx);
        chain.record(continued, hook);
    }
    match dispatch(s, &chain, ctx.method, &ctx.path.clone()) {
        Outcome::Handler(i) => (s.handler_at(ctx.method, i))(ctx),
        Outcome::Fallback => (s.fallback().copied().unwrap())(ctx),
        Outcome::Unhandled => {}
        Outcome::ShortCircuited => {}
    }
    while let Some((_, hook)) = chain.pop_hook() {
        hook(ctx);
    }
}

#[test]
fn duplicate_route_dispatches_first_registered() {
    let mut s: Server<Middleware, Handler> = Server::new();
    s.get("/", handler_a);
    s.get("/", handler_b);
    s.middleware(mw_pass);
    let mut ctx = Context::new(Method::Get, "/".to_string());
    run_pipeline(&s, &mut ctx);
    assert_eq!(ctx.response, "mA");
}

#[test]
fn unmatched_request_runs_fallback_exactly_once() {
    let mut s: Server<Middleware, Handler> = Server::new();
    s.catch(fallback_f);
    let mut ctx = Context::new(Method::Post, "/missing".to_string());
    run_pipeline(&s, &mut ctx);
    assert_eq!(ctx.response, "F");
}

#[test]
fn unmatched_request_without_fallback_is_unhandled() {
    let mut s: Server<Middleware, Handler> = Server::new();
    s.get("/", handler_a);
    let mut ctx = Context::new(Method::Post, "/missing".to_string());
    run_pipeline(&s, &mut ctx);
    assert_eq!(ctx.response, "");
}

#[test]
fn post_hooks_run_in_reverse_registration_order() {
    let mut s: Server<Middleware, Handler> = Server::new();
    s.middleware(mw_1);
    s.middleware(mw_2);
    s.middleware(mw_3);
    s.get("/", handler_a);
    let mut ctx = Context::new(Method::Get, "/".to_string());
    run_pipeline(&s, &mut ctx);
    assert_eq!(ctx.response, "m1m2m3Ap3p2p1");
}

#[test]
fn halting_middleware_skips_routing_and_fallback() {
    let mut s: Server<Middleware, Handler> = Server::new();
    s.middleware(mw_1);
    s.middleware(mw_halt);
    s.middleware(mw_3);
    s.get("/", handler_a);
    s.catch(fallback_f);
    let mut ctx = Context::new(Method::Get, "/".to_string());
    run_pipeline(&s, &mut ctx);
    // The third middleware never runs, no handler and no fallback runs, the
    // halting middleware's own hook is discarded, and the hook pushed before
    // the halt still runs.
    assert_eq!(ctx.response, "m1haltp1");
}

#[test]
fn chain_hands_out_middlewares_in_order_then_stops() {
    let mut chain: ChainRun<u8> = ChainRun::new(2);
    assert_eq!(chain.next_middleware(), Some(0));
    chain.record(true, Some(7));
    assert_eq!(chain.next_middleware(), Some(1));
    chain.record(true, None);
    assert_eq!(chain.next_middleware(), None);
    assert!(chain.route_allowed());
}

#[test]
fn halted_chain_hands_out_no_more_middlewares() {
    let mut chain: ChainRun<u8> = ChainRun::new(3);
    chain.record(false, None);
    assert_eq!(chain.next_middleware(), None);
    assert!(!chain.route_allowed());
}

#[test]
fn pop_hook_yields_indices_in_reverse_order() {
    let mut chain: ChainRun<u8> = ChainRun::new(4);
    chain.record(true, Some(10));
    chain.record(true, None);
    chain.record(true, Some(12));
    chain.record(true, Some(13));
    assert!(chain.route_allowed());
    assert_eq!(chain.pop_hook(), Some((3, 13)));
    assert_eq!(chain.pop_hook(), Some((2, 12)));
    assert_eq!(chain.pop_hook(), Some((0, 10)));
    assert_eq!(chain.pop_hook(), None);
}

#[test]
fn dispatch_short_circuits_when_chain_incomplete() {
    let mut s: Server<u8, u8> = Server::new();
    s.get("/", 1);
    s.catch(2);
    let mut chain: ChainRun<u8> = ChainRun::new(1);
    chain.record(false, None);
    let o = dispatch(&s, &chain, Method::Get, &"/".to_string());
    assert_eq!(o, Outcome::ShortCircuited);
}

#[test]
fn dispatch_selects_handler_fallback_or_nothing() {
    let mut s: Server<u8, u8> = Server::new();
    s.get("/a", 1);
    let chain: ChainRun<u8> = ChainRun::new(0);
    assert_eq!(dispatch(&s, &chain, Method::Get, &"/a".to_string()), Outcome::Handler(0));
    assert_eq!(dispatch(&s, &chain, Method::Get, &"/b".to_string()), Outcome::Unhandled);
    s.catch(9);
    assert_eq!(dispatch(&s, &chain, Method::Get, &"/b".to_string()), Outcome::Fallback);
    assert_eq!(dispatch(&s, &chain, Method::Post, &"/a".to_string()), Outcome::Fallback);
}
