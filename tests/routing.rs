use aide_routing::context::{Error, GenContext};
use aide_routing::inference::{infer_operation, HandlerDocs};
use aide_routing::method::Method;
use aide_routing::operation::{set_inferred_response, Operation, Response, Responses, TransformOperation};
use aide_routing::router::ApiMethodRouter;

fn response(text: &str) -> Response {
    Response { description: text.to_string() }
}

fn pairs(items: &[(Option<u16>, &str)]) -> Vec<(Option<u16>, Response)> {
    items.iter().map(|(k, d)| (*k, response(d))).collect()
}

fn handler(output: &[(Option<u16>, &str)], early: &[(Option<u16>, &str)]) -> HandlerDocs {
    HandlerDocs {
        parameters: vec!["id".to_string()],
        output_responses: pairs(output),
        early_responses: pairs(early),
    }
}

fn description(op: &Operation, code: u16) -> Option<String> {
    op.responses.as_ref().and_then(|r| r.responses.get(&code)).map(|r| r.description.clone())
}

fn default_description(op: &Operation) -> Option<String> {
    op.responses.as_ref().and_then(|r| r.default.as_ref()).map(|r| r.description.clone())
}

fn codes(op: &Operation) -> Vec<u16> {
    op.responses.as_ref().map(|r| r.responses.keys().copied().collect()).unwrap_or_default()
}

/// A stand-in dispatcher that lists the methods wired on it.
fn wired() -> ApiMethodRouter<Vec<Method>> {
    ApiMethodRouter::new(Vec::new())
}

fn wire(m: Method) -> impl FnOnce(Vec<Method>) -> Vec<Method> {
    move |mut v: Vec<Method>| {
        v.push(m);
        v
    }
}

#[test]
fn registry_register_reports_conflict_and_keeps_first() {
    let mut r = Responses::new();
    assert_eq!(r.register(Some(200), response("ok")), Ok(()));
    assert!(r.contains(Some(200)));
    assert!(!r.contains(Some(404)));
    assert_eq!(r.register(Some(200), response("dup")), Err(Error::InferredResponseConflict(200)));
    assert_eq!(r.responses.get(&200).unwrap().description, "ok");
    assert_eq!(r.responses.len(), 1);
}

#[test]
fn registry_default_conflict() {
    let mut r = Responses::new();
    assert!(!r.contains(None));
    assert_eq!(r.register(None, response("first")), Ok(()));
    assert_eq!(r.register(None, response("second")), Err(Error::InferredDefaultResponseConflict));
    assert_eq!(r.default.as_ref().unwrap().description, "first");
}

#[test]
fn registry_set_replaces() {
    let mut r = Responses::new();
    r.set(Some(400), response("bad"));
    r.set(Some(400), response("worse"));
    r.set(None, response("other"));
    assert_eq!(r.responses.get(&400).unwrap().description, "worse");
    assert_eq!(r.default.as_ref().unwrap().description, "other");
}

#[test]
fn set_inferred_response_records_conflicts_in_context() {
    let mut ctx = GenContext::new(true);
    let mut op = Operation::new();
    set_inferred_response(&mut ctx, &mut op, Some(201), response("created"));
    set_inferred_response(&mut ctx, &mut op, Some(201), response("again"));
    set_inferred_response(&mut ctx, &mut op, None, response("error"));
    set_inferred_response(&mut ctx, &mut op, None, response("error again"));
    assert_eq!(description(&op, 201).as_deref(), Some("created"));
    assert_eq!(default_description(&op).as_deref(), Some("error"));
    assert_eq!(ctx.errors, vec![Error::InferredResponseConflict(201), Error::InferredDefaultResponseConflict]);
}

#[test]
fn output_responses_all_present() {
    let mut ctx = GenContext::new(true);
    let op = infer_operation(&mut ctx, handler(&[(Some(200), "ok"), (Some(404), "missing"), (None, "error")], &[]));
    assert_eq!(description(&op, 200).as_deref(), Some("ok"));
    assert_eq!(description(&op, 404).as_deref(), Some("missing"));
    assert_eq!(default_description(&op).as_deref(), Some("error"));
    assert_eq!(op.parameters, vec!["id".to_string()]);
    assert!(ctx.errors.is_empty());
}

#[test]
fn repeated_output_code_is_one_conflict() {
    let mut ctx = GenContext::new(true);
    let op = infer_operation(&mut ctx, handler(&[(Some(200), "ok"), (Some(200), "dup")], &[]));
    assert_eq!(description(&op, 200).as_deref(), Some("ok"));
    assert_eq!(ctx.errors, vec![Error::InferredResponseConflict(200)]);
}

#[test]
fn repeated_early_code_is_one_conflict() {
    let mut ctx = GenContext::new(true);
    let op = infer_operation(&mut ctx, handler(&[], &[(Some(400), "bad"), (Some(400), "bad again")]));
    assert_eq!(description(&op, 400).as_deref(), Some("bad"));
    assert_eq!(ctx.errors, vec![Error::InferredResponseConflict(400)]);
}

#[test]
fn early_response_overrides_output_without_conflict() {
    let mut ctx = GenContext::new(true);
    let op = infer_operation(&mut ctx, handler(&[(Some(400), "from output"), (None, "out default")], &[(Some(400), "rejected"), (None, "early default")]));
    assert_eq!(description(&op, 400).as_deref(), Some("rejected"));
    assert_eq!(default_description(&op).as_deref(), Some("early default"));
    assert!(ctx.errors.is_empty());
}

#[test]
fn inference_disabled_adds_no_responses() {
    let mut ctx = GenContext::new(false);
    let op = infer_operation(&mut ctx, handler(&[(Some(200), "ok"), (Some(200), "dup")], &[(Some(422), "invalid")]));
    assert!(op.responses.is_none());
    assert_eq!(op.parameters, vec!["id".to_string()]);
    assert!(ctx.errors.is_empty());
}

#[test]
fn concrete_get_scenario() {
    let mut ctx = GenContext::new(true);
    let docs = handler(&[(Some(200), "ok"), (Some(404), "not found")], &[(Some(422), "validation failed")]);
    let mut router = wired().route(&mut ctx, Method::Get, docs, wire(Method::Get));
    assert!(ctx.errors.is_empty());
    let path = router.take_path_item();
    let mut op = path.get.expect("GET documented");
    assert_eq!(codes(&op), vec![200, 404, 422]);
    assert_eq!(description(&op, 422).as_deref(), Some("validation failed"));
    set_inferred_response(&mut ctx, &mut op, Some(200), response("dup"));
    assert_eq!(ctx.errors, vec![Error::InferredResponseConflict(200)]);
    assert_eq!(description(&op, 200).as_deref(), Some("ok"));
    assert_eq!(router.router, vec![Method::Get]);
}

#[test]
fn concrete_scenario_with_repeated_output_code() {
    let mut ctx = GenContext::new(true);
    let docs = handler(&[(Some(200), "ok"), (Some(404), "not found"), (Some(200), "dup")], &[(Some(422), "validation failed")]);
    let op = infer_operation(&mut ctx, docs);
    assert_eq!(codes(&op), vec![200, 404, 422]);
    assert_eq!(description(&op, 200).as_deref(), Some("ok"));
    assert_eq!(ctx.errors, vec![Error::InferredResponseConflict(200)]);
}

#[test]
fn take_path_item_twice_second_is_empty() {
    let mut ctx = GenContext::new(true);
    let mut router = wired()
        .route(&mut ctx, Method::Get, handler(&[(Some(200), "ok")], &[]), wire(Method::Get))
        .route(&mut ctx, Method::Delete, handler(&[(Some(204), "gone")], &[]), wire(Method::Delete));
    let first = router.take_path_item();
    assert!(first.get.is_some());
    assert!(first.delete.is_some());
    assert!(first.post.is_none());
    let second = router.take_path_item();
    assert!(second.get.is_none() && second.post.is_none() && second.put.is_none() && second.patch.is_none());
    assert!(second.delete.is_none() && second.head.is_none() && second.options.is_none() && second.trace.is_none());
    assert_eq!(router.router, vec![Method::Get, Method::Delete]);
}

#[test]
fn hidden_route_is_wired_but_undocumented() {
    let mut ctx = GenContext::new(true);
    let mut router = wired().route_with(
        &mut ctx,
        Method::Get,
        handler(&[(Some(200), "ok")], &[]),
        wire(Method::Get),
        |t: TransformOperation| TransformOperation { operation: t.operation, hidden: true },
    );
    assert_eq!(router.router, vec![Method::Get]);
    let path = router.take_path_item();
    assert!(path.get.is_none());
}

#[test]
fn transform_can_add_responses() {
    let mut ctx = GenContext::new(true);
    let mut router = wired().route_with(
        &mut ctx,
        Method::Put,
        handler(&[(Some(200), "ok")], &[]),
        wire(Method::Put),
        |mut t: TransformOperation| {
            t.operation.summary = Some("Replace".to_string());
            let mut r = t.operation.responses.take().unwrap_or_else(Responses::new);
            r.set(Some(409), response("conflict"));
            t.operation.responses = Some(r);
            t
        },
    );
    let op = router.take_path_item().put.expect("PUT documented");
    assert_eq!(op.summary.as_deref(), Some("Replace"));
    assert_eq!(codes(&op), vec![200, 409]);
}

#[test]
fn merge_disjoint_methods_documents_both() {
    let mut ctx = GenContext::new(true);
    let a = wired().route(&mut ctx, Method::Get, handler(&[(Some(200), "list")], &[]), wire(Method::Get));
    let b = wired().route(&mut ctx, Method::Post, handler(&[(Some(201), "created")], &[]), wire(Method::Post));
    let mut merged = a.merge(b, |mut x: Vec<Method>, y: Vec<Method>| {
        x.extend(y);
        x
    });
    assert_eq!(merged.router, vec![Method::Get, Method::Post]);
    let path = merged.take_path_item();
    assert_eq!(description(path.get.as_ref().unwrap(), 200).as_deref(), Some("list"));
    assert_eq!(description(path.post.as_ref().unwrap(), 201).as_deref(), Some("created"));
    assert!(path.put.is_none());
}

#[test]
fn merge_same_method_last_wins() {
    let mut ctx = GenContext::new(true);
    let a = wired().route(&mut ctx, Method::Get, handler(&[(Some(200), "mine")], &[]), wire(Method::Get));
    let b = wired().route(&mut ctx, Method::Get, handler(&[(Some(200), "theirs")], &[]), wire(Method::Get));
    let mut merged = a.merge(b, |x: Vec<Method>, _y: Vec<Method>| x);
    let path = merged.take_path_item();
    assert_eq!(description(path.get.as_ref().unwrap(), 200).as_deref(), Some("theirs"));
}

#[test]
fn route_again_replaces_operation() {
    let mut ctx = GenContext::new(true);
    let mut router = wired()
        .route(&mut ctx, Method::Patch, handler(&[(Some(200), "old")], &[]), wire(Method::Patch))
        .route(&mut ctx, Method::Patch, handler(&[(Some(202), "new")], &[]), wire(Method::Patch));
    let op = router.take_path_item().patch.unwrap();
    assert_eq!(codes(&op), vec![202]);
    assert!(ctx.errors.is_empty());
}

#[test]
fn map_router_keeps_documentation() {
    let mut ctx = GenContext::new(true);
    let router = wired().route(&mut ctx, Method::Head, handler(&[(Some(200), "ok")], &[]), wire(Method::Head));
    let mut layered = router.map_router(|v: Vec<Method>| v.len());
    assert_eq!(layered.router, 1);
    let path = layered.take_path_item();
    assert_eq!(description(path.head.as_ref().unwrap(), 200).as_deref(), Some("ok"));
}

#[test]
fn every_method_has_its_slot() {
    let mut ctx = GenContext::new(false);
    let all = [Method::Get, Method::Post, Method::Put, Method::Patch, Method::Delete, Method::Head, Method::Options, Method::Trace];
    let mut router = wired();
    for m in all {
        router = router.route(&mut ctx, m, handler(&[], &[]), wire(m));
    }
    let path = router.take_path_item();
    assert!(path.get.is_some() && path.post.is_some() && path.put.is_some() && path.patch.is_some());
    assert!(path.delete.is_some() && path.head.is_some() && path.options.is_some() && path.trace.is_some());
}

