use edge_echo::pattern::{parse_pattern, split_path, Segment};
use edge_echo::matcher::match_segments;
use edge_echo::response::{get_param, FormValue};
use edge_echo::router::{handle_request, Dispatch, Handler, Method, Outcome, Router};

fn svec(parts: &[&str]) -> Vec<String> {
    parts.iter().map(|p| p.to_string()).collect()
}

fn service_router() -> Router {
    let mut r = Router::new();
    assert!(r.register(Method::Get, "/", Handler::Hello));
    assert!(r.register(Method::Post, "/form/:field", Handler::FormField));
    assert!(r.register(Method::Get, "/worker-version", Handler::WorkerVersion));
    assert!(r.register(Method::Get, "/websocket", Handler::WebSocketEcho));
    r
}

#[test]
fn split_path_segments() {
    assert_eq!(split_path("/form/name"), svec(&["form", "name"]));
    assert_eq!(split_path("/"), svec(&[""]));
    assert_eq!(split_path("/form/"), svec(&["form", ""]));
    assert_eq!(split_path("/a/b/c"), svec(&["a", "b", "c"]));
}

#[test]
fn parse_pattern_kinds() {
    let segs = parse_pattern("/form/:field").unwrap();
    assert_eq!(segs.len(), 2);
    assert!(matches!(&segs[0], Segment::Literal(s) if s == "form"));
    assert!(matches!(&segs[1], Segment::Param(s) if s == "field"));
    let segs = parse_pattern("/files/*path").unwrap();
    assert!(matches!(&segs[1], Segment::CatchAll(s) if s == "path"));
}

#[test]
fn parse_pattern_refusals() {
    assert!(parse_pattern("/form/:").is_none());
    assert!(parse_pattern("/files/*").is_none());
    assert!(parse_pattern("/*rest/x").is_none());
}

#[test]
fn literal_pattern_matches_exactly() {
    let pat = parse_pattern("/worker-version").unwrap();
    assert_eq!(match_segments(&pat, &svec(&["worker-version"])).unwrap(), vec![]);
    assert!(match_segments(&pat, &svec(&["worker-version", ""])).is_none());
    assert!(match_segments(&pat, &svec(&["other"])).is_none());
}

#[test]
fn param_binds_any_nonempty_segment() {
    let pat = parse_pattern("/form/:field").unwrap();
    let params = match_segments(&pat, &svec(&["form", "name"])).unwrap();
    assert_eq!(params, vec![("field".to_string(), "name".to_string())]);
    let params = match_segments(&pat, &svec(&["form", "anything"])).unwrap();
    assert_eq!(params, vec![("field".to_string(), "anything".to_string())]);
    // the empty segment of "/form/" does not match
    assert!(match_segments(&pat, &svec(&["form", ""])).is_none());
    assert!(match_segments(&pat, &svec(&["form"])).is_none());
    assert!(match_segments(&pat, &svec(&["form", "a", "b"])).is_none());
}

#[test]
fn catch_all_joins_remainder() {
    let pat = parse_pattern("/files/*path").unwrap();
    let params = match_segments(&pat, &svec(&["files", "a", "b"])).unwrap();
    assert_eq!(params, vec![("path".to_string(), "a/b".to_string())]);
    let params = match_segments(&pat, &svec(&["files"])).unwrap();
    assert_eq!(params, vec![("path".to_string(), "".to_string())]);
}

#[test]
fn dispatch_catch_all_route() {
    let mut r = Router::new();
    assert!(r.register(Method::Get, "/files/*path", Handler::Hello));
    match r.dispatch(Method::Get, "/files/a/b") {
        Dispatch::Matched { handler, params } => {
            assert_eq!(handler, Handler::Hello);
            assert_eq!(params, vec![("path".to_string(), "a/b".to_string())]);
        }
        Dispatch::NotFound => panic!("expected a match"),
    }
}

#[test]
fn dispatch_literal_route() {
    let r = service_router();
    match r.dispatch(Method::Get, "/") {
        Dispatch::Matched { handler, params } => {
            assert_eq!(handler, Handler::Hello);
            assert!(params.is_empty());
        }
        Dispatch::NotFound => panic!("expected a match"),
    }
}

#[test]
fn dispatch_binds_route_param() {
    let r = service_router();
    match r.dispatch(Method::Post, "/form/email") {
        Dispatch::Matched { handler, params } => {
            assert_eq!(handler, Handler::FormField);
            assert_eq!(params, vec![("field".to_string(), "email".to_string())]);
        }
        Dispatch::NotFound => panic!("expected a match"),
    }
}

#[test]
fn first_match_wins_independent_of_specificity() {
    let mut r = Router::new();
    assert!(r.register(Method::Get, "/:anything", Handler::WorkerVersion));
    assert!(r.register(Method::Get, "/hello", Handler::Hello));
    // the less specific route was registered first, so it wins
    match r.dispatch(Method::Get, "/hello") {
        Dispatch::Matched { handler, .. } => assert_eq!(handler, Handler::WorkerVersion),
        Dispatch::NotFound => panic!("expected a match"),
    }

    let mut r = Router::new();
    assert!(r.register(Method::Get, "/hello", Handler::Hello));
    assert!(r.register(Method::Get, "/:anything", Handler::WorkerVersion));
    match r.dispatch(Method::Get, "/hello") {
        Dispatch::Matched { handler, .. } => assert_eq!(handler, Handler::Hello),
        Dispatch::NotFound => panic!("expected a match"),
    }
}

#[test]
fn unmatched_request_is_not_found() {
    let r = service_router();
    assert!(matches!(r.dispatch(Method::Get, "/missing"), Dispatch::NotFound));
    // right path, wrong method
    assert!(matches!(r.dispatch(Method::Post, "/"), Dispatch::NotFound));
    match handle_request(&r, Method::Get, "/missing", None, None) {
        Outcome::Http(resp) => {
            assert_eq!(resp.status, 404);
            assert_eq!(resp.body, "Not Found");
        }
        Outcome::Upgrade => panic!("expected an HTTP response"),
    }
}

#[test]
fn root_route_greets() {
    let r = service_router();
    match handle_request(&r, Method::Get, "/", None, None) {
        Outcome::Http(resp) => {
            assert_eq!(resp.status, 200);
            assert_eq!(resp.body, "Hello from Workers!");
        }
        Outcome::Upgrade => panic!("expected an HTTP response"),
    }
}

#[test]
fn websocket_route_upgrades() {
    let r = service_router();
    assert!(matches!(
        handle_request(&r, Method::Get, "/websocket", None, None),
        Outcome::Upgrade
    ));
}

#[test]
fn version_route_reports_configured_version() {
    let r = service_router();
    let version = "1.2.3".to_string();
    match handle_request(&r, Method::Get, "/worker-version", None, Some(&version)) {
        Outcome::Http(resp) => {
            assert_eq!(resp.status, 200);
            assert_eq!(resp.body, "1.2.3");
        }
        Outcome::Upgrade => panic!("expected an HTTP response"),
    }
}

#[test]
fn version_route_without_binding_fails_upstream() {
    let r = service_router();
    match handle_request(&r, Method::Get, "/worker-version", None, None) {
        Outcome::Http(resp) => {
            assert_eq!(resp.status, 500);
            assert_eq!(resp.body, "internal error");
        }
        Outcome::Upgrade => panic!("expected an HTTP response"),
    }
}

#[test]
fn get_param_finds_first_binding() {
    let params = vec![
        ("field".to_string(), "email".to_string()),
        ("field".to_string(), "shadowed".to_string()),
    ];
    assert_eq!(
        get_param(&params, &"field".to_string()),
        Some("email".to_string())
    );
    assert_eq!(get_param(&params, &"other".to_string()), None);
}

#[test]
fn form_scenario_plain_field() {
    let r = service_router();
    let form = vec![(
        "email".to_string(),
        FormValue::Field("alice@example.com".to_string()),
    )];
    match handle_request(&r, Method::Post, "/form/email", Some(&form), None) {
        Outcome::Http(resp) => {
            assert_eq!(resp.status, 200);
            assert_eq!(resp.body, "{\"email\":\"alice@example.com\"}");
        }
        Outcome::Upgrade => panic!("expected an HTTP response"),
    }
}

#[test]
fn form_scenario_file_rejected() {
    let r = service_router();
    let form = vec![(
        "email".to_string(),
        FormValue::File("upload.txt".to_string()),
    )];
    match handle_request(&r, Method::Post, "/form/email", Some(&form), None) {
        Outcome::Http(resp) => {
            assert_eq!(resp.status, 422);
            assert_eq!(resp.body, "`field` param in form shouldn't be a File");
        }
        Outcome::Upgrade => panic!("expected an HTTP response"),
    }
}

#[test]
fn form_scenario_missing_field() {
    let r = service_router();
    let form = vec![("name".to_string(), FormValue::Field("bob".to_string()))];
    match handle_request(&r, Method::Post, "/form/email", Some(&form), None) {
        Outcome::Http(resp) => {
            assert_eq!(resp.status, 400);
            assert_eq!(resp.body, "Bad Request");
        }
        Outcome::Upgrade => panic!("expected an HTTP response"),
    }
}

#[test]
fn form_scenario_undecodable_form() {
    let r = service_router();
    match handle_request(&r, Method::Post, "/form/email", None, None) {
        Outcome::Http(resp) => {
            assert_eq!(resp.status, 400);
            assert_eq!(resp.body, "Bad Request");
        }
        Outcome::Upgrade => panic!("expected an HTTP response"),
    }
}

#[test]
fn form_body_escapes_json_strings() {
    let r = service_router();
    let form = vec![(
        "note".to_string(),
        FormValue::Field("a \"quoted\" \\ line\nend\u{1}".to_string()),
    )];
    match handle_request(&r, Method::Post, "/form/note", Some(&form), None) {
        Outcome::Http(resp) => {
            assert_eq!(resp.status, 200);
            assert_eq!(
                resp.body,
                "{\"note\":\"a \\\"quoted\\\" \\\\ line\\nend\\u0001\"}"
            );
        }
        Outcome::Upgrade => panic!("expected an HTTP response"),
    }
}
