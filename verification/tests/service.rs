use rayo::params::{ParamKind, ParamValue};
use rayo::service::{register_routes, RequestPlan, RouteDecl};

fn decl(method: &str, path: &str, params: Vec<(&str, u8)>) -> RouteDecl {
    RouteDecl {
        method: method.to_owned(),
        path: path.to_owned(),
        is_async: true,
        params: params.into_iter().map(|(n, c)| (n.to_owned(), c)).collect(),
    }
}

#[test]
fn registered_routes_plan_requests() {
    let app = register_routes(&vec![
        decl("GET", "/health", vec![]),
        decl("GET", "/users/{user_id}", vec![("user_id", 1)]),
    ])
    .unwrap_or_else(|message| panic!("{message}"));
    assert_eq!(app.route_count(), 2);
    assert_eq!(app.route(1).params, vec![("user_id".to_owned(), ParamKind::Int)]);

    assert!(matches!(app.plan_request("GET", "/missing"), RequestPlan::NotFound));
    assert!(matches!(app.plan_request("POST", "/health"), RequestPlan::MethodNotAllowed));
    assert!(matches!(app.plan_request("POST", "/users/42"), RequestPlan::MethodNotAllowed));
    assert!(matches!(app.plan_request("POST", "/nowhere"), RequestPlan::NotFound));
    match app.plan_request("GET", "/users/42") {
        RequestPlan::Dispatch { route, args, failure: None } => {
            assert_eq!(route, 1);
            assert_eq!(args.len(), 1);
            assert_eq!(args[0].0, "user_id");
            assert!(matches!(args[0].1, ParamValue::Integer(42)));
        }
        _ => panic!("should dispatch"),
    }
    match app.plan_request("GET", "/users/abc") {
        RequestPlan::Dispatch { route: 1, args, failure: Some(response) } => {
            assert!(args.is_empty());
            assert_eq!(response.status, 422);
            assert_eq!(
                String::from_utf8(response.body).unwrap(),
                "{\"detail\":\"path parameter 'user_id' expected int, got 'abc'\"}"
            );
        }
        _ => panic!("should answer 422"),
    }
    match app.plan_request("GET", "/health") {
        RequestPlan::Dispatch { route, args, failure: None } => {
            assert_eq!(route, 0);
            assert!(args.is_empty());
        }
        _ => panic!("should dispatch"),
    }
}

#[test]
fn conflicting_route_stops_registration() {
    let outcome = register_routes(&vec![
        decl("GET", "/users/{user_id}", vec![]),
        decl("GET", "/users/{other}", vec![]),
    ]);
    let Err(message) = outcome else { panic!("conflict should fail") };
    assert!(message.starts_with("cannot register route GET /users/{other}: "));
}

#[test]
fn unknown_kind_code_is_a_startup_error() {
    let outcome = register_routes(&vec![decl("GET", "/items/{item}", vec![("item", 9)])]);
    let Err(message) = outcome else { panic!("unknown code should fail") };
    assert_eq!(
        message,
        "route GET /items/{item}: unknown parameter kind code 9 for 'item' \u{2014} the Python and Rust layers disagree; reinstall rayo"
    );
}

#[test]
fn missing_declared_parameter_is_an_internal_error() {
    let app = register_routes(&vec![decl("GET", "/a/{x}", vec![("y", 0)])]).unwrap();
    match app.plan_request("GET", "/a/1") {
        RequestPlan::Dispatch { failure: Some(response), .. } => assert_eq!(response.status, 500),
        _ => panic!("should answer 500"),
    }
}

#[test]
fn every_kind_converts_through_a_plan() {
    let app = register_routes(&vec![decl(
        "PUT",
        "/x/{s}/{i}/{f}/{b}",
        vec![("s", 0), ("i", 1), ("f", 2), ("b", 3)],
    )])
    .unwrap();
    match app.plan_request("PUT", "/x/hi/-3/2.5/TRUE") {
        RequestPlan::Dispatch { args, failure: None, .. } => {
            assert!(matches!(&args[0].1, ParamValue::Text(t) if t == "hi"));
            assert!(matches!(args[1].1, ParamValue::Integer(-3)));
            assert!(matches!(&args[2].1, ParamValue::FloatText(t) if t == "2.5"));
            assert!(matches!(args[3].1, ParamValue::Boolean(true)));
        }
        _ => panic!("should dispatch"),
    }
}

#[test]
fn route_with_too_many_parameters_is_a_startup_error() {
    let path: String = (1..=26).map(|i| format!("/{{p{i}}}")).collect();
    let outcome = register_routes(&vec![decl("GET", &path, vec![])]);
    let Err(message) = outcome else { panic!("26 parameters should fail") };
    assert_eq!(message, format!("cannot register route GET {path}: Too many route parameters."));
    let path25: String = (1..=25).map(|i| format!("/{{p{i}}}")).collect();
    assert!(register_routes(&vec![decl("GET", &path25, vec![])]).is_ok());
}

#[test]
fn invalid_parameter_before_many_braces_gets_the_tree_reason() {
    let many: String = (1..=26).map(|i| format!("/{{p{i}}}")).collect();
    let path = format!("/{{}}{many}");
    let outcome = register_routes(&vec![decl("GET", &path, vec![])]);
    let Err(message) = outcome else { panic!("an empty parameter name should fail") };
    assert_eq!(
        message,
        format!("cannot register route GET {path}: Parameters must be registered with a valid name")
    );
}
