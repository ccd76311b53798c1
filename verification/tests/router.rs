use rayo::router::{count_named_params, route_params_fit, RouteRegistrationError, Router};

fn router_with(routes: &[(&str, &str)]) -> Router {
    let mut router = Router::new();
    for (index, (method, path)) in routes.iter().enumerate() {
        router
            .add_route(method, path, index)
            .unwrap_or_else(|registration_error| panic!("{}", registration_error.message()));
    }
    router
}

#[test]
fn matches_static_and_parameterized_paths() {
    let router = router_with(&[("GET", "/health"), ("GET", "/users/{user_id}")]);

    let static_match = router.lookup("GET", "/health");
    assert_eq!(static_match.map(|matched| matched.handler_id), Some(0));

    let Some(matched) = router.lookup("GET", "/users/42") else {
        panic!("parameterized route should match");
    };
    assert_eq!(matched.handler_id, 1);
    assert_eq!(
        matched.path_params,
        vec![("user_id".to_owned(), "42".to_owned())]
    );
}

#[test]
fn misses_unknown_paths_and_methods() {
    let router = router_with(&[("GET", "/users/{user_id}")]);
    assert!(router.lookup("GET", "/missing").is_none());
    assert!(router.lookup("POST", "/users/42").is_none());
}

#[test]
fn rejects_conflicting_routes_at_startup() {
    let mut router = router_with(&[("GET", "/users/{user_id}")]);
    let conflict = router.add_route("GET", "/users/{other_name}", 9);
    assert!(conflict.is_err());
}

#[test]
fn conflict_error_names_the_route() {
    let mut router = router_with(&[("GET", "/users/{user_id}")]);
    let Err(error) = router.add_route("GET", "/users/{other_name}", 9) else {
        panic!("conflicting route should be refused");
    };
    assert_eq!(error.method, "GET");
    assert_eq!(error.path, "/users/{other_name}");
    assert!(error.message().starts_with("cannot register route GET /users/{other_name}: "));
    assert!(error.reason.contains("conflict"));
    assert!(!error.reason.is_empty());
}

#[test]
fn same_path_under_another_method_is_independent() {
    let mut router = router_with(&[("GET", "/users/{user_id}")]);
    assert!(router.add_route("POST", "/users/{other_name}", 7).is_ok());
    let post = router.lookup("POST", "/users/5").map(|m| (m.handler_id, m.path_params));
    assert_eq!(post, Some((7, vec![("other_name".to_owned(), "5".to_owned())])));
    let get = router.lookup("GET", "/users/5").map(|m| m.handler_id);
    assert_eq!(get, Some(0));
}

#[test]
fn refused_route_still_leaves_earlier_routes_working() {
    let mut router = router_with(&[("GET", "/a/{x}")]);
    assert!(router.add_route("GET", "/a/{y}", 3).is_err());
    assert_eq!(router.lookup("GET", "/a/1").map(|m| m.handler_id), Some(0));
}

#[test]
fn registration_message_format() {
    let error = RouteRegistrationError {
        method: "PUT".to_owned(),
        path: "/x".to_owned(),
        reason: "bad".to_owned(),
    };
    assert_eq!(error.message(), "cannot register route PUT /x: bad");
}

#[test]
fn registered_static_route_is_found_after_later_registrations() {
    let mut router = router_with(&[("GET", "/about")]);
    assert!(router.add_route("GET", "/{*rest}", 1).is_ok());
    assert!(router.add_route("GET", "/about", 2).is_err());
    let found = router.lookup("GET", "/about").map(|m| (m.handler_id, m.path_params));
    assert_eq!(found, Some((0, vec![])));
    let other = router.lookup("GET", "/contact").map(|m| (m.handler_id, m.path_params));
    assert_eq!(other, Some((1, vec![("rest".to_owned(), "contact".to_owned())])));
}

#[test]
fn named_parameters_are_counted_from_the_text() {
    assert_eq!(count_named_params("/static"), 0);
    assert_eq!(count_named_params("/users/{id}/posts/{post}"), 2);
    assert_eq!(count_named_params("/files/{*path}"), 0);
    assert_eq!(count_named_params("/{{literal}}/{x}"), 1);
}

#[test]
fn counting_stops_at_the_first_invalid_parameter() {
    assert_eq!(count_named_params("/{a}/{}/{b}"), 1);
    assert_eq!(count_named_params("/{a}/x}/{b}"), 1);
    assert_eq!(count_named_params("/{a}/{b/c}/{d}"), 1);
    assert_eq!(count_named_params("/{a}/{*}/{d}"), 1);
    assert_eq!(count_named_params("/{a}/{unclosed"), 1);
    assert_eq!(count_named_params("/{a}}b}/{c}"), 2);
    assert_eq!(count_named_params("/{a}}}b}/{c}"), 1);
}

#[test]
fn parameter_limit_is_checked_on_what_matchit_would_name() {
    let many: String = (1..=26).map(|i| format!("/{{p{i}}}")).collect();
    assert!(!route_params_fit(&many));
    let twenty_five: String = (1..=25).map(|i| format!("/{{p{i}}}")).collect();
    assert!(route_params_fit(&twenty_five));
    let invalid_first = format!("/{{}}{many}");
    assert!(route_params_fit(&invalid_first));
    let escape_after = format!("/{{ab}}{{{{x/{{}}{many}");
    assert!(!route_params_fit(&escape_after));
    let few_braces = "/{ab}{{x}}";
    assert!(route_params_fit(few_braces));
}

#[test]
fn invalid_parameter_is_refused_with_a_reason() {
    let mut router = Router::new();
    let Err(error) = router.add_route("GET", "/a/{x}{y}", 0) else {
        panic!("two parameters in a segment should be refused");
    };
    assert!(!error.reason.is_empty());
}

#[test]
fn other_method_match_is_reported() {
    let router = router_with(&[("GET", "/users/{user_id}")]);
    assert!(router.matched_by_other_method("POST", "/users/42"));
    assert!(!router.matched_by_other_method("GET", "/users/42"));
    assert!(!router.matched_by_other_method("POST", "/missing"));
}

#[test]
fn single_route_captures_whole_segments() {
    let router = router_with(&[("GET", "/a/{x}/b/{y}")]);
    let found = router.lookup("GET", "/a/1/b/two").map(|m| (m.handler_id, m.path_params));
    assert_eq!(
        found,
        Some((0, vec![("x".to_owned(), "1".to_owned()), ("y".to_owned(), "two".to_owned())]))
    );
    assert!(router.lookup("GET", "/a/1/b/").is_none());
    assert!(router.lookup("GET", "/a//b/2").is_none());
    assert!(router.lookup("GET", "/a/1/c/2").is_none());
    assert!(router.lookup("GET", "/a/1/b/2/3").is_none());
}
