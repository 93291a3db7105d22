use spag::environment::Environment;
use spag::errors::SpagError;
use spag::resolver::resolve;
use spag::template::{Method, RequestIntent};

fn env_with(endpoint: Option<&str>, vars: &[(&str, &str)], defaults: &[(&str, &str)]) -> Environment {
    Environment {
        name: "default".to_string(),
        is_active: true,
        endpoint: endpoint.map(|s| s.to_string()),
        variables: vars.iter().map(|(k, v)| (k.to_string(), v.to_string())).collect(),
        default_headers: defaults.iter().map(|(k, v)| (k.to_string(), v.to_string())).collect(),
    }
}

fn intent(method: Method, resource: &str) -> RequestIntent {
    RequestIntent {
        method,
        endpoint: None,
        resource: resource.to_string(),
        headers: Vec::new(),
        body: None,
    }
}

#[test]
fn header_override_wins_and_keeps_position() {
    // A template header `X: 1` overridden by the CLI `X: 2` leaves exactly
    // one `X` header, carrying `2`, at the template header's position.
    let mut i = intent(Method::Get, "/things");
    i.headers = vec![
        ("A".to_string(), "first".to_string()),
        ("X".to_string(), "1".to_string()),
        ("B".to_string(), "last".to_string()),
    ];
    let env = env_with(Some("http://localhost:5000"), &[], &[]);
    let cli = vec!["X: 2".to_string()];
    let t = resolve(&i, &cli, Some(&env)).unwrap();
    assert_eq!(
        t.headers,
        vec![
            ("A".to_string(), "first".to_string()),
            ("X".to_string(), "2".to_string()),
            ("B".to_string(), "last".to_string()),
        ]
    );
}

#[test]
fn header_override_is_case_insensitive() {
    let mut i = intent(Method::Get, "/things");
    i.headers = vec![("Content-Type".to_string(), "text/plain".to_string())];
    let env = env_with(Some("http://localhost:5000"), &[], &[]);
    let cli = vec!["content-type: application/json".to_string()];
    let t = resolve(&i, &cli, Some(&env)).unwrap();
    assert_eq!(
        t.headers,
        vec![("Content-Type".to_string(), "application/json".to_string())]
    );
}

#[test]
fn non_colliding_headers_append_in_order() {
    let env = env_with(Some("http://localhost:5000"), &[], &[]);
    let cli = vec!["A: 1".to_string(), "B: 2".to_string()];
    let t = resolve(&intent(Method::Get, "/x"), &cli, Some(&env)).unwrap();
    assert_eq!(
        t.headers,
        vec![("A".to_string(), "1".to_string()), ("B".to_string(), "2".to_string())]
    );
}

#[test]
fn environment_default_headers_sit_between_template_and_cli() {
    let mut i = intent(Method::Get, "/x");
    i.headers = vec![("A".to_string(), "template".to_string())];
    let env = env_with(
        Some("http://localhost:5000"),
        &[],
        &[("A", "env"), ("B", "env")],
    );
    let cli = vec!["B: cli".to_string()];
    let t = resolve(&i, &cli, Some(&env)).unwrap();
    assert_eq!(
        t.headers,
        vec![("A".to_string(), "env".to_string()), ("B".to_string(), "cli".to_string())]
    );
}

#[test]
fn missing_variable_fails_resolution() {
    // Substitution is all-or-nothing: a placeholder with no binding yields
    // UnresolvedVariable and no template at all.
    let env = env_with(Some("http://localhost:5000"), &[], &[]);
    let r = resolve(&intent(Method::Get, "/items/{{missing}}"), &Vec::new(), Some(&env));
    assert_eq!(r, Err(SpagError::UnresolvedVariable("missing".to_string())));
}

#[test]
fn end_to_end_get_with_variable() {
    // Active environment {endpoint: http://localhost:5000, id: 42} with the
    // intent `get /items/{{id}}` resolves to the exact template.
    let env = env_with(Some("http://localhost:5000"), &[("id", "42")], &[]);
    let t = resolve(&intent(Method::Get, "/items/{{id}}"), &Vec::new(), Some(&env)).unwrap();
    assert_eq!(t.method, Method::Get);
    assert_eq!(t.endpoint, "http://localhost:5000");
    assert_eq!(t.resource, "/items/42");
    assert!(t.headers.is_empty());
    assert_eq!(t.body, None);
}

#[test]
fn body_is_substituted_too() {
    let env = env_with(Some("http://localhost:5000"), &[("name", "bob")], &[]);
    let mut i = intent(Method::Post, "/people");
    i.body = Some("{\"name\": \"{{name}}\"}".to_string());
    let t = resolve(&i, &Vec::new(), Some(&env)).unwrap();
    assert_eq!(t.body, Some("{\"name\": \"bob\"}".to_string()));
}

#[test]
fn intent_endpoint_beats_environment() {
    let env = env_with(Some("http://wrong:1"), &[], &[]);
    let mut i = intent(Method::Get, "/x");
    i.endpoint = Some("http://right:2".to_string());
    let t = resolve(&i, &Vec::new(), Some(&env)).unwrap();
    assert_eq!(t.endpoint, "http://right:2");
}

#[test]
fn no_endpoint_anywhere_is_an_error() {
    let env = env_with(None, &[], &[]);
    let r = resolve(&intent(Method::Get, "/x"), &Vec::new(), Some(&env));
    assert_eq!(r, Err(SpagError::NoEndpoint));
    let r2 = resolve(&intent(Method::Get, "/x"), &Vec::new(), None);
    assert_eq!(r2, Err(SpagError::NoEndpoint));
}

#[test]
fn header_without_colon_is_malformed() {
    let env = env_with(Some("http://localhost:5000"), &[], &[]);
    let cli = vec!["NoColonHere".to_string()];
    let r = resolve(&intent(Method::Get, "/x"), &cli, Some(&env));
    assert_eq!(r, Err(SpagError::MalformedHeader("NoColonHere".to_string())));
}

#[test]
fn empty_resource_is_malformed() {
    let env = env_with(Some("http://localhost:5000"), &[], &[]);
    let r = resolve(&intent(Method::Get, ""), &Vec::new(), Some(&env));
    assert_eq!(r, Err(SpagError::MalformedTemplate));
}

#[test]
fn invalid_endpoint_url_is_malformed() {
    let env = env_with(Some("not a url"), &[], &[]);
    let r = resolve(&intent(Method::Get, "/x"), &Vec::new(), Some(&env));
    assert_eq!(r, Err(SpagError::MalformedTemplate));
    let env2 = env_with(Some("http://"), &[], &[]);
    let r2 = resolve(&intent(Method::Get, "/x"), &Vec::new(), Some(&env2));
    assert_eq!(r2, Err(SpagError::MalformedTemplate));
}

#[test]
fn unclosed_braces_are_literal() {
    let env = env_with(Some("http://localhost:5000"), &[], &[]);
    let t = resolve(&intent(Method::Get, "/items/{{open"), &Vec::new(), Some(&env)).unwrap();
    assert_eq!(t.resource, "/items/{{open");
}

#[test]
fn cli_header_value_whitespace_is_trimmed() {
    let env = env_with(Some("http://localhost:5000"), &[], &[]);
    let cli = vec!["X:   padded value  ".to_string()];
    let t = resolve(&intent(Method::Get, "/x"), &cli, Some(&env)).unwrap();
    assert_eq!(t.headers, vec![("X".to_string(), "padded value".to_string())]);
}
