use spag::doc::{doc_to_intent, template_to_doc, DocField, Document};
use spag::environment::EnvironmentRegistry;
use spag::errors::SpagError;
use spag::file_util::{ensure_extension, find_matching_files};
use spag::headers::parse_header;
use spag::history::HistoryLog;
use spag::strutil::{str_eq_ci, trim};
use spag::subst::substitute;
use spag::template::{check_url, method_from_token, method_to_str, Method, RequestTemplate};
use spag::yaml::load_yaml_string;

fn sample_template() -> RequestTemplate {
    RequestTemplate {
        method: Method::Post,
        endpoint: "http://localhost:5000".to_string(),
        resource: "/people".to_string(),
        headers: vec![
            ("Content-Type".to_string(), "application/json".to_string()),
            ("X-Auth".to_string(), "token".to_string()),
        ],
        body: Some("{\"a\": 1}".to_string()),
    }
}

#[test]
fn history_indices_are_sequential() {
    // Appending three entries then reading index 1 returns the second.
    let mut log = HistoryLog::new();
    let mut t = sample_template();
    t.resource = "/first".to_string();
    log.append(t, None, "2015-01-01T00:00:00Z".to_string());
    let mut t2 = sample_template();
    t2.resource = "/second".to_string();
    let i2 = log.append(t2, None, "2015-01-01T00:00:01Z".to_string());
    let mut t3 = sample_template();
    t3.resource = "/third".to_string();
    log.append(t3, None, "2015-01-01T00:00:02Z".to_string());
    assert_eq!(i2, 1);
    let e = log.get(1).unwrap();
    assert_eq!(e.index, 1);
    assert_eq!(e.request.resource, "/second");
}

#[test]
fn history_lookup_past_end_fails() {
    // `history show 5` with only 3 entries is IndexOutOfRange.
    let mut log = HistoryLog::new();
    for _ in 0..3 {
        log.append(sample_template(), None, "t".to_string());
    }
    match log.get(5) {
        Err(SpagError::IndexOutOfRange(5)) => {}
        other => panic!("expected IndexOutOfRange(5), got {:?}", other),
    }
    assert_eq!(log.len(), 3);
}

#[test]
fn history_list_summarizes() {
    let mut log = HistoryLog::new();
    log.append(sample_template(), None, "ts0".to_string());
    let rows = log.list();
    assert_eq!(rows.len(), 1);
    assert_eq!(rows[0].0, 0);
    assert_eq!(rows[0].1, Method::Post);
    assert_eq!(rows[0].2, "/people");
    assert_eq!(rows[0].3, "ts0");
}

#[test]
fn ensure_extension_examples() {
    assert_eq!(ensure_extension("aaa", "yml"), "aaa.yml");
    assert_eq!(ensure_extension("aaa.", ".yml"), "aaa.yml");
    assert_eq!(ensure_extension("aaa.yml", "yml"), "aaa.yml");
    assert_eq!(ensure_extension("aaa.poo", "yml"), "aaa.poo.yml");
}

#[test]
fn ensure_extension_is_idempotent() {
    for (f, e) in [
        ("aaa", "yml"),
        ("aaa.", ".yml"),
        ("aaa.yml", "yml"),
        ("aaa.poo", "yml"),
        ("", "yml"),
        ("dots...", "tar.gz"),
    ] {
        let once = ensure_extension(f, e);
        let twice = ensure_extension(&once, e);
        assert_eq!(once, twice);
    }
}

#[test]
fn environment_set_is_an_upsert() {
    // Setting key=a then key=b leaves exactly one entry, with value b.
    let mut reg = EnvironmentRegistry::new();
    reg.set("default", "key", "a");
    reg.set("default", "key", "b");
    assert_eq!(reg.envs.len(), 1);
    let vars = &reg.envs[0].variables;
    assert_eq!(vars.len(), 1);
    assert_eq!(vars[0], ("key".to_string(), "b".to_string()));
}

#[test]
fn environment_set_creates_and_keeps_other_keys() {
    let mut reg = EnvironmentRegistry::new();
    reg.set("default", "a", "1");
    reg.set("default", "b", "2");
    reg.set("other", "c", "3");
    assert_eq!(reg.envs.len(), 2);
    assert_eq!(
        reg.envs[0].variables,
        vec![("a".to_string(), "1".to_string()), ("b".to_string(), "2".to_string())]
    );
    assert_eq!(reg.envs[1].name, "other");
}

#[test]
fn show_renders_variables_and_reports_missing() {
    let mut reg = EnvironmentRegistry::new();
    reg.set("default", "a", "1");
    reg.set("default", "b", "2");
    let text = reg.show(Some("default")).unwrap();
    assert_eq!(text, "a = 1\nb = 2\n");
    assert_eq!(
        reg.show(Some("nope")),
        Err(SpagError::EnvironmentNotFound("nope".to_string()))
    );
}

#[test]
fn get_active_fails_when_none_is_active() {
    let mut reg = EnvironmentRegistry::new();
    reg.set("default", "a", "1");
    match reg.get_active() {
        Err(SpagError::NoActiveEnvironment) => {}
        other => panic!("expected NoActiveEnvironment, got {:?}", other),
    }
}

#[test]
fn template_document_round_trip() {
    // Saving a template and loading it back preserves method, resource,
    // headers (order included) and body; the endpoint is not persisted.
    let t = sample_template();
    let d = template_to_doc(&t);
    let i = doc_to_intent(&d).unwrap();
    assert_eq!(i.method, t.method);
    assert_eq!(i.resource, t.resource);
    assert_eq!(i.headers, t.headers);
    assert_eq!(i.body, t.body);
    assert_eq!(i.endpoint, None);
}

#[test]
fn document_missing_required_key_is_malformed() {
    let d = Document {
        fields: vec![("method".to_string(), DocField::Text("GET".to_string()))],
    };
    assert_eq!(doc_to_intent(&d), Err(SpagError::MalformedTemplate));
    let d2 = Document {
        fields: vec![("resource".to_string(), DocField::Text("/x".to_string()))],
    };
    assert_eq!(doc_to_intent(&d2), Err(SpagError::MalformedTemplate));
}

#[test]
fn document_unknown_keys_are_ignored() {
    let d = Document {
        fields: vec![
            ("comment".to_string(), DocField::Text("ignored".to_string())),
            ("method".to_string(), DocField::Text("delete".to_string())),
            ("resource".to_string(), DocField::Text("/x".to_string())),
        ],
    };
    let i = doc_to_intent(&d).unwrap();
    assert_eq!(i.method, Method::Delete);
    assert_eq!(i.resource, "/x");
    assert!(i.headers.is_empty());
    assert_eq!(i.body, None);
}

#[test]
fn substitution_replaces_each_placeholder() {
    let vars = vec![
        ("a".to_string(), "1".to_string()),
        ("b".to_string(), "2".to_string()),
    ];
    assert_eq!(substitute("/{{a}}/{{b}}/{{a}}", &vars), Ok("/1/2/1".to_string()));
    assert_eq!(substitute("plain", &vars), Ok("plain".to_string()));
    assert_eq!(substitute("{{c}}", &vars), Err("c".to_string()));
}

#[test]
fn parse_header_splits_on_first_colon() {
    let (n, v) = parse_header("Content-type: application/json").unwrap();
    assert_eq!(n, "Content-type");
    assert_eq!(v, "application/json");
    let (n2, v2) = parse_header("X: a:b:c").unwrap();
    assert_eq!(n2, "X");
    assert_eq!(v2, "a:b:c");
    assert!(parse_header(": nameless").is_err());
    assert!(parse_header("no colon").is_err());
}

#[test]
fn method_tokens_parse_case_insensitively() {
    assert_eq!(method_from_token("get"), Some(Method::Get));
    assert_eq!(method_from_token("POST"), Some(Method::Post));
    assert_eq!(method_from_token("Put"), Some(Method::Put));
    assert_eq!(method_from_token("patch"), Some(Method::Patch));
    assert_eq!(method_from_token("DELETE"), Some(Method::Delete));
    assert_eq!(method_from_token("HEAD"), None);
    assert_eq!(method_to_str(Method::Patch), "PATCH");
}

#[test]
fn string_helpers_behave() {
    assert!(str_eq_ci("Content-Type", "content-type"));
    assert!(!str_eq_ci("a", "b"));
    assert_eq!(trim("  padded \t"), "padded");
    assert_eq!(trim("   "), "");
}

#[test]
fn find_matching_files_matches_final_component() {
    let paths = vec![
        "a/b/c.yml".to_string(),
        "x/c.yml".to_string(),
        "c.yml".to_string(),
        "ac.yml".to_string(),
        "a/c.yml/d".to_string(),
    ];
    let found = find_matching_files("c.yml", &paths);
    assert_eq!(
        found,
        vec!["a/b/c.yml".to_string(), "x/c.yml".to_string(), "c.yml".to_string()]
    );
}

#[test]
fn yaml_parsing_reports_errors_and_accepts_documents() {
    assert!(load_yaml_string("method: GET\nresource: /x\n").is_ok());
    assert!(load_yaml_string("a: [unclosed").is_err());
    assert!(load_yaml_string("").is_err());
}

#[test]
fn error_messages_are_single_lines() {
    let m = SpagError::UnresolvedVariable("id".to_string()).message();
    assert_eq!(m, "unresolved variable: id");
    assert_eq!(SpagError::NoEndpoint.message(), "no endpoint given and none set in the environment");
    assert_eq!(
        SpagError::TransportError("timeout".to_string()).message(),
        "transport error: timeout"
    );
    assert_eq!(
        SpagError::ProtocolError("bad status line".to_string()).message(),
        "protocol error: bad status line"
    );
    assert_eq!(
        SpagError::DocumentIOError("missing file".to_string()).message(),
        "document error: missing file"
    );
}

#[test]
fn url_validity_requires_scheme_and_host() {
    assert!(check_url("http://localhost:5000"));
    assert!(check_url("https://h"));
    assert!(!check_url("nohost"));
    assert!(!check_url("http://"));
    assert!(!check_url("://host"));
    assert!(!check_url("ht tp://host"));
}

#[test]
fn document_field_of_wrong_kind_is_malformed() {
    let d = Document {
        fields: vec![
            ("method".to_string(), DocField::Text("GET".to_string())),
            ("resource".to_string(), DocField::Text("/x".to_string())),
            ("body".to_string(), DocField::Table(vec![])),
        ],
    };
    assert_eq!(doc_to_intent(&d), Err(SpagError::MalformedTemplate));
    let d2 = Document {
        fields: vec![
            ("method".to_string(), DocField::Text("GET".to_string())),
            ("resource".to_string(), DocField::Text("/x".to_string())),
            ("headers".to_string(), DocField::Text("not a table".to_string())),
        ],
    };
    assert_eq!(doc_to_intent(&d2), Err(SpagError::MalformedTemplate));
}

#[test]
fn unknown_method_token_is_malformed() {
    let d = Document {
        fields: vec![
            ("method".to_string(), DocField::Text("FETCH".to_string())),
            ("resource".to_string(), DocField::Text("/x".to_string())),
        ],
    };
    assert_eq!(doc_to_intent(&d), Err(SpagError::MalformedTemplate));
}
