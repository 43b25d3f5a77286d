use bytedb_query::document::doc_engine::{same_json, DocEngine};
use bytedb_query::document::json::{Json, Member};
use bytedb_query::document::json_path::{evaluate_path, set_path};

/// No filter.
const ANY: Option<fn(&Json) -> bool> = None;

fn text(s: &str) -> Json {
    Json::Text(s.to_string())
}

fn object(members: Vec<(&str, Json)>) -> Json {
    let mut out = Vec::new();
    for (name, value) in members {
        out.push(Member { name: name.to_string(), value });
    }
    Json::Object(out)
}

fn is(a: Option<Json>, b: Json) -> bool {
    match a {
        Some(x) => same_json(&x, &b),
        None => false,
    }
}

#[test]
fn test_evaluate_path() {
    let doc = object(vec![("address", object(vec![("city", text("NYC"))])), ("name", text("Alice"))]);
    assert!(is(evaluate_path(&doc, "name"), text("Alice")));
    assert!(is(evaluate_path(&doc, "address.city"), text("NYC")));
    assert!(evaluate_path(&doc, "missing").is_none());
}

#[test]
fn paths_reach_into_lists_by_number() {
    let doc = object(vec![("tags", Json::List(vec![text("a"), text("b")]))]);
    assert!(is(evaluate_path(&doc, "tags.[1]"), text("b")));
    assert!(is(evaluate_path(&doc, "tags.[+0]"), text("a")));
    assert!(evaluate_path(&doc, "tags.[2]").is_none());
    assert!(evaluate_path(&doc, "tags.[99999999999999999999999]").is_none());
    assert!(evaluate_path(&doc, "tags.[x]").is_none());
    assert!(evaluate_path(&doc, "tags.[]").is_none());
    assert!(evaluate_path(&doc, "tags.0").is_none());
    assert!(evaluate_path(&doc, "[0]").is_none());
}

#[test]
fn an_empty_path_names_an_empty_member() {
    let doc = object(vec![("", text("x"))]);
    assert!(is(evaluate_path(&doc, ""), text("x")));
    assert!(evaluate_path(&text("x"), "").is_none());
}

#[test]
fn what_a_path_sets_it_leads_to() {
    let mut doc = object(vec![("b", Json::Number("1".to_string()))]);
    assert!(set_path(&mut doc, "a.x", text("deep")));
    assert!(is(evaluate_path(&doc, "a.x"), text("deep")));
    assert!(set_path(&mut doc, "b", Json::Bool(true)));
    assert!(is(evaluate_path(&doc, "b"), Json::Bool(true)));
    match &doc {
        Json::Object(m) => {
            assert_eq!(m.len(), 2);
            assert_eq!(m[0].name, "a");
            assert_eq!(m[1].name, "b");
        }
        other => panic!("{other:?}"),
    }
}

#[test]
fn a_path_through_a_plain_value_sets_nothing() {
    let mut doc = object(vec![("b", text("x"))]);
    assert!(!set_path(&mut doc, "b.c", text("y")));
    assert!(same_json(&doc, &object(vec![("b", text("x"))])));
    let mut plain = text("x");
    assert!(!set_path(&mut plain, "a", Json::Null));
}

fn logs() -> DocEngine {
    let mut doc = DocEngine::new();
    let id = doc.insert("logs", r#"{"level": "error", "msg": "disk full"}"#).unwrap();
    assert!(id.starts_with("doc_"));
    doc.insert("logs", r#"{"level": "info", "msg": "started"}"#).unwrap();
    doc
}

#[test]
fn test_doc_engine() {
    let doc = logs();
    let all = doc.find("logs", ANY).unwrap();
    assert_eq!(all.len(), 2);
    let errors = doc.find_by_path("logs", "level", &text("error")).unwrap();
    assert_eq!(errors.len(), 1);
    assert_eq!(doc.count("logs"), 2);
}

#[test]
fn all_documents_of_a_collection() {
    let doc = logs();
    let all = doc.find_all("logs").unwrap();
    assert_eq!(all.len(), 2);
    assert!(is(evaluate_path(&all[1], "msg"), text("started")));
    assert!(doc.find_all("nowhere").unwrap().is_empty());
}

#[test]
fn documents_get_names_of_their_own() {
    let doc = logs();
    let all = doc.find("logs", ANY).unwrap();
    assert!(is(evaluate_path(&all[0], "_id"), text("doc_1")));
    assert!(is(evaluate_path(&all[1], "_id"), text("doc_2")));
    assert_eq!(doc.list_collections(), vec!["logs".to_string()]);
}

#[test]
fn updates_and_deletions_go_by_path() {
    let mut doc = logs();
    assert_eq!(doc.update_by_path("logs", "level", &text("error"), "seen", Json::Bool(true)).unwrap(), 1);
    let seen = doc.find_by_path("logs", "seen", &Json::Bool(true)).unwrap();
    assert_eq!(seen.len(), 1);
    assert!(is(evaluate_path(&seen[0], "level"), text("error")));
    assert_eq!(doc.delete_by_path("logs", "level", &text("error")).unwrap(), 1);
    assert_eq!(doc.count("logs"), 1);
    assert_eq!(doc.find_by_path("logs", "level", &text("error")).unwrap().len(), 0);
}

#[test]
fn a_collection_that_is_not_there_is_empty() {
    let mut doc = DocEngine::default();
    assert_eq!(doc.count("none"), 0);
    assert_eq!(doc.find("none", ANY).unwrap().len(), 0);
    assert_eq!(doc.update_by_path("none", "a", &Json::Null, "b", Json::Null).unwrap(), 0);
    assert_eq!(doc.delete_by_path("none", "a", &Json::Null).unwrap(), 0);
}

#[test]
fn values_of_other_types_are_not_the_same() {
    assert!(!same_json(&Json::Number("1".to_string()), &text("1")));
    assert!(!same_json(&Json::Null, &Json::Bool(false)));
    assert!(same_json(&Json::List(vec![Json::Null]), &Json::List(vec![Json::Null])));
    assert!(!same_json(&Json::List(vec![Json::Null]), &Json::List(vec![])));
}

#[test]
fn documents_are_read_from_their_text() {
    let mut doc = DocEngine::new();
    doc.insert("c", r#" {"b": [1, -2.5, true, null], "a": {"x": "\u00e9"}, "n": 12345678901234567890} "#).unwrap();
    let all = doc.find("c", ANY).unwrap();
    assert!(is(evaluate_path(&all[0], "b.[0]"), Json::Number("1".to_string())));
    assert!(is(evaluate_path(&all[0], "b.[1]"), Json::Number("-2.5".to_string())));
    assert!(is(evaluate_path(&all[0], "b.[2]"), Json::Bool(true)));
    assert!(is(evaluate_path(&all[0], "b.[3]"), Json::Null));
    assert!(is(evaluate_path(&all[0], "a.x"), text("é")));
    assert!(is(evaluate_path(&all[0], "n"), Json::Number("12345678901234567890".to_string())));
    assert!(is(evaluate_path(&all[0], "_id"), text("doc_1")));
    assert_eq!(doc.insert("c", "[1]").unwrap(), "doc_2");
    assert!(same_json(&doc.find("c", ANY).unwrap()[1], &Json::List(vec![Json::Number("1".to_string())])));
}

#[test]
fn what_is_no_json_is_refused() {
    let mut doc = DocEngine::new();
    for wrong in ["", "{", "{\"a\": }", "nope", "{} x"] {
        match doc.insert("c", wrong) {
            Err(bytedb_query::error::QueryError::Execution(m)) => assert!(m.starts_with("Invalid JSON: "), "{m}"),
            other => panic!("{wrong}: {other:?}"),
        }
    }
    assert_eq!(doc.count("c"), 0);
    assert_eq!(doc.insert("c", "{}").unwrap(), "doc_1");
}

#[test]
fn a_path_leaves_alone_what_lies_off_it() {
    let mut doc = object(vec![("a", object(vec![("x", text("1")), ("y", text("2"))])), ("b", text("3"))]);
    assert!(set_path(&mut doc, "a.x", text("new")));
    assert!(is(evaluate_path(&doc, "a.y"), text("2")));
    assert!(is(evaluate_path(&doc, "b"), text("3")));
    assert!(evaluate_path(&doc, "a.z").is_none());
}

#[test]
fn documents_are_found_by_a_filter() {
    let doc = logs();
    let has = |word: &'static str| move |d: &Json| is(evaluate_path(d, "msg"), text(word));
    let found = doc.find("logs", Some(has("started"))).unwrap();
    assert_eq!(found.len(), 1);
    assert!(is(evaluate_path(&found[0], "_id"), text("doc_2")));
    assert!(doc.find("logs", Some(has("nothing"))).unwrap().is_empty());
    assert!(doc.find("nowhere", Some(has("started"))).unwrap().is_empty());
    assert!(doc.find("nowhere", ANY).unwrap().is_empty());
}

#[test]
fn zeros_are_the_same_with_and_without_a_sign() {
    let mut doc = DocEngine::new();
    doc.insert("c", r#"{"n": -0.0, "l": [0.0]}"#).unwrap();
    assert_eq!(doc.find_by_path("c", "n", &Json::Number("0.0".to_string())).unwrap().len(), 1);
    assert_eq!(doc.find_by_path("c", "l", &Json::List(vec![Json::Number("-0.0".to_string())])).unwrap().len(), 1);
    assert!(doc.find_by_path("c", "n", &Json::Number("0".to_string())).unwrap().is_empty());
}
