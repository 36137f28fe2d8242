use codex_plus_core::json::JsonValue;
use codex_plus_core::merge::merge_json_objects;

fn num(n: &str) -> JsonValue {
    JsonValue::Number(n.to_string())
}

fn obj(entries: &[(&str, JsonValue)]) -> JsonValue {
    JsonValue::Object(entries.iter().map(|(k, v)| (k.to_string(), v.deep_clone())).collect())
}

fn same(a: &JsonValue, b: &JsonValue) -> bool {
    codex_plus_core::json::json_equal(a, b)
}

#[test]
fn merges_independent_fields_and_reports_same_field_conflict() {
    let ancestor = obj(&[("a", num("1")), ("b", num("1"))]);
    let local = obj(&[("a", num("2")), ("b", num("1"))]);
    let remote = obj(&[("a", num("1")), ("b", num("3"))]);
    let (merged, conflicts) = merge_json_objects(&ancestor, &local, &remote, "");
    assert!(same(&merged, &obj(&[("a", num("2")), ("b", num("3"))])));
    assert!(conflicts.is_empty());
    let (_, conflicts) = merge_json_objects(
        &ancestor,
        &obj(&[("a", num("2")), ("b", num("1"))]),
        &obj(&[("a", num("3")), ("b", num("1"))]),
        "",
    );
    assert_eq!(conflicts.len(), 1);
}

#[test]
fn conflict_names_the_dotted_field_and_keeps_local() {
    let ancestor = obj(&[("outer", obj(&[("x", num("1"))]))]);
    let local = obj(&[("outer", obj(&[("x", num("2"))]))]);
    let remote = obj(&[("outer", obj(&[("x", num("3"))]))]);
    let (merged, conflicts) = merge_json_objects(&ancestor, &local, &remote, "root");
    assert_eq!(conflicts.len(), 1);
    assert_eq!(conflicts[0].path, "root.outer.x");
    assert_eq!(conflicts[0].field, "root.outer.x");
    assert!(same(&conflicts[0].local, &num("2")));
    assert!(same(&conflicts[0].remote, &num("3")));
    assert!(same(&conflicts[0].ancestor, &num("1")));
    assert!(same(&merged, &local));
}

#[test]
fn keys_of_all_sides_are_merged_in_key_order() {
    let ancestor = obj(&[]);
    let local = obj(&[("b", JsonValue::Bool(true))]);
    let remote = obj(&[("a", JsonValue::Str("x".to_string()))]);
    let (merged, conflicts) = merge_json_objects(&ancestor, &local, &remote, "");
    assert!(conflicts.is_empty());
    assert!(same(&merged, &obj(&[("a", JsonValue::Str("x".to_string())), ("b", JsonValue::Bool(true))])));
}

#[test]
fn key_removed_on_one_side_becomes_null() {
    let ancestor = obj(&[("a", num("1"))]);
    let local = obj(&[("a", num("1"))]);
    let remote = obj(&[]);
    let (merged, conflicts) = merge_json_objects(&ancestor, &local, &remote, "");
    assert!(conflicts.is_empty());
    assert!(same(&merged, &obj(&[("a", JsonValue::Null)])));
}

#[test]
fn merging_a_document_with_itself_changes_nothing() {
    let doc = obj(&[("a", JsonValue::Array(vec![num("1"), JsonValue::Null])), ("z", obj(&[("k", JsonValue::Bool(false))]))]);
    let (merged, conflicts) = merge_json_objects(&doc, &doc, &doc, "");
    assert!(conflicts.is_empty());
    assert!(same(&merged, &doc));
}

#[test]
fn non_objects_follow_the_changed_side() {
    let a = num("1");
    assert!(same(&merge_json_objects(&a, &a, &num("2"), "p").0, &num("2")));
    assert!(same(&merge_json_objects(&a, &num("2"), &a, "p").0, &num("2")));
    assert!(merge_json_objects(&a, &num("2"), &num("2"), "p").1.is_empty());
    assert_eq!(merge_json_objects(&a, &num("2"), &num("3"), "p").1.len(), 1);
}

#[test]
fn zero_and_negative_zero_are_equal_values() {
    assert!(same(&num("0.0"), &num("-0.0")));
    assert!(same(&num("-0.0"), &num("0.0")));
    assert!(!same(&num("0"), &num("0.0")));
    assert!(!same(&num("1.0"), &num("1")));
    let (merged, conflicts) = merge_json_objects(&num("0.0"), &num("-0.0"), &num("5"), "x");
    assert!(conflicts.is_empty());
    assert!(same(&merged, &num("5")));
}

#[test]
fn swapping_the_sides_swaps_each_conflict() {
    let ancestor = obj(&[("a", num("1")), ("b", num("1")), ("c", num("1"))]);
    let local = obj(&[("a", num("2")), ("b", num("2")), ("c", num("1"))]);
    let remote = obj(&[("a", num("3")), ("b", num("1")), ("d", num("4"))]);
    let (m1, c1) = merge_json_objects(&ancestor, &local, &remote, "");
    let (m2, c2) = merge_json_objects(&ancestor, &remote, &local, "");
    assert_eq!(c1.len(), 1);
    assert_eq!(c2.len(), 1);
    assert_eq!(c1[0].path, "a");
    assert_eq!(c2[0].path, "a");
    assert!(same(&c1[0].local, &c2[0].remote));
    assert!(same(&c1[0].remote, &c2[0].local));
    assert!(same(&m1, &obj(&[("a", num("2")), ("b", num("2")), ("c", JsonValue::Null), ("d", num("4"))])));
    assert!(same(&m2, &obj(&[("a", num("3")), ("b", num("2")), ("c", JsonValue::Null), ("d", num("4"))])));
    let (n1, d1) = merge_json_objects(&ancestor, &local, &obj(&[("a", num("1")), ("b", num("1")), ("c", num("7"))]), "");
    let (n2, d2) = merge_json_objects(&ancestor, &obj(&[("a", num("1")), ("b", num("1")), ("c", num("7"))]), &local, "");
    assert!(d1.is_empty() && d2.is_empty());
    assert!(same(&n1, &n2));
}
