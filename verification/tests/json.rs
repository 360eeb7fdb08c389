use karakuri::json::{copy_value, json_merge, JsonValue};

fn num(n: i64) -> JsonValue {
    JsonValue::Number(n.to_string())
}

fn obj(members: Vec<(&str, JsonValue)>) -> JsonValue {
    JsonValue::Object(members.into_iter().map(|(k, v)| (k.to_string(), v)).collect())
}

fn member<'a>(v: &'a JsonValue, key: &str) -> &'a JsonValue {
    match v {
        JsonValue::Object(ms) => &ms.iter().find(|(k, _)| k == key).expect("member").1,
        _ => panic!("not an object"),
    }
}

fn number(v: &JsonValue) -> &str {
    match v {
        JsonValue::Number(n) => n,
        _ => panic!("not a number"),
    }
}

#[test]
fn test_json_merge() {
    // target {"a": 1, "b": {"c": 2, "d": 3}}, patch {"b": {"c": 99}, "e": 5}
    let target = obj(vec![("a", num(1)), ("b", obj(vec![("c", num(2)), ("d", num(3))]))]);
    let patch = obj(vec![("b", obj(vec![("c", num(99))])), ("e", num(5))]);
    let target = json_merge(target, &patch);
    assert_eq!(number(member(&target, "a")), "1");
    assert_eq!(number(member(member(&target, "b"), "c")), "99");
    assert_eq!(number(member(member(&target, "b"), "d")), "3");
    assert_eq!(number(member(&target, "e")), "5");
}

#[test]
fn non_objects_are_replaced() {
    let merged = json_merge(num(1), &obj(vec![("x", JsonValue::Bool(true))]));
    assert!(matches!(member(&merged, "x"), JsonValue::Bool(true)));
    let replaced = json_merge(obj(vec![("x", num(1))]), &JsonValue::Null);
    assert!(matches!(replaced, JsonValue::Null));
    let arr = json_merge(JsonValue::Array(vec![num(1)]), &JsonValue::Array(vec![num(2), num(3)]));
    match arr {
        JsonValue::Array(items) => assert_eq!(items.len(), 2),
        _ => panic!("array expected"),
    }
}

#[test]
fn member_order_is_kept_and_new_members_go_last() {
    let merged = json_merge(
        obj(vec![("z", num(1)), ("a", num(2))]),
        &obj(vec![("m", num(3)), ("z", num(4))]),
    );
    match &merged {
        JsonValue::Object(ms) => {
            let keys: Vec<&str> = ms.iter().map(|(k, _)| k.as_str()).collect();
            assert_eq!(keys, vec!["z", "a", "m"]);
        }
        _ => panic!("object expected"),
    }
    assert_eq!(number(member(&merged, "z")), "4");
    let copy = copy_value(&merged);
    assert_eq!(number(member(&copy, "m")), "3");
}

#[test]
fn successive_patches_merge_member_by_member() {
    let options = obj(vec![("padding_left", JsonValue::Null), ("padding_right", JsonValue::Null)]);

    // First patch sets left padding
    let options = json_merge(options, &obj(vec![("padding_left", num(10))]));
    assert_eq!(number(member(&options, "padding_left")), "10");

    // Second patch sets right padding — left should remain
    let options = json_merge(options, &obj(vec![("padding_right", num(20))]));
    assert_eq!(number(member(&options, "padding_left")), "10");
    assert_eq!(number(member(&options, "padding_right")), "20");
}
