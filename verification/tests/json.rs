use npulama::json::{
    find_member, keep_present, keep_supported, model_id, model_ids, model_texts,
    strip_unsupported, without_unsupported, Member,
};

fn member(name: &str, text: &str) -> Member {
    Member { name: name.to_string(), text: text.to_string() }
}

fn stripped(body: &str) -> Option<String> {
    strip_unsupported(body.as_bytes()).map(|b| String::from_utf8(b).unwrap())
}

#[test]
fn unsupported_field_is_taken_out() {
    assert_eq!(
        stripped("{\"a\": 1, \"max_completion_tokens\": 32000, \"b\": [1.50, 2]}"),
        Some("{\"a\":1,\"b\":[1.50, 2]}".to_string())
    );
    assert_eq!(stripped("{\"max_completion_tokens\": null}"), Some("{}".to_string()));
    assert_eq!(stripped("{\"max_completion_\\u0074okens\": 1}"), Some("{}".to_string()));
}

#[test]
fn other_values_stay_letter_for_letter() {
    assert_eq!(
        stripped(
            "{\"max_completion_tokens\":1,\"n\":123456789012345678901234567890,\"s\":\"\\u00e9\\n\"}"
        ),
        Some("{\"n\":123456789012345678901234567890,\"s\":\"\\u00e9\\n\"}".to_string())
    );
}

#[test]
fn other_bodies_are_left_alone() {
    assert_eq!(stripped(""), None);
    assert_eq!(stripped("{\"a\": 1}"), None);
    assert_eq!(stripped("{\"nested\": {\"max_completion_tokens\": 1}}"), None);
    assert_eq!(stripped("[\"max_completion_tokens\"]"), None);
    assert_eq!(stripped("max_completion_tokens"), None);
    assert_eq!(stripped("{\"max_completion_tokens\": 1"), None);
    assert_eq!(strip_unsupported(&[0xff, 0xfe]), None);
}

#[test]
fn stripping_twice_changes_nothing_more() {
    let once = strip_unsupported(b"{\"max_completion_tokens\":1,\"a\":2}").unwrap();
    assert_eq!(strip_unsupported(&once), None);
}

#[test]
fn members_are_kept_in_order() {
    let kept = keep_supported(vec![
        member("b", "1"),
        member("max_completion_tokens", "2"),
        member("a", "3"),
        member("max_tokens", "4"),
    ]);
    let names: Vec<String> = kept.into_iter().map(|m| m.name + "=" + &m.text).collect();
    assert_eq!(names, vec!["b=1", "a=3", "max_tokens=4"]);
}

#[test]
fn members_are_found_by_name() {
    let list = vec![member("a", "1"), member("b", "2"), member("a", "3")];
    assert_eq!(find_member(&list, "a"), Some("1".to_string()));
    assert_eq!(find_member(&list, "b"), Some("2".to_string()));
    assert_eq!(find_member(&list, "c"), None);
}

#[test]
fn absent_texts_are_left_out() {
    let list = vec![None, Some("x".to_string()), None, Some("y".to_string())];
    assert_eq!(keep_present(&list), vec!["x", "y"]);
}

#[test]
fn ids_are_read_from_a_model_list() {
    assert_eq!(
        model_ids(b"{\"object\":\"list\",\"data\":[{\"id\":\"phi-4-mini\"},{\"x\":1},{\"id\":7},{\"id\":\"a\\\"b\"},\"s\"]}"),
        vec!["phi-4-mini", "a\"b"]
    );
    assert_eq!(model_id("{\"id\":\"q\"}"), Some("q".to_string()));
    assert_eq!(model_id("[\"id\"]"), None);
    assert_eq!(model_texts(b"{\"data\":[1, {\"id\": 2}]}"), vec!["1", "{\"id\": 2}"]);
}

#[test]
fn other_replies_hold_no_ids() {
    for body in ["", "null", "[]", "{}", "{\"data\":null}", "{\"data\":{\"id\":\"x\"}}", "{\"data\":[]}",
        "{\"data\":[{\"id\":\"x\"}]", "{\"data\":[{\"id\":\"x\"}],\"n\":1e999}"]
    {
        assert!(model_ids(body.as_bytes()).is_empty(), "{}", body);
    }
}

#[test]
fn object_without_the_field_needs_no_change() {
    assert!(without_unsupported(vec![member("a", "1"), member("max_tokens", "2")]).is_none());
    assert!(without_unsupported(vec![]).is_none());
    let kept =
        without_unsupported(vec![member("a", "1"), member("max_completion_tokens", "2")]).unwrap();
    assert_eq!(kept.len(), 1);
    assert_eq!(kept[0].name, "a");
    assert_eq!(kept[0].text, "1");
}
