use zerror::answer::{
    choose_answer, extract_answer_from_json, extract_last_balanced_json, strip_code_fence,
};

#[test]
fn answer_object_round_trip() {
    for v in ["4", "", "hello world", "正确", "A###B###C", "x = {1, 2}"] {
        let text = format!("{{\"answer\":\"{}\"}}", v);
        assert_eq!(extract_answer_from_json(&text), v);
    }
}

#[test]
fn fenced_answer_object_round_trip() {
    for v in ["4", "hello world", "正确"] {
        let text = format!("```json\n{{\"answer\":\"{}\"}}\n```", v);
        assert_eq!(extract_answer_from_json(&text), v);
        let plain = format!("```\n{{\"answer\":\"{}\"}}\n```", v);
        assert_eq!(extract_answer_from_json(&plain), v);
    }
}

#[test]
fn reply_without_json_comes_back_unchanged() {
    let text = "The result is 42, no JSON here";
    assert_eq!(extract_answer_from_json(text), text);
}

#[test]
fn misspelt_key_is_read() {
    assert_eq!(extract_answer_from_json("{\"anwser\":\"B\"}"), "B");
}

#[test]
fn answer_after_reasoning_is_read_from_last_object() {
    let text = "First {\"step\": 1} then we think.\nFinal: {\"answer\": \"C\", \"why\": {\"k\": 2}}";
    assert_eq!(extract_answer_from_json(text), "C");
}

#[test]
fn malformed_object_falls_back_to_pattern() {
    let text = "Result: {\"answer\": \"B\", \"note\": }";
    assert_eq!(extract_answer_from_json(text), "B");
}

#[test]
fn non_string_answer_is_passed_through() {
    let text = "{\"answer\": 4}";
    assert_eq!(extract_answer_from_json(text), text);
}

#[test]
fn fences_and_space_are_stripped() {
    assert_eq!(strip_code_fence("  ```json\n{\"a\":1}\n```  "), "{\"a\":1}");
    assert_eq!(strip_code_fence("```{}```"), "{}");
    assert_eq!(strip_code_fence("\t plain \n"), "plain");
    assert_eq!(strip_code_fence("```"), "");
}

#[test]
fn last_balanced_span_is_found() {
    assert_eq!(
        extract_last_balanced_json("a {b} c {d {e} f} g"),
        Some("{d {e} f}".to_string())
    );
    assert_eq!(extract_last_balanced_json("no braces"), None);
    assert_eq!(extract_last_balanced_json("only close }"), None);
    assert_eq!(extract_last_balanced_json("{ unbalanced {x}}"), Some("{ unbalanced {x}}".to_string()));
}

#[test]
fn choice_follows_reading_order() {
    let s = |x: &str| Some(x.to_string());
    assert_eq!(choose_answer("raw", s("a"), s("b"), s("c")), "a");
    assert_eq!(choose_answer("raw", None, s("b"), s("c")), "b");
    assert_eq!(choose_answer("raw", None, None, s("c")), "c");
    assert_eq!(choose_answer("raw", None, None, None), "raw");
}
