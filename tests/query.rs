use zerror::logger::RequestLogger;
use zerror::query::{
    build_model_query, client_ip, contains_url, decide_query, finish_model_query, plan_query,
    search_pattern, QueryPlan, BRIEF_PROMPT, DETAILED_PROMPT, URL_NOTICE,
};
use zerror::types::{QueryData, QueryRequest, QueryResponse};
use zerror::waiter::{ResponseWait, WaitEvent};

fn request(title: &str, options: Option<&str>, kind: Option<&str>) -> QueryRequest {
    QueryRequest {
        title: title.to_string(),
        options: options.map(|s| s.to_string()),
        query_type: kind.map(|s| s.to_string()),
    }
}

#[test]
fn urls_are_detected() {
    assert!(contains_url("see http://x.test/q1"));
    assert!(contains_url("https://a.b"));
    assert!(!contains_url("http:// nothing"));
    assert!(!contains_url("no link here"));
    assert!(!contains_url("https://"));
    assert!(!contains_url("http:// x"));
    assert!(contains_url("xhttps://y"));
}

#[test]
fn question_asked_and_answered_end_to_end() {
    let mut logger = RequestLogger::new(1000);
    let req = request("2+2=?", None, None);
    let id = "e2e-1".to_string();
    let prompt = match plan_query(&req, Ok(None), false, false) {
        QueryPlan::AskModel(p) => p,
        other => panic!("expected an ask, got {:?}", other),
    };
    assert_eq!(prompt, format!("{}2+2=?", BRIEF_PROMPT));
    let mut rx = logger.register_waiter(id.clone()).unwrap();
    logger.send_model_call_request(id.clone(), prompt);
    logger.send_model_call_response(id.clone(), "{\"answer\":\"4\"}".to_string());
    let mut wait = ResponseWait::new(id.clone(), 30_000, 0);
    let outcome = wait.step(WaitEvent::Answer(rx.try_recv().unwrap())).unwrap();
    logger.abandon_wait(&id);
    let (status, resp) = finish_model_query(&req.title, outcome);
    assert_eq!(status, 200);
    assert_eq!(resp.code, 1);
    let data = resp.data.unwrap();
    assert_eq!(data.question, "2+2=?");
    assert_eq!(data.answer, "4");
    assert!(data.is_ai);
    assert!(resp.message.is_none());
}

#[test]
fn question_with_url_gets_notice_without_ask() {
    let req = request("see http://x.test/q1", None, None);
    match plan_query(&req, Ok(None), false, false) {
        QueryPlan::Reply(status, resp) => {
            assert_eq!(status, 200);
            assert_eq!(resp.code, 1);
            let data = resp.data.unwrap();
            assert_eq!(data.answer, URL_NOTICE);
            assert_eq!(data.answer, "题目中含有URL，无法直接展示");
            assert_eq!(data.question, "see http://x.test/q1");
            assert!(!data.is_ai);
        }
        other => panic!("expected a reply, got {:?}", other),
    }
}

#[test]
fn url_in_options_also_counts() {
    let req = request("pick one", Some("A https://img.test/a.png"), None);
    assert!(matches!(plan_query(&req, Ok(None), false, false), QueryPlan::Reply(200, _)));
}

#[test]
fn cached_answer_is_returned_as_is() {
    let req = request("see http://x.test/q1", None, None);
    let hit = Some(("Q".to_string(), "A".to_string(), true));
    match plan_query(&req, Ok(hit), false, false) {
        QueryPlan::Reply(200, resp) => {
            let d = resp.data.unwrap();
            assert_eq!((d.question.as_str(), d.answer.as_str(), d.is_ai), ("Q", "A", true));
        }
        other => panic!("unexpected {:?}", other),
    }
}

#[test]
fn lookup_failure_is_a_server_error() {
    let req = request("x", None, None);
    match plan_query(&req, Err("disk gone".to_string()), false, false) {
        QueryPlan::Reply(status, resp) => {
            assert_eq!(status, 500);
            assert_eq!(resp.code, -1);
            assert_eq!(resp.message.as_deref(), Some("Database error: disk gone"));
        }
        other => panic!("unexpected {:?}", other),
    }
}

#[test]
fn silent_answerer_gives_timeout_reply() {
    let mut wait = ResponseWait::new("t".to_string(), 30_000, 0);
    assert_eq!(wait.step(WaitEvent::Tick(10_000)), None);
    let outcome = wait.step(WaitEvent::Tick(30_000)).unwrap();
    let (status, resp) = finish_model_query(&"x".to_string(), outcome);
    assert_eq!(status, 408);
    assert_eq!(resp.code, -1);
    assert_eq!(
        resp.message.as_deref(),
        Some("Model call failed: Timeout waiting for model response (no new tokens)")
    );
}

#[test]
fn prompt_carries_options_and_type() {
    let req = request("Q", Some("A;B"), Some("multiple"));
    assert_eq!(
        build_model_query(&req, false, false),
        format!("{}Q，选项：A;B，题目类型：多选。这是多选题，请你将答案用###连接", BRIEF_PROMPT)
    );
    let req = request("Q", Some(""), Some("judgement"));
    assert_eq!(
        build_model_query(&req, true, true),
        format!(
            "{}Q，题目类型：判断。这是判断题，请你只回答\\\"正确\\\"或\\\"错误\\\"，不要添加任何其他内容",
            BRIEF_PROMPT
        )
    );
    let req = request("Q", None, Some("completion"));
    assert_eq!(
        build_model_query(&req, false, true),
        format!("{}Q，题目类型：填空。这是填空题，如果有多个空，使用###连接", DETAILED_PROMPT)
    );
    let req = request("Q", None, Some("essay"));
    assert_eq!(build_model_query(&req, false, false), format!("{}Q，题目类型：essay", BRIEF_PROMPT));
    let req = request("Q", None, Some("single"));
    assert_eq!(build_model_query(&req, false, false), format!("{}Q，题目类型：单选", BRIEF_PROMPT));
    let req = request("Q", None, Some(""));
    assert_eq!(build_model_query(&req, false, false), format!("{}Q", BRIEF_PROMPT));
}

#[test]
fn client_address_preference() {
    assert_eq!(client_ip(Some("1.1.1.1".into()), Some("2.2.2.2".into())), "1.1.1.1");
    assert_eq!(client_ip(None, Some("2.2.2.2".into())), "2.2.2.2");
    assert_eq!(client_ip(None, None), "127.0.0.1");
}

#[test]
fn cache_pattern_wraps_title() {
    assert_eq!(search_pattern("abc"), "%abc%");
}

#[test]
fn response_constructors() {
    let r = QueryResponse::not_found();
    assert_eq!(r.code, 0);
    assert_eq!(r.message.as_deref(), Some("No matching records found"));
    let r = QueryResponse::error("boom".to_string());
    assert_eq!((r.code, r.message.as_deref()), (-1, Some("boom")));
    let r = QueryResponse::success(QueryData { question: "q".into(), answer: "a".into(), is_ai: false });
    assert_eq!(r.code, 1);
    assert!(r.message.is_none());
    assert_eq!(r.data.unwrap().answer, "a");
}

#[test]
fn decision_follows_the_url_flag() {
    let req = request("plain question", None, Some("single"));
    match decide_query(&req, Ok(None), true, false, false) {
        QueryPlan::Reply(200, resp) => assert_eq!(resp.data.unwrap().answer, URL_NOTICE),
        other => panic!("unexpected {:?}", other),
    }
    match decide_query(&req, Ok(None), false, false, true) {
        QueryPlan::AskModel(p) => {
            assert_eq!(p, format!("{}plain question，题目类型：单选", DETAILED_PROMPT))
        }
        other => panic!("unexpected {:?}", other),
    }
}
