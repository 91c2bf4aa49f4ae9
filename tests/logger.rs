use zerror::correlation::{CorrelationError, CorrelationTable};
use zerror::logger::{
    answer_event, ask_event, progress_event, LogStore, ModelCallProgress, RequestLog, RequestLogger,
    SSEEvent,
};

fn record(id: &str) -> RequestLog {
    RequestLog {
        id: id.to_string(),
        timestamp: 0,
        method: "GET".to_string(),
        path: "/query".to_string(),
        status: None,
        response_time: None,
        request_body: None,
        response_body: None,
        headers: Some(vec![("user-agent".to_string(), "t".to_string())]),
        ip: None,
        user_agent: None,
        stage: "started".to_string(),
    }
}

#[test]
fn store_keeps_most_recent_records() {
    let mut store = LogStore::new(3);
    for i in 0..7 {
        store.append(record(&format!("r{}", i)));
        assert!(store.len() <= 3);
    }
    let ids: Vec<String> = store.all().into_iter().map(|r| r.id).collect();
    assert_eq!(ids, vec!["r4", "r5", "r6"]);
}

#[test]
fn store_below_capacity_keeps_everything() {
    let mut store = LogStore::new(10);
    store.append(record("a"));
    store.append(record("b"));
    let all = store.all();
    assert_eq!(all.len(), 2);
    assert_eq!(all[0].id, "a");
    assert_eq!(all[1].headers, Some(vec![("user-agent".to_string(), "t".to_string())]));
    store.clear();
    assert_eq!(store.len(), 0);
}

#[test]
fn store_of_capacity_zero_stays_empty() {
    let mut store = LogStore::new(0);
    store.append(record("a"));
    assert_eq!(store.len(), 0);
}

#[test]
fn logger_records_lifecycle_pair() {
    let mut logger = RequestLogger::new(1000);
    logger.log_request_start(
        "id-1".to_string(),
        "POST".to_string(),
        "/query".to_string(),
        Some("{}".to_string()),
        None,
        Some("127.0.0.1".to_string()),
        None,
    );
    logger.log_request_complete(
        "id-1".to_string(),
        "POST".to_string(),
        "/query".to_string(),
        200,
        5,
        Some("{\"code\":1}".to_string()),
    );
    let logs = logger.get_logs();
    assert_eq!(logs.len(), 2);
    assert_eq!(logs[0].stage, "started");
    assert_eq!(logs[0].status, None);
    assert_eq!(logs[0].ip.as_deref(), Some("127.0.0.1"));
    assert_eq!(logs[1].stage, "completed");
    assert_eq!(logs[1].status, Some(200));
    assert_eq!(logs[1].ip, None);
    assert_eq!(logs[0].id, logs[1].id);
    assert!(logs[0].timestamp > 0);
    logger.clear_logs();
    assert!(logger.get_logs().is_empty());
}

#[test]
fn logger_evicts_oldest_first() {
    let mut logger = RequestLogger::new(2);
    for i in 0..5u16 {
        logger.log_request_complete(format!("r{}", i), "GET".into(), "/".into(), 200, 1, None);
    }
    let ids: Vec<String> = logger.get_logs().into_iter().map(|r| r.id).collect();
    assert_eq!(ids, vec!["r3", "r4"]);
}

#[test]
fn one_shot_log_gets_fresh_id() {
    let mut logger = RequestLogger::default();
    logger.log_request("GET".into(), "/api/status".into(), 200, 3, None, None, None, None, None);
    logger.log_request("GET".into(), "/api/time".into(), 200, 3, None, None, None, None, None);
    let logs = logger.get_logs();
    assert_eq!(logs[0].id.len(), 36);
    assert_ne!(logs[0].id, logs[1].id);
    assert_eq!(logs[0].stage, "completed");
}

#[test]
fn answer_without_waiter_changes_nothing() {
    let mut logger = RequestLogger::new(10);
    logger.send_model_call_response("nobody".to_string(), "{\"answer\":\"4\"}".to_string());
    assert!(!logger.is_pending(&"nobody".to_string()));
    logger.send_model_call_response("nobody".to_string(), "again".to_string());
    assert!(!logger.is_pending(&"nobody".to_string()));
}

#[test]
fn answer_reaches_its_waiter_once() {
    let mut logger = RequestLogger::new(10);
    let id = "q-1".to_string();
    let mut rx = logger.register_waiter(id.clone()).unwrap();
    assert!(logger.is_pending(&id));
    logger.send_model_call_response(id.clone(), "done".to_string());
    assert!(!logger.is_pending(&id));
    assert_eq!(rx.try_recv().unwrap(), "done");
}

#[test]
fn second_waiter_for_same_id_is_refused() {
    let mut logger = RequestLogger::new(10);
    let id = "q-2".to_string();
    let _rx = logger.register_waiter(id.clone()).unwrap();
    assert!(matches!(logger.register_waiter(id.clone()), Err(CorrelationError::AlreadyPending)));
    logger.abandon_wait(&id);
    assert!(!logger.is_pending(&id));
    assert!(logger.register_waiter(id).is_ok());
}

#[test]
fn subscribers_see_later_events() {
    let mut logger = RequestLogger::new(10);
    let mut rx = logger.subscribe();
    assert_eq!(logger.subscriber_count(), 1);
    logger.send_model_call_progress("p".to_string(), "partial".to_string());
    match rx.try_recv().unwrap() {
        SSEEvent::ModelCallProgress(ModelCallProgress { request_id, content, .. }) => {
            assert_eq!(request_id, "p");
            assert_eq!(content, "partial");
        }
        other => panic!("unexpected event {:?}", other),
    }
    logger.send_model_call_request("p".to_string(), "question".to_string());
    assert_eq!(rx.try_recv().unwrap().event_name(), "model_call_request");
    logger.log_request_complete("p".into(), "GET".into(), "/".into(), 200, 1, None);
    assert_eq!(rx.try_recv().unwrap().event_name(), "log");
}

#[test]
fn table_registers_and_takes() {
    let mut table: CorrelationTable<u32> = CorrelationTable::new();
    assert_eq!(table.register("a".to_string(), 1), Ok(()));
    assert_eq!(table.register("b".to_string(), 2), Ok(()));
    assert_eq!(table.register("a".to_string(), 3), Err(CorrelationError::AlreadyPending));
    assert_eq!(table.len(), 2);
    assert_eq!(table.take(&"a".to_string()), Some(1));
    assert_eq!(table.take(&"a".to_string()), None);
    assert!(table.contains(&"b".to_string()));
    assert_eq!(table.len(), 1);
}

#[test]
fn answer_without_waiter_is_still_broadcast() {
    let mut logger = RequestLogger::new(10);
    let mut rx = logger.subscribe();
    logger.send_model_call_response("nobody".to_string(), "late".to_string());
    match rx.try_recv().unwrap() {
        SSEEvent::ModelCallResponse(m) => {
            assert_eq!(m.request_id, "nobody");
            assert_eq!(m.content, "late");
        }
        other => panic!("unexpected event {:?}", other),
    }
}

#[test]
fn delivery_hands_over_slot_and_content() {
    let mut logger = RequestLogger::new(10);
    let id = "d-1".to_string();
    let mut rx = logger.register_waiter(id.clone()).unwrap();
    let (slot, content) = logger.take_delivery(&id, &"answer text".to_string()).unwrap();
    assert_eq!(content, "answer text");
    assert!(!logger.is_pending(&id));
    slot.send(content).unwrap();
    assert_eq!(rx.try_recv().unwrap(), "answer text");
    assert!(logger.take_delivery(&id, &"again".to_string()).is_none());
}

#[test]
fn event_builders_keep_their_fields() {
    match ask_event("i".into(), "q".into(), 7) {
        SSEEvent::ModelCallRequest(m) => assert_eq!((m.request_id.as_str(), m.query.as_str(), m.timestamp), ("i", "q", 7)),
        other => panic!("unexpected {:?}", other),
    }
    assert_eq!(progress_event("i".into(), "c".into(), 1).event_name(), "model_call_progress");
    assert_eq!(answer_event("i".into(), "c".into(), 1).event_name(), "model_call_response");
}

#[test]
fn batch_append_keeps_most_recent() {
    let mut store = LogStore::new(2);
    store.append(record("old"));
    let batch: Vec<RequestLog> = (0..4).map(|i| record(&format!("b{}", i))).collect();
    store.append_all(&batch);
    let ids: Vec<String> = store.all().into_iter().map(|r| r.id).collect();
    assert_eq!(ids, vec!["b2", "b3"]);
}
