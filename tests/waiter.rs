use zerror::logger::{ModelCallProgress, ModelCallRequest, ModelCallResponse, SSEEvent};
use zerror::waiter::{ResponseWait, WaitEvent, CLOSED_MESSAGE, TIMEOUT_MESSAGE};

fn progress(id: &str, t: u64) -> WaitEvent {
    WaitEvent::Bus(
        SSEEvent::ModelCallProgress(ModelCallProgress {
            request_id: id.to_string(),
            content: "...".to_string(),
            timestamp: 0,
        }),
        t,
    )
}

#[test]
fn silent_wait_times_out_at_budget() {
    let mut w = ResponseWait::new("q".to_string(), 30_000, 0);
    assert_eq!(w.time_left(0), 30_000);
    assert_eq!(w.step(WaitEvent::Tick(29_999)), None);
    assert_eq!(w.step(WaitEvent::Tick(30_000)), Some(Err(TIMEOUT_MESSAGE.to_string())));
}

#[test]
fn progress_pushes_the_deadline_back() {
    let mut w = ResponseWait::new("q".to_string(), 30_000, 0);
    assert_eq!(w.step(progress("q", 25_000)), None);
    assert_eq!(w.last_activity(), 25_000);
    assert_eq!(w.time_left(30_000), 25_000);
    assert_eq!(w.step(WaitEvent::Tick(30_000)), None);
    assert_eq!(w.step(WaitEvent::Tick(54_999)), None);
    assert_eq!(w.step(WaitEvent::Tick(55_000)), Some(Err(TIMEOUT_MESSAGE.to_string())));
}

#[test]
fn other_ids_and_bus_errors_do_not_count() {
    let mut w = ResponseWait::new("q".to_string(), 1_000, 0);
    assert_eq!(w.step(progress("other", 900)), None);
    assert_eq!(w.step(WaitEvent::BusError), None);
    let ask = SSEEvent::ModelCallRequest(ModelCallRequest {
        request_id: "q".to_string(),
        query: "?".to_string(),
        timestamp: 0,
    });
    assert_eq!(w.step(WaitEvent::Bus(ask, 950)), None);
    assert_eq!(w.last_activity(), 0);
    assert_eq!(w.step(WaitEvent::Tick(1_000)), Some(Err(TIMEOUT_MESSAGE.to_string())));
}

#[test]
fn broadcast_answer_counts_as_activity() {
    let mut w = ResponseWait::new("q".to_string(), 1_000, 0);
    let ans = SSEEvent::ModelCallResponse(ModelCallResponse {
        request_id: "q".to_string(),
        content: "x".to_string(),
        timestamp: 0,
    });
    assert_eq!(w.step(WaitEvent::Bus(ans, 800)), None);
    assert_eq!(w.step(WaitEvent::Tick(1_000)), None);
    assert_eq!(w.time_left(1_000), 800);
}

#[test]
fn answer_ends_the_wait() {
    let mut w = ResponseWait::new("q".to_string(), 1_000, 0);
    assert_eq!(w.step(WaitEvent::Answer("{\"answer\":\"4\"}".to_string())), Some(Ok("{\"answer\":\"4\"}".to_string())));
}

#[test]
fn closed_slot_ends_the_wait() {
    let mut w = ResponseWait::new("q".to_string(), 1_000, 0);
    assert_eq!(w.step(WaitEvent::SlotClosed), Some(Err(CLOSED_MESSAGE.to_string())));
}

#[test]
fn run_stops_at_first_deciding_event() {
    let mut w = ResponseWait::new("q".to_string(), 30_000, 0);
    let events = vec![
        progress("q", 25_000),
        WaitEvent::Tick(30_000),
        WaitEvent::Tick(55_000),
        WaitEvent::Answer("late".to_string()),
    ];
    assert_eq!(w.run(events), Some(Err(TIMEOUT_MESSAGE.to_string())));
    let mut w = ResponseWait::new("q".to_string(), 30_000, 0);
    let events = vec![progress("q", 25_000), WaitEvent::Tick(54_999), WaitEvent::Answer("4".to_string())];
    assert_eq!(w.run(events), Some(Ok("4".to_string())));
    let mut w = ResponseWait::new("q".to_string(), 30_000, 0);
    assert_eq!(w.run(vec![WaitEvent::BusError]), None);
}
