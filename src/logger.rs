//! Request lifecycle records, the events broadcast to live subscribers, the
//! bounded store of records, and the logger that ties them to the broadcast
//! bus and to the table of pending asks.
use vstd::prelude::*;
use crate::correlation::{CorrelationError, CorrelationTable};
use crate::outside::{
    answer_slot, count_receivers, event_channel, fresh_request_id, now_millis, subscribe_events,
};
use tokio::sync::broadcast;
use tokio::sync::oneshot;

verus! {

/// Stage of a request that has begun.
pub const STAGE_STARTED: &'static str = "started";

/// Stage of a request that has finished.
pub const STAGE_COMPLETED: &'static str = "completed";

/// How many events the broadcast bus buffers for a slow subscriber.
pub const EVENT_BUFFER: usize = 1000;

/// How many records a default logger keeps.
pub const DEFAULT_MAX_LOGS: usize = 1000;

/// One lifecycle record of an inbound request. A `started` record carries the
/// request's metadata; a `completed` one carries status, elapsed time and
/// response body. `timestamp` is in milliseconds since the Unix epoch, UTC.
#[derive(Debug, Clone)]
pub struct RequestLog {
    pub id: String,
    pub timestamp: i64,
    pub method: String,
    pub path: String,
    pub status: Option<u16>,
    pub response_time: Option<u64>,
    pub request_body: Option<String>,
    pub response_body: Option<String>,
    pub headers: Option<Vec<(String, String)>>,
    pub ip: Option<String>,
    pub user_agent: Option<String>,
    pub stage: String,
}

/// What a `RequestLog` holds, as mathematical values.
pub struct RequestLogView {
    pub id: Seq<char>,
    pub timestamp: i64,
    pub method: Seq<char>,
    pub path: Seq<char>,
    pub status: Option<u16>,
    pub response_time: Option<u64>,
    pub request_body: Option<Seq<char>>,
    pub response_body: Option<Seq<char>>,
    pub headers: Option<Seq<(Seq<char>, Seq<char>)>>,
    pub ip: Option<Seq<char>>,
    pub user_agent: Option<Seq<char>>,
    pub stage: Seq<char>,
}

impl View for RequestLog {
    type V = RequestLogView;

    open spec fn view(&self) -> RequestLogView {
        RequestLogView {
            id: self.id@,
            timestamp: self.timestamp,
            method: self.method@,
            path: self.path@,
            status: self.status,
            response_time: self.response_time,
            request_body: self.request_body.deep_view(),
            response_body: self.response_body.deep_view(),
            headers: self.headers.deep_view(),
            ip: self.ip.deep_view(),
            user_agent: self.user_agent.deep_view(),
            stage: self.stage@,
        }
    }
}

fn copy_text(s: &Option<String>) -> (r: Option<String>)
    ensures
        r.deep_view() == s.deep_view(),
{
    match s {
        Some(t) => Some(t.clone()),
        None => None,
    }
}

fn copy_headers(h: &Option<Vec<(String, String)>>) -> (r: Option<Vec<(String, String)>>)
    ensures
        r.deep_view() == h.deep_view(),
{
    match h {
        Some(v) => {
            let mut out: Vec<(String, String)> = Vec::new();
            let mut i: usize = 0;
            while i < v.len()
                invariant
                    i <= v@.len(),
                    out.deep_view() == v.deep_view().take(i as int),
                decreases v@.len() - i,
            {
                let k = v[i].0.clone();
                let x = v[i].1.clone();
                out.push((k, x));
                assert(v.deep_view().take(i + 1) == v.deep_view().take(i as int).push(
                    v.deep_view()[i as int],
                ));
                i = i + 1;
            }
            assert(v.deep_view().take(v@.len() as int) == v.deep_view());
            Some(out)
        },
        None => None,
    }
}

impl RequestLog {
    /// A copy of the record holding the same values.
    pub fn duplicate(&self) -> (r: RequestLog)
        ensures
            r@ == self@,
    {
        RequestLog {
            id: self.id.clone(),
            timestamp: self.timestamp,
            method: self.method.clone(),
            path: self.path.clone(),
            status: self.status,
            response_time: self.response_time,
            request_body: copy_text(&self.request_body),
            response_body: copy_text(&self.response_body),
            headers: copy_headers(&self.headers),
            ip: copy_text(&self.ip),
            user_agent: copy_text(&self.user_agent),
            stage: self.stage.clone(),
        }
    }
}

/// Asks the answering side to answer `query` for the request `request_id`.
#[derive(Debug, Clone)]
pub struct ModelCallRequest {
    pub request_id: String,
    pub query: String,
    pub timestamp: i64,
}

/// Partial output of the answering side: a sign that it is still working.
#[derive(Debug, Clone)]
pub struct ModelCallProgress {
    pub request_id: String,
    pub content: String,
    pub timestamp: i64,
}

/// The final output of the answering side for one request.
#[derive(Debug, Clone)]
pub struct ModelCallResponse {
    pub request_id: String,
    pub content: String,
    pub timestamp: i64,
}

/// An event on the broadcast bus.
#[derive(Debug, Clone)]
pub enum SSEEvent {
    RequestLog(RequestLog),
    ModelCallRequest(ModelCallRequest),
    ModelCallProgress(ModelCallProgress),
    ModelCallResponse(ModelCallResponse),
}

pub open spec fn event_name_spec(e: SSEEvent) -> Seq<char> {
    match e {
        SSEEvent::RequestLog(_) => "log"@,
        SSEEvent::ModelCallRequest(_) => "model_call_request"@,
        SSEEvent::ModelCallProgress(_) => "model_call_progress"@,
        SSEEvent::ModelCallResponse(_) => "model_call_response"@,
    }
}

impl SSEEvent {
    /// The name under which the event goes out on the event stream.
    pub fn event_name(&self) -> (r: &'static str)
        ensures
            r@ == event_name_spec(*self),
    {
        match self {
            SSEEvent::RequestLog(_) => "log",
            SSEEvent::ModelCallRequest(_) => "model_call_request",
            SSEEvent::ModelCallProgress(_) => "model_call_progress",
            SSEEvent::ModelCallResponse(_) => "model_call_response",
        }
    }
}

/// What an event holds, as mathematical values: the record, or the request
/// id, the query or content, and the timestamp.
pub enum SSEEventView {
    RequestLog(RequestLogView),
    ModelCallRequest(Seq<char>, Seq<char>, i64),
    ModelCallProgress(Seq<char>, Seq<char>, i64),
    ModelCallResponse(Seq<char>, Seq<char>, i64),
}

impl View for SSEEvent {
    type V = SSEEventView;

    open spec fn view(&self) -> SSEEventView {
        match self {
            SSEEvent::RequestLog(l) => SSEEventView::RequestLog(l@),
            SSEEvent::ModelCallRequest(m) => SSEEventView::ModelCallRequest(
                m.request_id@,
                m.query@,
                m.timestamp,
            ),
            SSEEvent::ModelCallProgress(m) => SSEEventView::ModelCallProgress(
                m.request_id@,
                m.content@,
                m.timestamp,
            ),
            SSEEvent::ModelCallResponse(m) => SSEEventView::ModelCallResponse(
                m.request_id@,
                m.content@,
                m.timestamp,
            ),
        }
    }
}

/// The ask for `query` on behalf of the request `request_id`.
pub fn ask_event(request_id: String, query: String, timestamp: i64) -> (r: SSEEvent)
    ensures
        r@ == SSEEventView::ModelCallRequest(request_id@, query@, timestamp),
{
    SSEEvent::ModelCallRequest(ModelCallRequest { request_id, query, timestamp })
}

/// The progress note `content` for the request `request_id`.
pub fn progress_event(request_id: String, content: String, timestamp: i64) -> (r: SSEEvent)
    ensures
        r@ == SSEEventView::ModelCallProgress(request_id@, content@, timestamp),
{
    SSEEvent::ModelCallProgress(ModelCallProgress { request_id, content, timestamp })
}

/// The final answer `content` for the request `request_id`.
pub fn answer_event(request_id: String, content: String, timestamp: i64) -> (r: SSEEvent)
    ensures
        r@ == SSEEventView::ModelCallResponse(request_id@, content@, timestamp),
{
    SSEEvent::ModelCallResponse(ModelCallResponse { request_id, content, timestamp })
}

/// `s` without its oldest entries beyond the last `cap`.
pub open spec fn keep_last<A>(s: Seq<A>, cap: nat) -> Seq<A> {
    if s.len() > cap {
        s.skip(s.len() - cap)
    } else {
        s
    }
}

/// What a store of capacity `cap` holding `start` holds after `recs` are
/// appended one by one.
pub open spec fn after_appends<A>(cap: nat, start: Seq<A>, recs: Seq<A>) -> Seq<A>
    decreases recs.len(),
{
    if recs.len() == 0 {
        start
    } else {
        keep_last(after_appends(cap, start, recs.drop_last()).push(recs.last()), cap)
    }
}

proof fn lemma_keep_last_push<A>(s: Seq<A>, x: A, cap: nat)
    ensures
        keep_last(keep_last(s, cap).push(x), cap) == keep_last(s.push(x), cap),
{
    if s.len() > cap {
        assert(keep_last(s, cap).push(x).skip(1) == s.push(x).skip(s.len() + 1 - cap));
    }
}

/// A bounded store never holds more than its capacity, and what it holds is
/// exactly the most recently appended records, oldest first: appending `recs`
/// to a store holding `start` leaves the last `cap` records of `start + recs`.
pub proof fn lemma_appends_keep_most_recent<A>(cap: nat, start: Seq<A>, recs: Seq<A>)
    requires
        start.len() <= cap,
    ensures
        after_appends(cap, start, recs) == keep_last(start + recs, cap),
        after_appends(cap, start, recs).len() <= cap,
        recs.len() >= cap ==> after_appends(cap, start, recs) == recs.skip(recs.len() - cap),
    decreases recs.len(),
{
    if recs.len() > 0 {
        lemma_appends_keep_most_recent(cap, start, recs.drop_last());
        lemma_keep_last_push(start + recs.drop_last(), recs.last(), cap);
        assert((start + recs.drop_last()).push(recs.last()) == start + recs);
    } else {
        assert(start + recs == start);
    }
    if recs.len() >= cap {
        assert((start + recs).skip(start.len() + recs.len() - cap) == recs.skip(recs.len() - cap));
    }
}

/// Insertion-ordered store of lifecycle records that keeps the most recent
/// `capacity` of them.
pub struct LogStore {
    records: std::collections::VecDeque<RequestLog>,
    capacity: usize,
}

impl View for LogStore {
    type V = Seq<RequestLogView>;

    closed spec fn view(&self) -> Seq<RequestLogView> {
        self.records@.map_values(|r: RequestLog| r@)
    }
}

impl LogStore {
    pub closed spec fn capacity_spec(&self) -> nat {
        self.capacity as nat
    }

    pub closed spec fn wf(&self) -> bool {
        self.records@.len() <= self.capacity
    }

    pub fn new(capacity: usize) -> (r: Self)
        ensures
            r.wf(),
            r@ == Seq::<RequestLogView>::empty(),
            r.capacity_spec() == capacity,
    {
        let r = LogStore { records: std::collections::VecDeque::new(), capacity };
        assert(r@ == Seq::<RequestLogView>::empty());
        r
    }

    pub fn capacity(&self) -> (r: usize)
        ensures
            r == self.capacity_spec(),
    {
        self.capacity
    }

    pub fn len(&self) -> (r: usize)
        ensures
            r == self@.len(),
    {
        self.records.len()
    }

    /// Inserts `record` at the tail, then evicts from the head until the store
    /// is within its capacity.
    pub fn append(&mut self, record: RequestLog)
        requires
            old(self).wf(),
        ensures
            final(self).wf(),
            final(self).capacity_spec() == old(self).capacity_spec(),
            final(self)@ == keep_last(old(self)@.push(record@), old(self).capacity_spec()),
    {
        let ghost s0 = self.records@.push(record);
        let ghost cap = self.capacity as nat;
        assert(s0.map_values(|r: RequestLog| r@) == self@.push(record@));
        self.records.push_back(record);
        let ghost mut d: int = 0;
        assert(s0.skip(0) == s0);
        while self.records.len() > self.capacity
            invariant
                self.capacity == cap,
                0 <= d <= s0.len(),
                s0.len() <= cap + 1,
                self.records@ == s0.skip(d),
                d == 0 || s0.len() - d >= cap,
            decreases self.records@.len(),
        {
            self.records.pop_front();
            proof {
                assert(s0.skip(d).subrange(1, s0.skip(d).len() as int) == s0.skip(d + 1));
                d = d + 1;
            }
        }
        assert(keep_last(s0, cap) == s0.skip(d));
        assert(s0.skip(d).map_values(|r: RequestLog| r@) == s0.map_values(|r: RequestLog| r@).skip(
            d,
        ));
    }

    /// Appends copies of `records` one by one, oldest first. The store then
    /// holds the last `capacity` records of its old contents followed by
    /// `records`, and never more than `capacity`.
    pub fn append_all(&mut self, records: &Vec<RequestLog>)
        requires
            old(self).wf(),
        ensures
            final(self).wf(),
            final(self).capacity_spec() == old(self).capacity_spec(),
            final(self)@ == after_appends(
                old(self).capacity_spec(),
                old(self)@,
                records@.map_values(|x: RequestLog| x@),
            ),
            final(self)@ == keep_last(
                old(self)@ + records@.map_values(|x: RequestLog| x@),
                old(self).capacity_spec(),
            ),
            final(self)@.len() <= old(self).capacity_spec(),
    {
        let ghost cap = self.capacity_spec();
        let ghost start = self@;
        let ghost recs = records@.map_values(|x: RequestLog| x@);
        let mut i: usize = 0;
        assert(recs.take(0) == Seq::<RequestLogView>::empty());
        while i < records.len()
            invariant
                self.wf(),
                self.capacity_spec() == cap,
                start == old(self)@,
                cap == old(self).capacity_spec(),
                recs == records@.map_values(|x: RequestLog| x@),
                i <= records@.len(),
                self@ == after_appends(cap, start, recs.take(i as int)),
            decreases records@.len() - i,
        {
            let c = records[i].duplicate();
            self.append(c);
            assert(recs.take(i + 1).drop_last() == recs.take(i as int));
            assert(recs.take(i + 1).last() == c@);
            i = i + 1;
        }
        assert(recs.take(records@.len() as int) == recs);
        proof {
            assert(start.len() <= cap);
            lemma_appends_keep_most_recent(cap, start, recs);
        }
    }

    /// A copy of every record, oldest first.
    pub fn all(&self) -> (r: Vec<RequestLog>)
        ensures
            r@.map_values(|x: RequestLog| x@) == self@,
    {
        let mut r: Vec<RequestLog> = Vec::new();
        let mut i: usize = 0;
        while i < self.records.len()
            invariant
                i <= self.records@.len(),
                r@.map_values(|x: RequestLog| x@) == self@.take(i as int),
            decreases self.records@.len() - i,
        {
            let c = self.records[i].duplicate();
            r.push(c);
            assert(self@.take(i + 1) == self@.take(i as int).push(self@[i as int]));
            assert(r@.map_values(|x: RequestLog| x@) == self@.take(i as int).push(c@));
            i = i + 1;
        }
        assert(self@.take(self@.len() as int) == self@);
        r
    }

    /// Removes every record.
    pub fn clear(&mut self)
        ensures
            final(self).wf(),
            final(self).capacity_spec() == old(self).capacity_spec(),
            final(self)@ == Seq::<RequestLogView>::empty(),
    {
        self.records.clear();
        assert(self@ == Seq::<RequestLogView>::empty());
    }
}

/// The record of a request that has begun.
pub open spec fn started_view(
    id: Seq<char>,
    timestamp: i64,
    method: Seq<char>,
    path: Seq<char>,
    request_body: Option<Seq<char>>,
    headers: Option<Seq<(Seq<char>, Seq<char>)>>,
    ip: Option<Seq<char>>,
    user_agent: Option<Seq<char>>,
) -> RequestLogView {
    RequestLogView {
        id,
        timestamp,
        method,
        path,
        status: None,
        response_time: None,
        request_body,
        response_body: None,
        headers,
        ip,
        user_agent,
        stage: STAGE_STARTED@,
    }
}

/// The record of a request that has finished; it repeats none of the
/// metadata of its `started` record.
pub open spec fn completed_view(
    id: Seq<char>,
    timestamp: i64,
    method: Seq<char>,
    path: Seq<char>,
    status: u16,
    response_time: u64,
    response_body: Option<Seq<char>>,
) -> RequestLogView {
    RequestLogView {
        id,
        timestamp,
        method,
        path,
        status: Some(status),
        response_time: Some(response_time),
        request_body: None,
        response_body,
        headers: None,
        ip: None,
        user_agent: None,
        stage: STAGE_COMPLETED@,
    }
}

/// The record of a request logged in one go, once it has finished.
pub open spec fn whole_view(
    id: Seq<char>,
    timestamp: i64,
    method: Seq<char>,
    path: Seq<char>,
    status: u16,
    response_time: u64,
    request_body: Option<Seq<char>>,
    response_body: Option<Seq<char>>,
    headers: Option<Seq<(Seq<char>, Seq<char>)>>,
    ip: Option<Seq<char>>,
    user_agent: Option<Seq<char>>,
) -> RequestLogView {
    RequestLogView {
        id,
        timestamp,
        method,
        path,
        status: Some(status),
        response_time: Some(response_time),
        request_body,
        response_body,
        headers,
        ip,
        user_agent,
        stage: STAGE_COMPLETED@,
    }
}

/// The service object shared by request handlers: it records lifecycle
/// events, broadcasts every event to live subscribers, and pairs each pending
/// ask with the slot through which its answer arrives.
///
/// Two ghost records let contracts say what goes out: every event handed to
/// the bus, and every (slot, content) pair handed to an answer slot, in order.
pub struct RequestLogger {
    logs: LogStore,
    broadcaster: broadcast::Sender<SSEEvent>,
    pending_responses: CorrelationTable<oneshot::Sender<String>>,
    sent: Ghost<Seq<SSEEventView>>,
    delivered: Ghost<Seq<(oneshot::Sender<String>, Seq<char>)>>,
}

impl RequestLogger {
    /// The store and the table are well formed.
    pub closed spec fn wf(&self) -> bool {
        self.logs.wf() && self.pending_responses.wf()
    }

    /// The records held, oldest first.
    pub closed spec fn log_view(&self) -> Seq<RequestLogView> {
        self.logs@
    }

    /// How many records are kept at most.
    pub closed spec fn max_logs(&self) -> nat {
        self.logs.capacity_spec()
    }

    /// The pending waiters: each correlation id with the answer slot it keeps.
    pub closed spec fn pending(&self) -> Map<Seq<char>, oneshot::Sender<String>> {
        self.pending_responses.view()
    }

    /// The correlation ids with a pending waiter.
    pub open spec fn pending_ids(&self) -> Set<Seq<char>> {
        self.pending().dom()
    }

    /// The answer slot registered for `id`.
    pub open spec fn slot_of(&self, id: Seq<char>) -> oneshot::Sender<String> {
        self.pending()[id]
    }

    /// Every event handed to the broadcast bus so far, oldest first.
    pub closed spec fn published(&self) -> Seq<SSEEventView> {
        self.sent@
    }

    /// Every answer handed to a waiter's slot so far, with that slot, oldest first.
    pub closed spec fn deliveries(&self) -> Seq<(oneshot::Sender<String>, Seq<char>)> {
        self.delivered@
    }

    pub fn new(max_logs: usize) -> (r: Self)
        ensures
            r.wf(),
            r.log_view() == Seq::<RequestLogView>::empty(),
            r.max_logs() == max_logs,
            r.pending() == Map::<Seq<char>, oneshot::Sender<String>>::empty(),
            r.published() == Seq::<SSEEventView>::empty(),
            r.deliveries() == Seq::<(oneshot::Sender<String>, Seq<char>)>::empty(),
    {
        let (broadcaster, _) = event_channel(EVENT_BUFFER);
        let r = RequestLogger {
            logs: LogStore::new(max_logs),
            broadcaster,
            pending_responses: CorrelationTable::new(),
            sent: Ghost(Seq::empty()),
            delivered: Ghost(Seq::empty()),
        };
        r
    }

    /// Relies on `broadcast::Sender::send`: hands `event` to the bus, which
    /// never blocks and drops the event when nobody is subscribed. The ghost
    /// record of published events gains `event`; nothing else changes.
    #[verifier::external_body]
    fn publish(&mut self, event: SSEEvent)
        ensures
            final(self).sent@ == old(self).sent@.push(event@),
            final(self).delivered == old(self).delivered,
            final(self).logs == old(self).logs,
            final(self).pending_responses == old(self).pending_responses,
    {
        let _ = self.broadcaster.send(event);
    }

    /// Relies on `oneshot::Sender::send`: hands `content` to the waiter at the
    /// other end of `slot`. The ghost record of deliveries gains the pair;
    /// nothing else changes.
    #[verifier::external_body]
    fn deliver(&mut self, slot: oneshot::Sender<String>, content: String)
        ensures
            final(self).delivered@ == old(self).delivered@.push((slot, content@)),
            final(self).sent == old(self).sent,
            final(self).logs == old(self).logs,
            final(self).pending_responses == old(self).pending_responses,
    {
        let _ = slot.send(content);
    }

    /// Stores `log` and broadcasts it.
    fn record(&mut self, log: RequestLog)
        requires
            old(self).wf(),
        ensures
            final(self).wf(),
            final(self).log_view() == keep_last(old(self).log_view().push(log@), old(self).max_logs()),
            final(self).published() == old(self).published().push(SSEEventView::RequestLog(log@)),
            final(self).deliveries() == old(self).deliveries(),
            final(self).max_logs() == old(self).max_logs(),
            final(self).pending() == old(self).pending(),
    {
        let copy = log.duplicate();
        self.logs.append(log);
        self.publish(SSEEvent::RequestLog(copy));
    }

    /// Records that the request `id` has begun, and broadcasts the record.
    pub fn log_request_start(
        &mut self,
        id: String,
        method: String,
        path: String,
        request_body: Option<String>,
        headers: Option<Vec<(String, String)>>,
        ip: Option<String>,
        user_agent: Option<String>,
    )
        requires
            old(self).wf(),
        ensures
            final(self).wf(),
            exists|t: i64|
                {
                    let rec = #[trigger] started_view(
                        id@,
                        t,
                        method@,
                        path@,
                        request_body.deep_view(),
                        headers.deep_view(),
                        ip.deep_view(),
                        user_agent.deep_view(),
                    );
                    &&& final(self).log_view() == keep_last(
                        old(self).log_view().push(rec),
                        old(self).max_logs(),
                    )
                    &&& final(self).published() == old(self).published().push(
                        SSEEventView::RequestLog(rec),
                    )
                },
            final(self).deliveries() == old(self).deliveries(),
            final(self).max_logs() == old(self).max_logs(),
            final(self).pending() == old(self).pending(),
    {
        let log = RequestLog {
            id,
            timestamp: now_millis(),
            method,
            path,
            status: None,
            response_time: None,
            request_body,
            response_body: None,
            headers,
            ip,
            user_agent,
            stage: STAGE_STARTED.to_owned(),
        };
        assert(log@ == started_view(
            log.id@,
            log.timestamp,
            log.method@,
            log.path@,
            log.request_body.deep_view(),
            log.headers.deep_view(),
            log.ip.deep_view(),
            log.user_agent.deep_view(),
        ));
        self.record(log);
    }

    /// Records that the request `id` has finished, and broadcasts the record.
    pub fn log_request_complete(
        &mut self,
        id: String,
        method: String,
        path: String,
        status: u16,
        response_time: u64,
        response_body: Option<String>,
    )
        requires
            old(self).wf(),
        ensures
            final(self).wf(),
            exists|t: i64|
                {
                    let rec = #[trigger] completed_view(
                        id@,
                        t,
                        method@,
                        path@,
                        status,
                        response_time,
                        response_body.deep_view(),
                    );
                    &&& final(self).log_view() == keep_last(
                        old(self).log_view().push(rec),
                        old(self).max_logs(),
                    )
                    &&& final(self).published() == old(self).published().push(
                        SSEEventView::RequestLog(rec),
                    )
                },
            final(self).deliveries() == old(self).deliveries(),
            final(self).max_logs() == old(self).max_logs(),
            final(self).pending() == old(self).pending(),
    {
        let log = RequestLog {
            id,
            timestamp: now_millis(),
            method,
            path,
            status: Some(status),
            response_time: Some(response_time),
            request_body: None,
            response_body,
            headers: None,
            ip: None,
            user_agent: None,
            stage: STAGE_COMPLETED.to_owned(),
        };
        assert(log@ == completed_view(
            log.id@,
            log.timestamp,
            log.method@,
            log.path@,
            status,
            response_time,
            log.response_body.deep_view(),
        ));
        self.record(log);
    }

    /// Records a finished request in one record, under a fresh random id of 36
    /// characters, and broadcasts the record.
    pub fn log_request(
        &mut self,
        method: String,
        path: String,
        status: u16,
        response_time: u64,
        request_body: Option<String>,
        response_body: Option<String>,
        headers: Option<Vec<(String, String)>>,
        ip: Option<String>,
        user_agent: Option<String>,
    )
        requires
            old(self).wf(),
        ensures
            final(self).wf(),
            exists|id: Seq<char>, t: i64|
                {
                    let rec = #[trigger] whole_view(
                        id,
                        t,
                        method@,
                        path@,
                        status,
                        response_time,
                        request_body.deep_view(),
                        response_body.deep_view(),
                        headers.deep_view(),
                        ip.deep_view(),
                        user_agent.deep_view(),
                    );
                    &&& id.len() == 36
                    &&& final(self).log_view() == keep_last(
                        old(self).log_view().push(rec),
                        old(self).max_logs(),
                    )
                    &&& final(self).published() == old(self).published().push(
                        SSEEventView::RequestLog(rec),
                    )
                },
            final(self).deliveries() == old(self).deliveries(),
            final(self).max_logs() == old(self).max_logs(),
            final(self).pending() == old(self).pending(),
    {
        let log = RequestLog {
            id: fresh_request_id(),
            timestamp: now_millis(),
            method,
            path,
            status: Some(status),
            response_time: Some(response_time),
            request_body,
            response_body,
            headers,
            ip,
            user_agent,
            stage: STAGE_COMPLETED.to_owned(),
        };
        assert(log@ == whole_view(
            log.id@,
            log.timestamp,
            log.method@,
            log.path@,
            status,
            response_time,
            log.request_body.deep_view(),
            log.response_body.deep_view(),
            log.headers.deep_view(),
            log.ip.deep_view(),
            log.user_agent.deep_view(),
        ));
        self.record(log);
    }

    /// Broadcasts an ask: the answering side is to answer `query` for `request_id`.
    /// The records, the waiters and the delivered answers stay as they are.
    pub fn send_model_call_request(&mut self, request_id: String, query: String)
        requires
            old(self).wf(),
        ensures
            final(self).wf(),
            final(self).published().drop_last() == old(self).published(),
            final(self).published().len() == old(self).published().len() + 1,
            final(self).published().last() matches SSEEventView::ModelCallRequest(i, x, _) && i
                == request_id@ && x == query@,
            final(self).deliveries() == old(self).deliveries(),
            final(self).log_view() == old(self).log_view(),
            final(self).max_logs() == old(self).max_logs(),
            final(self).pending() == old(self).pending(),
    {
        let event = ask_event(request_id, query, now_millis());
        self.publish(event);
    }

    /// Broadcasts a progress note for `request_id`. It resolves no wait and
    /// leaves the waiter of `request_id` pending: it only tells that waiter that
    /// the answering side is still working.
    pub fn send_model_call_progress(&mut self, request_id: String, content: String)
        requires
            old(self).wf(),
        ensures
            final(self).wf(),
            final(self).published().drop_last() == old(self).published(),
            final(self).published().len() == old(self).published().len() + 1,
            final(self).published().last() matches SSEEventView::ModelCallProgress(i, x, _) && i
                == request_id@ && x == content@,
            final(self).deliveries() == old(self).deliveries(),
            final(self).log_view() == old(self).log_view(),
            final(self).max_logs() == old(self).max_logs(),
            final(self).pending() == old(self).pending(),
    {
        let event = progress_event(request_id, content, now_millis());
        self.publish(event);
    }

    /// Removes the waiter of `request_id`, if one is pending, and hands back its
    /// slot together with the answer `content` it is to receive.
    pub fn take_delivery(&mut self, request_id: &String, content: &String) -> (r: Option<
        (oneshot::Sender<String>, String),
    >)
        requires
            old(self).wf(),
        ensures
            final(self).wf(),
            r is Some <==> old(self).pending_ids().contains(request_id@),
            r matches Some((s, c)) ==> s == old(self).slot_of(request_id@) && c@ == content@,
            final(self).pending() == old(self).pending().remove(request_id@),
            final(self).published() == old(self).published(),
            final(self).deliveries() == old(self).deliveries(),
            final(self).log_view() == old(self).log_view(),
            final(self).max_logs() == old(self).max_logs(),
    {
        match self.pending_responses.take(request_id) {
            Some(slot) => Some((slot, content.clone())),
            None => None,
        }
    }

    /// Delivers the answer `content` to the waiter of `request_id`, if one is
    /// pending, removing its entry; then broadcasts the answer for observers,
    /// whether or not a waiter was pending. With no waiter pending the table is
    /// left as it was and nothing is delivered.
    pub fn send_model_call_response(&mut self, request_id: String, content: String)
        requires
            old(self).wf(),
        ensures
            final(self).wf(),
            final(self).pending() == old(self).pending().remove(request_id@),
            old(self).pending_ids().contains(request_id@) ==> final(self).deliveries() == old(
                self,
            ).deliveries().push((old(self).slot_of(request_id@), content@)),
            !old(self).pending_ids().contains(request_id@) ==> final(self).pending() == old(
                self,
            ).pending() && final(self).deliveries() == old(self).deliveries(),
            final(self).published().drop_last() == old(self).published(),
            final(self).published().len() == old(self).published().len() + 1,
            final(self).published().last() matches SSEEventView::ModelCallResponse(i, x, _) && i
                == request_id@ && x == content@,
            final(self).log_view() == old(self).log_view(),
            final(self).max_logs() == old(self).max_logs(),
    {
        if let Some((slot, answer)) = self.take_delivery(&request_id, &content) {
            self.deliver(slot, answer);
        }
        let event = answer_event(request_id, content, now_millis());
        self.publish(event);
    }

    /// Registers a waiter for `request_id` and hands back the receiving end of
    /// its slot; fails, changing nothing, when a waiter for it is pending.
    pub fn register_waiter(&mut self, request_id: String) -> (r: Result<
        oneshot::Receiver<String>,
        CorrelationError,
    >)
        requires
            old(self).wf(),
        ensures
            final(self).wf(),
            old(self).pending_ids().contains(request_id@) ==> r is Err && final(self).pending()
                == old(self).pending(),
            !old(self).pending_ids().contains(request_id@) ==> r is Ok && final(self).pending()
                == old(self).pending().insert(request_id@, final(self).slot_of(request_id@)),
            final(self).published() == old(self).published(),
            final(self).deliveries() == old(self).deliveries(),
            final(self).log_view() == old(self).log_view(),
            final(self).max_logs() == old(self).max_logs(),
    {
        let (sender, receiver) = answer_slot();
        match self.pending_responses.register(request_id, sender) {
            Ok(()) => Ok(receiver),
            Err(e) => Err(e),
        }
    }

    /// Removes the waiter of `request_id`, as a wait that is over does.
    pub fn abandon_wait(&mut self, request_id: &String)
        requires
            old(self).wf(),
        ensures
            final(self).wf(),
            final(self).pending() == old(self).pending().remove(request_id@),
            final(self).published() == old(self).published(),
            final(self).deliveries() == old(self).deliveries(),
            final(self).log_view() == old(self).log_view(),
            final(self).max_logs() == old(self).max_logs(),
    {
        self.pending_responses.take(request_id);
    }

    /// Whether a waiter for `request_id` is pending.
    pub fn is_pending(&self, request_id: &String) -> (r: bool)
        requires
            self.wf(),
        ensures
            r == self.pending_ids().contains(request_id@),
    {
        self.pending_responses.contains(request_id)
    }

    /// A copy of the records held, oldest first.
    pub fn get_logs(&self) -> (r: Vec<RequestLog>)
        ensures
            r@.map_values(|x: RequestLog| x@) == self.log_view(),
    {
        self.logs.all()
    }

    /// Removes every record.
    pub fn clear_logs(&mut self)
        requires
            old(self).wf(),
        ensures
            final(self).wf(),
            final(self).log_view() == Seq::<RequestLogView>::empty(),
            final(self).max_logs() == old(self).max_logs(),
            final(self).pending() == old(self).pending(),
            final(self).published() == old(self).published(),
            final(self).deliveries() == old(self).deliveries(),
    {
        self.logs.clear();
    }

    /// A fresh receiver that sees the events broadcast after this call.
    pub fn subscribe(&self) -> (r: broadcast::Receiver<SSEEvent>) {
        subscribe_events(&self.broadcaster)
    }

    /// How many receivers are subscribed now.
    pub fn subscriber_count(&self) -> (r: usize) {
        count_receivers(&self.broadcaster)
    }
}

/// Over any sequence of logger calls that each append one record (as
/// `log_request_start`, `log_request_complete` and `log_request` do), the
/// logger never holds more than its capacity, and what it holds at the end is
/// exactly the last `max_logs` of its first records followed by the appended
/// ones: the oldest are evicted first. `states[k]` is the logger before the
/// `k`-th call and `recs[k]` the record that call appends.
pub proof fn lemma_logger_keeps_most_recent(states: Seq<RequestLogger>, recs: Seq<RequestLogView>)
    requires
        states.len() == recs.len() + 1,
        states[0].wf(),
        forall|k: int|
            0 <= k < recs.len() ==> {
                &&& (#[trigger] states[k + 1]).max_logs() == states[k].max_logs()
                &&& states[k + 1].log_view() == keep_last(
                    states[k].log_view().push(recs[k]),
                    states[k].max_logs(),
                )
            },
    ensures
        states.last().log_view() == keep_last(states[0].log_view() + recs, states[0].max_logs()),
        states.last().log_view().len() <= states[0].max_logs(),
        forall|k: int| 0 <= k < states.len() ==> (#[trigger] states[k]).log_view().len() <= states[0].max_logs(),
        recs.len() >= states[0].max_logs() ==> states.last().log_view() == recs.skip(
            recs.len() - states[0].max_logs(),
        ),
{
    let cap = states[0].max_logs();
    let start = states[0].log_view();
    assert(start.len() <= cap);
    assert forall|k: int| 0 <= k <= recs.len() implies (#[trigger] states[k]).log_view()
        == after_appends(cap, start, recs.take(k)) && states[k].max_logs() == cap by {
        lemma_logger_prefix(states, recs, k);
    }
    assert(recs.take(recs.len() as int) == recs);
    lemma_appends_keep_most_recent(cap, start, recs);
    assert forall|k: int| 0 <= k < states.len() implies (#[trigger] states[k]).log_view().len()
        <= cap by {
        lemma_logger_prefix(states, recs, k);
        lemma_appends_keep_most_recent(cap, start, recs.take(k));
    }
}

proof fn lemma_logger_prefix(states: Seq<RequestLogger>, recs: Seq<RequestLogView>, k: int)
    requires
        states.len() == recs.len() + 1,
        states[0].wf(),
        0 <= k <= recs.len(),
        forall|j: int|
            0 <= j < recs.len() ==> {
                &&& (#[trigger] states[j + 1]).max_logs() == states[j].max_logs()
                &&& states[j + 1].log_view() == keep_last(
                    states[j].log_view().push(recs[j]),
                    states[j].max_logs(),
                )
            },
    ensures
        states[k].log_view() == after_appends(states[0].max_logs(), states[0].log_view(), recs.take(k)),
        states[k].max_logs() == states[0].max_logs(),
    decreases k,
{
    if k == 0 {
        assert(recs.take(0) == Seq::<RequestLogView>::empty());
    } else {
        lemma_logger_prefix(states, recs, k - 1);
        assert(states[(k - 1) + 1] == states[k]);
        assert(recs.take(k).drop_last() == recs.take(k - 1));
        assert(recs.take(k).last() == recs[k - 1]);
    }
}

impl Default for RequestLogger {
    /// A logger that keeps the default number of records.
    fn default() -> (r: Self)
        ensures
            r.wf(),
            r.log_view() == Seq::<RequestLogView>::empty(),
            r.max_logs() == DEFAULT_MAX_LOGS,
            r.pending() == Map::<Seq<char>, oneshot::Sender<String>>::empty(),
            r.published() == Seq::<SSEEventView>::empty(),
            r.deliveries() == Seq::<(oneshot::Sender<String>, Seq<char>)>::empty(),
    {
        Self::new(DEFAULT_MAX_LOGS)
    }
}

} // verus!
