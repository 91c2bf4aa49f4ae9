//! The decisions of a wait for an answer. The wait resolves on whichever
//! comes first: the answer arriving in its slot, the slot closing, or a
//! silence of the whole inactivity budget since the last sign of activity.
//! Progress notes and answers broadcast for the same id are such signs: they
//! push the deadline back without resolving the wait.
//!
//! The caller runs the loop: it waits for the next event, hands it to
//! [`ResponseWait::step`], and stops once a result comes back. Times are
//! milliseconds on a clock of the caller's choice that does not go backward.
use vstd::prelude::*;
use crate::logger::SSEEvent;

verus! {

/// Failure of a wait whose slot closed before an answer came.
pub const CLOSED_MESSAGE: &'static str = "Response channel closed";

/// Failure of a wait that saw no activity for its whole budget.
pub const TIMEOUT_MESSAGE: &'static str = "Timeout waiting for model response (no new tokens)";

/// What a waiting caller observed next.
#[derive(Debug)]
pub enum WaitEvent {
    /// The slot delivered this answer.
    Answer(String),
    /// The slot's sending end went away without an answer.
    SlotClosed,
    /// This event came over the bus at the given time.
    Bus(SSEEvent, u64),
    /// The bus reported an error, such as a lag; it says nothing of activity.
    BusError,
    /// The timer fired at the given time.
    Tick(u64),
}

/// `e` is a progress note or an answer broadcast for the request `id`.
pub open spec fn is_activity_for(e: SSEEvent, id: Seq<char>) -> bool {
    match e {
        SSEEvent::ModelCallProgress(p) => p.request_id@ == id,
        SSEEvent::ModelCallResponse(r) => r.request_id@ == id,
        _ => false,
    }
}

/// When `e` is a sign of activity for `id`, the time it came.
pub open spec fn activity_time(e: WaitEvent, id: Seq<char>) -> Option<u64> {
    match e {
        WaitEvent::Bus(ev, now) => if is_activity_for(ev, id) {
            Some(now)
        } else {
            None
        },
        _ => None,
    }
}

/// At `now`, the silence since `last` has lasted the whole budget.
pub open spec fn silence_reached(last: u64, now: u64, budget: u64) -> bool {
    now >= last && now - last >= budget
}

/// The result that event `e` ends the wait with, if it ends it, when the
/// last activity was at `last`.
pub open spec fn outcome(id: Seq<char>, budget: u64, last: u64, e: WaitEvent) -> Option<
    Result<Seq<char>, Seq<char>>,
> {
    match e {
        WaitEvent::Answer(a) => Some(Ok(a@)),
        WaitEvent::SlotClosed => Some(Err(CLOSED_MESSAGE@)),
        WaitEvent::Tick(now) => if silence_reached(last, now, budget) {
            Some(Err(TIMEOUT_MESSAGE@))
        } else {
            None
        },
        _ => None,
    }
}

/// A wait result as mathematical values.
pub open spec fn result_view(r: Option<Result<String, String>>) -> Option<Result<Seq<char>, Seq<char>>> {
    match r {
        Some(Ok(a)) => Some(Ok(a@)),
        Some(Err(e)) => Some(Err(e@)),
        None => None,
    }
}

/// The time of the last activity after event `e`.
pub open spec fn next_last(id: Seq<char>, last: u64, e: WaitEvent) -> u64 {
    match activity_time(e, id) {
        Some(t) => t,
        None => last,
    }
}

/// The result of a wait started with last activity `last` that observes `evs`
/// in order; `None` while it is still waiting.
pub open spec fn run_wait(id: Seq<char>, budget: u64, last: u64, evs: Seq<WaitEvent>) -> Option<
    Result<Seq<char>, Seq<char>>,
>
    decreases evs.len(),
{
    if evs.len() == 0 {
        None
    } else {
        match outcome(id, budget, last, evs[0]) {
            Some(o) => Some(o),
            None => run_wait(id, budget, next_last(id, last, evs[0]), evs.skip(1)),
        }
    }
}

/// The time of the last activity among `evs[..k]`, or `start` if none.
pub open spec fn last_activity(id: Seq<char>, start: u64, evs: Seq<WaitEvent>, k: int) -> u64
    decreases k,
{
    if k <= 0 {
        start
    } else {
        match activity_time(evs[k - 1], id) {
            Some(t) => t,
            None => last_activity(id, start, evs, k - 1),
        }
    }
}

proof fn lemma_last_activity_shift(id: Seq<char>, start: u64, evs: Seq<WaitEvent>, k: int)
    requires
        evs.len() > 0,
        0 <= k < evs.len(),
    ensures
        last_activity(id, next_last(id, start, evs[0]), evs.skip(1), k) == last_activity(
            id,
            start,
            evs,
            k + 1,
        ),
    decreases k,
{
    if k > 0 {
        lemma_last_activity_shift(id, start, evs, k - 1);
        assert(evs.skip(1)[k - 1] == evs[k]);
    } else {
        assert(last_activity(id, start, evs, 0) == start);
        assert(last_activity(id, next_last(id, start, evs[0]), evs.skip(1), 0) == next_last(
            id,
            start,
            evs[0],
        ));
    }
}

/// A wait ends with the result of the first event that ends it, judged
/// against the last activity seen before that event.
pub proof fn lemma_wait_ends_at_first_deciding_event(
    id: Seq<char>,
    budget: u64,
    start: u64,
    evs: Seq<WaitEvent>,
    o: Result<Seq<char>, Seq<char>>,
)
    ensures
        run_wait(id, budget, start, evs) == Some(o) <==> exists|k: int|
            #![trigger evs[k]]
            0 <= k < evs.len() && outcome(id, budget, last_activity(id, start, evs, k), evs[k])
                == Some(o) && forall|j: int|
                0 <= j < k ==> outcome(id, budget, last_activity(id, start, evs, j), #[trigger] evs[j])
                    is None,
    decreases evs.len(),
{
    if evs.len() > 0 {
        let s2 = next_last(id, start, evs[0]);
        let rest = evs.skip(1);
        lemma_wait_ends_at_first_deciding_event(id, budget, s2, rest, o);
        assert forall|k: int| 0 <= k < rest.len() implies last_activity(id, s2, rest, k)
            == last_activity(id, start, evs, k + 1) && rest[k] == evs[k + 1] by {
            lemma_last_activity_shift(id, start, evs, k);
        }
        if run_wait(id, budget, start, evs) == Some(o) {
            if outcome(id, budget, start, evs[0]) is Some {
                assert(outcome(id, budget, last_activity(id, start, evs, 0), evs[0]) == Some(o));
            } else {
                let k = choose|k: int|
                    #![trigger rest[k]]
                    0 <= k < rest.len() && outcome(id, budget, last_activity(id, s2, rest, k), rest[k])
                        == Some(o) && forall|j: int|
                        0 <= j < k ==> outcome(id, budget, last_activity(id, s2, rest, j), #[trigger] rest[j])
                            is None;
                assert(outcome(id, budget, last_activity(id, start, evs, k + 1), evs[k + 1]) == Some(o));
                assert forall|j: int| 0 <= j < k + 1 implies outcome(
                    id,
                    budget,
                    last_activity(id, start, evs, j),
                    #[trigger] evs[j],
                ) is None by {
                    if j > 0 {
                        assert(rest[j - 1] == evs[j]);
                    }
                }
            }
        }
        if exists|k: int|
            #![trigger evs[k]]
            0 <= k < evs.len() && outcome(id, budget, last_activity(id, start, evs, k), evs[k])
                == Some(o) && forall|j: int|
                0 <= j < k ==> outcome(id, budget, last_activity(id, start, evs, j), #[trigger] evs[j])
                    is None {
            let k = choose|k: int|
                #![trigger evs[k]]
                0 <= k < evs.len() && outcome(id, budget, last_activity(id, start, evs, k), evs[k])
                    == Some(o) && forall|j: int|
                    0 <= j < k ==> outcome(id, budget, last_activity(id, start, evs, j), #[trigger] evs[j])
                        is None;
            if k > 0 {
                assert(outcome(id, budget, last_activity(id, start, evs, 0), evs[0]) is None);
                assert(rest[k - 1] == evs[k]);
                assert forall|j: int| 0 <= j < k - 1 implies outcome(
                    id,
                    budget,
                    last_activity(id, s2, rest, j),
                    #[trigger] rest[j],
                ) is None by {
                    assert(evs[j + 1] == rest[j]);
                }
            }
        }
    }
}

/// A wait succeeds with `c` exactly when the answer `c` arrives before any
/// other event ends it: before its slot closes, and before a timer tick finds
/// that the silence since the last progress note or answer for its id has
/// lasted the whole budget.
pub proof fn lemma_wait_succeeds_iff_answer_before_silence(
    id: Seq<char>,
    budget: u64,
    start: u64,
    evs: Seq<WaitEvent>,
    c: Seq<char>,
)
    ensures
        run_wait(id, budget, start, evs) == Some(Ok::<Seq<char>, Seq<char>>(c)) <==> exists|k: int|
            #![trigger evs[k]]
            0 <= k < evs.len() && (evs[k] matches WaitEvent::Answer(a) && a@ == c) && forall|j: int|
                0 <= j < k ==> {
                    &&& !(#[trigger] evs[j] is Answer)
                    &&& !(evs[j] is SlotClosed)
                    &&& (evs[j] matches WaitEvent::Tick(now) ==> !silence_reached(
                        last_activity(id, start, evs, j),
                        now,
                        budget,
                    ))
                },
{
    lemma_wait_ends_at_first_deciding_event(id, budget, start, evs, Ok(c));
}

/// A wait in progress for one request.
pub struct ResponseWait {
    request_id: String,
    budget: u64,
    last_activity: u64,
}

impl ResponseWait {
    pub closed spec fn id(&self) -> Seq<char> {
        self.request_id@
    }

    pub closed spec fn budget_spec(&self) -> u64 {
        self.budget
    }

    pub closed spec fn last_spec(&self) -> u64 {
        self.last_activity
    }

    /// A wait for `request_id` begun at `now`, with an inactivity budget of `budget`.
    pub fn new(request_id: String, budget: u64, now: u64) -> (r: Self)
        ensures
            r.id() == request_id@,
            r.budget_spec() == budget,
            r.last_spec() == now,
    {
        ResponseWait { request_id, budget, last_activity: now }
    }

    /// The time of the last activity seen.
    pub fn last_activity(&self) -> (r: u64)
        ensures
            r == self.last_spec(),
    {
        self.last_activity
    }

    /// How long the caller may sleep, from `now`, before the silence reaches
    /// the budget; zero once it has.
    pub fn time_left(&self, now: u64) -> (r: u64)
        ensures
            now >= self.last_spec() ==> r == if now - self.last_spec() >= self.budget_spec() {
                0
            } else {
                self.budget_spec() - (now - self.last_spec())
            },
            now < self.last_spec() ==> r == self.budget_spec(),
    {
        if now < self.last_activity {
            return self.budget;
        }
        let silent = now - self.last_activity;
        if silent >= self.budget {
            0
        } else {
            self.budget - silent
        }
    }

    /// Takes in the next event: the result that ends the wait, or `None` to go
    /// on waiting.
    pub fn step(&mut self, event: WaitEvent) -> (r: Option<Result<String, String>>)
        ensures
            result_view(r) == outcome(old(self).id(), old(self).budget_spec(), old(self).last_spec(), event),
            final(self).last_spec() == next_last(old(self).id(), old(self).last_spec(), event),
            final(self).id() == old(self).id(),
            final(self).budget_spec() == old(self).budget_spec(),
    {
        match event {
            WaitEvent::Answer(a) => Some(Ok(a)),
            WaitEvent::SlotClosed => Some(Err(CLOSED_MESSAGE.to_owned())),
            WaitEvent::Bus(e, now) => {
                if is_activity(&e, &self.request_id) {
                    self.last_activity = now;
                }
                None
            },
            WaitEvent::BusError => None,
            WaitEvent::Tick(now) => {
                if now >= self.last_activity && now - self.last_activity >= self.budget {
                    Some(Err(TIMEOUT_MESSAGE.to_owned()))
                } else {
                    None
                }
            },
        }
    }
}

impl ResponseWait {
    /// Takes in `events` one by one, as a caller's loop does, and stops at the
    /// first that ends the wait: the result is what `run_wait` gives for them.
    pub fn run(&mut self, events: Vec<WaitEvent>) -> (r: Option<Result<String, String>>)
        ensures
            result_view(r) == run_wait(old(self).id(), old(self).budget_spec(), old(self).last_spec(), events@),
            final(self).id() == old(self).id(),
            final(self).budget_spec() == old(self).budget_spec(),
    {
        let mut pending = events;
        let ghost id = self.id();
        let ghost budget = self.budget_spec();
        let ghost goal = run_wait(id, budget, self.last_spec(), pending@);
        assert(goal == run_wait(old(self).id(), old(self).budget_spec(), old(self).last_spec(), events@));
        while pending.len() > 0
            invariant
                self.id() == id,
                self.budget_spec() == budget,
                old(self).id() == id,
                old(self).budget_spec() == budget,
                goal == run_wait(old(self).id(), old(self).budget_spec(), old(self).last_spec(), events@),
                goal == run_wait(id, budget, self.last_spec(), pending@),
            decreases pending@.len(),
        {
            let ghost before = pending@;
            let ghost last = self.last_spec();
            let e = pending.remove(0);
            assert(before.skip(1) == pending@);
            assert(before[0] == e);
            let r = self.step(e);
            if r.is_some() {
                assert(run_wait(id, budget, last, before) == outcome(id, budget, last, before[0]));
                assert(result_view(r) == goal);
                return r;
            }
            assert(goal == run_wait(id, budget, next_last(id, last, e), pending@));
        }
        None
    }
}

/// Whether `e` is a progress note or an answer broadcast for `id`.
pub fn is_activity(e: &SSEEvent, id: &String) -> (r: bool)
    ensures
        r == is_activity_for(*e, id@),
{
    match e {
        SSEEvent::ModelCallProgress(p) => p.request_id.eq(id),
        SSEEvent::ModelCallResponse(m) => m.request_id.eq(id),
        _ => false,
    }
}

} // verus!
