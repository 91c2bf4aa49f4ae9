//! The table of pending asks: each correlation id maps to the single-use slot
//! through which its answer is delivered. An entry is removed exactly once:
//! when the answer arrives, or when its waiter gives up.
use vstd::prelude::*;

verus! {

/// Why an id could not be registered.
#[derive(Debug, PartialEq, Eq, Structural)]
pub enum CorrelationError {
    /// A waiter for this id is already pending.
    AlreadyPending,
}

/// The map that a list of (id, slot) entries stands for.
pub open spec fn entries_map<S>(s: Seq<(Seq<char>, S)>) -> Map<Seq<char>, S>
    decreases s.len(),
{
    if s.len() == 0 {
        Map::empty()
    } else {
        entries_map(s.drop_last()).insert(s.last().0, s.last().1)
    }
}

/// No id stands twice in `s`.
pub open spec fn distinct_ids<S>(s: Seq<(Seq<char>, S)>) -> bool {
    forall|i: int, j: int| 0 <= i < s.len() && 0 <= j < s.len() && i != j ==> s[i].0 != s[j].0
}

proof fn lemma_entries_map_has<S>(s: Seq<(Seq<char>, S)>, k: Seq<char>)
    ensures
        entries_map(s).contains_key(k) <==> exists|i: int| 0 <= i < s.len() && s[i].0 == k,
    decreases s.len(),
{
    if s.len() > 0 {
        lemma_entries_map_has(s.drop_last(), k);
        if entries_map(s).contains_key(k) && k != s.last().0 {
            let i = choose|i: int| 0 <= i < s.drop_last().len() && s.drop_last()[i].0 == k;
            assert(s[i].0 == k);
        }
        if exists|i: int| 0 <= i < s.len() && s[i].0 == k {
            let i = choose|i: int| 0 <= i < s.len() && s[i].0 == k;
            if i < s.len() - 1 {
                assert(s.drop_last()[i].0 == k);
            }
        }
    }
}

proof fn lemma_entries_map_remove<S>(s: Seq<(Seq<char>, S)>, i: int)
    requires
        distinct_ids(s),
        0 <= i < s.len(),
    ensures
        entries_map(s).contains_key(s[i].0),
        entries_map(s)[s[i].0] == s[i].1,
        entries_map(s.remove(i)) == entries_map(s).remove(s[i].0),
        distinct_ids(s.remove(i)),
    decreases s.len(),
{
    let k = s[i].0;
    let d = s.drop_last();
    assert(distinct_ids(d));
    if i == s.len() - 1 {
        assert(s.remove(i) == d);
        lemma_entries_map_has(d, k);
        assert(!entries_map(d).contains_key(k));
        assert(entries_map(d) == entries_map(s).remove(k));
    } else {
        lemma_entries_map_remove(d, i);
        assert(d[i] == s[i]);
        assert(s.remove(i) == d.remove(i).push(s.last()));
        assert(s.last().0 != k);
        assert(s.remove(i).drop_last() == d.remove(i));
        assert(entries_map(s.remove(i)) == entries_map(d.remove(i)).insert(s.last().0, s.last().1));
        assert(entries_map(s.remove(i)) == entries_map(s).remove(k));
    }
    assert forall|a: int, b: int|
        0 <= a < s.remove(i).len() && 0 <= b < s.remove(i).len() && a != b implies s.remove(i)[a].0
        != s.remove(i)[b].0 by {
        let a2 = if a < i { a } else { a + 1 };
        let b2 = if b < i { b } else { b + 1 };
        assert(s.remove(i)[a] == s[a2]);
        assert(s.remove(i)[b] == s[b2]);
    }
}

/// Pending asks keyed by correlation id, each with its resolution slot `S`.
pub struct CorrelationTable<S> {
    entries: Vec<(String, S)>,
}

impl<S> CorrelationTable<S> {
    /// The entries as (id, slot) pairs, in order of registration.
    pub closed spec fn entry_seq(&self) -> Seq<(Seq<char>, S)> {
        self.entries@.map_values(|e: (String, S)| (e.0@, e.1))
    }

    /// The table as a map from id to slot.
    pub closed spec fn view(&self) -> Map<Seq<char>, S> {
        entries_map(self.entry_seq())
    }

    /// Each id has one entry at most.
    pub closed spec fn wf(&self) -> bool {
        distinct_ids(self.entry_seq())
    }

    pub fn new() -> (r: Self)
        ensures
            r.wf(),
            r.view() == Map::<Seq<char>, S>::empty(),
    {
        let r = CorrelationTable { entries: Vec::new() };
        assert(r.entry_seq().len() == 0);
        r
    }

    /// Position of `id` among the entries.
    fn position(&self, id: &String) -> (r: Option<usize>)
        requires
            self.wf(),
        ensures
            match r {
                Some(i) => i < self.entry_seq().len() && self.entry_seq()[i as int].0 == id@,
                None => !self.view().contains_key(id@),
            },
    {
        proof {
            lemma_entries_map_has(self.entry_seq(), id@);
        }
        let mut i: usize = 0;
        while i < self.entries.len()
            invariant
                i <= self.entries@.len(),
                forall|j: int| 0 <= j < i ==> self.entry_seq()[j].0 != id@,
            decreases self.entries@.len() - i,
        {
            if self.entries[i].0.eq(id) {
                return Some(i);
            }
            i = i + 1;
        }
        None
    }

    /// Whether a waiter for `id` is pending.
    pub fn contains(&self, id: &String) -> (r: bool)
        requires
            self.wf(),
        ensures
            r == self.view().contains_key(id@),
    {
        match self.position(id) {
            Some(i) => {
                proof {
                    lemma_entries_map_has(self.entry_seq(), id@);
                }
                true
            },
            None => false,
        }
    }

    /// Registers the slot of `id`; fails, leaving the table as it was, when `id`
    /// is already pending.
    pub fn register(&mut self, id: String, slot: S) -> (r: Result<(), CorrelationError>)
        requires
            old(self).wf(),
        ensures
            final(self).wf(),
            old(self).view().contains_key(id@) ==> r == Err::<(), CorrelationError>(
                CorrelationError::AlreadyPending,
            ) && final(self).view() == old(self).view(),
            !old(self).view().contains_key(id@) ==> r is Ok && final(self).view() == old(
                self,
            ).view().insert(id@, slot),
    {
        if self.contains(&id) {
            return Err(CorrelationError::AlreadyPending);
        }
        let ghost k = id@;
        let ghost before = self.entry_seq();
        proof {
            lemma_entries_map_has(before, k);
        }
        self.entries.push((id, slot));
        assert(self.entry_seq() == before.push((k, slot)));
        assert(self.entry_seq().drop_last() == before);
        Ok(())
    }

    /// Removes the entry of `id` and hands back its slot; with no entry for `id`
    /// the table is left as it was and `None` comes back.
    pub fn take(&mut self, id: &String) -> (r: Option<S>)
        requires
            old(self).wf(),
        ensures
            final(self).wf(),
            final(self).view() == old(self).view().remove(id@),
            old(self).view().contains_key(id@) ==> r == Some(old(self).view()[id@]),
            !old(self).view().contains_key(id@) ==> r is None && final(self).view() == old(
                self,
            ).view(),
    {
        match self.position(id) {
            Some(i) => {
                let ghost before = self.entry_seq();
                proof {
                    lemma_entries_map_remove(before, i as int);
                }
                let (_, slot) = self.entries.remove(i);
                assert(self.entry_seq() == before.remove(i as int));
                Some(slot)
            },
            None => {
                assert(self.view().remove(id@) == self.view());
                None
            },
        }
    }

    /// Number of pending ids.
    pub fn len(&self) -> (r: usize)
        requires
            self.wf(),
        ensures
            r == self.view().len(),
    {
        proof {
            lemma_entries_map_len(self.entry_seq());
        }
        self.entries.len()
    }
}

proof fn lemma_entries_map_len<S>(s: Seq<(Seq<char>, S)>)
    requires
        distinct_ids(s),
    ensures
        entries_map(s).dom().finite(),
        entries_map(s).len() == s.len(),
    decreases s.len(),
{
    if s.len() > 0 {
        let d = s.drop_last();
        assert(distinct_ids(d));
        lemma_entries_map_len(d);
        lemma_entries_map_has(d, s.last().0);
        assert(!entries_map(d).contains_key(s.last().0));
    }
}

} // verus!
