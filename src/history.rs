use vstd::prelude::*;

use crate::classify::Target;
use crate::fingerprint::{digest_of, hash_string, now, State, Timestamp};

verus! {

/// How many samples a target's history keeps.
pub const HISTORY_RETENTION: usize = 5;

/// The newest `cap` elements of `s` (all of `s` when it is shorter).
pub open spec fn keep_newest<T>(s: Seq<T>, cap: nat) -> Seq<T> {
    if s.len() > cap {
        s.subrange(s.len() - cap, s.len() as int)
    } else {
        s
    }
}

/// Everything that is known of a target across runs.
#[derive(Debug, Clone)]
pub struct PageData {
    /// A text the page is expected to contain.
    pub marker: Option<String>,
    pub reference_state: Option<State>,
    pub last_checked: Timestamp,
    /// Content digest of the target's text.
    pub url_hash: String,
    /// Samples, oldest first.
    pub history: Vec<State>,
}

/// `new` is `old` after `sample` was recorded: the sample is appended, the
/// oldest samples beyond the retention cap are evicted, and nothing else but
/// the time of the last check changes.
pub open spec fn recorded(old: PageData, new: PageData, sample: State) -> bool {
    &&& new.history@ == keep_newest(old.history@.push(sample), HISTORY_RETENTION as nat)
    &&& new.marker == old.marker
    &&& new.reference_state == old.reference_state
    &&& new.url_hash == old.url_hash
}

impl PageData {
    /// The history holds no more samples than the retention cap.
    pub open spec fn wf(&self) -> bool {
        self.history@.len() <= HISTORY_RETENTION
    }

    /// The record of a target seen for the first time.
    pub fn new(state: State, url_hash: String, marker: Option<String>) -> (r: PageData)
        ensures
            r.history@ == seq![state],
            r.url_hash == url_hash,
            r.marker == marker,
            r.reference_state is None,
            r.wf(),
    {
        let mut history = Vec::new();
        history.push(state);
        PageData { marker, reference_state: None, last_checked: now(), url_hash, history }
    }

    /// Appends a sample, then evicts the oldest ones until the history is
    /// within the retention cap; the time of the last check becomes now.
    pub fn update(&mut self, new_state: State)
        ensures
            recorded(*old(self), *final(self), new_state),
            final(self).wf(),
    {
        let checked_at = now();
        self.update_at(new_state, checked_at);
    }

    /// Appends a sample checked at `checked_at`, then evicts the oldest ones
    /// until the history is within the retention cap.
    pub fn update_at(&mut self, new_state: State, checked_at: Timestamp)
        ensures
            recorded(*old(self), *final(self), new_state),
            final(self).last_checked == checked_at,
            final(self).wf(),
    {
        let ghost full = self.history@.push(new_state);
        let ghost marker = self.marker;
        let ghost reference_state = self.reference_state;
        let ghost url_hash = self.url_hash;
        self.history.push(new_state);
        while self.history.len() > HISTORY_RETENTION
            invariant
                self.marker == marker,
                self.reference_state == reference_state,
                self.url_hash == url_hash,
                full.len() >= self.history@.len(),
                self.history@ == full.subrange(full.len() - self.history@.len(), full.len() as int),
                self.history@.len() >= HISTORY_RETENTION || self.history@ == full,
            decreases self.history@.len(),
        {
            self.history.remove(0);
        }
        assert(self.history@ =~= keep_newest(full, HISTORY_RETENTION as nat));
        self.last_checked = checked_at;
    }

    /// The samples, oldest first.
    pub fn current_state(&self) -> (r: Vec<State>)
        ensures
            r@ == self.history@,
    {
        let mut r: Vec<State> = Vec::new();
        let mut i: usize = 0;
        while i < self.history.len()
            invariant
                i <= self.history@.len(),
                r@ == self.history@.subrange(0, i as int),
            decreases self.history@.len() - i,
        {
            r.push(self.history[i].duplicate());
            i = i + 1;
        }
        assert(r@ =~= self.history@);
        r
    }

    /// The marker text, if one is set.
    pub fn marker(&self) -> (r: Option<&String>)
        ensures
            match self.marker {
                Some(m) => r == Some(&m),
                None => r is None,
            },
    {
        self.marker.as_ref()
    }
}

/// The history of every target, keyed by target.
#[derive(Debug, Clone)]
pub struct DataStore {
    entries: Vec<(Target, PageData)>,
}

/// No target occurs twice among `e`.
pub open spec fn keys_unique(e: Seq<(Target, PageData)>) -> bool {
    forall|i: int, j: int| 0 <= i < j < e.len() ==> (#[trigger] e[i]).0@ != (#[trigger] e[j]).0@
}

/// The position of the record of `t` in `e`, if there is one.
pub open spec fn has_key_at(e: Seq<(Target, PageData)>, t: Seq<char>, i: int) -> bool {
    0 <= i < e.len() && e[i].0@ == t
}

/// `steps` passes from its first store to its last by one upsert per
/// result, in the order of `results`.
pub open spec fn upsert_chain(steps: Seq<Seq<(Target, PageData)>>, results: Seq<(Target, State)>) -> bool {
    &&& steps.len() == results.len() + 1
    &&& forall|k: int| 0 <= k < results.len() ==> upserted(steps[k], steps[k + 1], (#[trigger] results[k]).0, results[k].1)
}

/// `e` holds a record of `t`.
pub open spec fn has_record(e: Seq<(Target, PageData)>, t: Seq<char>) -> bool {
    exists|i: int| has_key_at(e, t, i)
}

/// `new` is `old` after `sample` was recorded for `t`: an existing record is
/// updated in place, and a target without one gets a fresh record whose
/// history is that sample alone.
pub open spec fn upserted(
    old: Seq<(Target, PageData)>,
    new: Seq<(Target, PageData)>,
    t: Target,
    sample: State,
) -> bool {
    if exists|i: int| has_key_at(old, t@, i) {
        &&& new.len() == old.len()
        &&& forall|i: int|
            #![trigger new[i]]
            0 <= i < old.len() ==> if old[i].0@ == t@ {
                new[i].0 == old[i].0 && recorded(old[i].1, new[i].1, sample)
            } else {
                new[i] == old[i]
            }
    } else {
        &&& new.len() == old.len() + 1
        &&& new.subrange(0, old.len() as int) == old
        &&& new.last().0 == t
        &&& new.last().1.history@ == seq![sample]
        &&& new.last().1.marker is None
        &&& new.last().1.reference_state is None
        &&& new.last().1.url_hash@ == digest_of(t@)
    }
}

impl View for DataStore {
    type V = Seq<(Target, PageData)>;

    closed spec fn view(&self) -> Seq<(Target, PageData)> {
        self.entries@
    }
}

impl DataStore {
    /// No target has two records.
    pub closed spec fn wf(&self) -> bool {
        keys_unique(self.entries@)
    }

    /// A well-formed store holds no target twice.
    pub proof fn lemma_keys_unique(&self)
        requires
            self.wf(),
        ensures
            keys_unique(self@),
    {
    }

    /// An empty store.
    pub fn new() -> (r: DataStore)
        ensures
            r@.len() == 0,
            r.wf(),
    {
        DataStore { entries: Vec::new() }
    }

    /// The number of targets held.
    pub fn len(&self) -> (r: usize)
        ensures
            r == self@.len(),
    {
        self.entries.len()
    }

    /// The target and record at `index`, in the store's order.
    pub fn entry(&self, index: usize) -> (r: (&Target, &PageData))
        requires
            index < self@.len(),
        ensures
            *r.0 == self@[index as int].0,
            *r.1 == self@[index as int].1,
    {
        let e = &self.entries[index];
        (&e.0, &e.1)
    }

    /// The position of the record of `t`, if the store holds one.
    pub open spec fn position_of(&self, t: Seq<char>) -> Option<int> {
        if exists|i: int| has_key_at(self@, t, i) {
            Some(choose|i: int| has_key_at(self@, t, i))
        } else {
            None
        }
    }

    /// The position of the record of `t`.
    fn position(&self, t: &Target) -> (r: Option<usize>)
        requires
            self.wf(),
        ensures
            match r {
                Some(i) => has_key_at(self@, t@, i as int),
                None => forall|i: int| !has_key_at(self@, t@, i),
            },
    {
        let mut i: usize = 0;
        while i < self.entries.len()
            invariant
                i <= self.entries@.len(),
                forall|j: int| 0 <= j < i ==> !has_key_at(self.entries@, t@, j),
            decreases self.entries@.len() - i,
        {
            if crate::text::same_text(self.entries[i].0.as_str(), t.as_str()) {
                return Some(i);
            }
            i = i + 1;
        }
        None
    }

    /// The record of `t`, if the store holds one.
    pub fn get(&self, t: &Target) -> (r: Option<&PageData>)
        requires
            self.wf(),
        ensures
            match r {
                Some(p) => exists|i: int| has_key_at(self@, t@, i) && self@[i].1 == *p,
                None => forall|i: int| !has_key_at(self@, t@, i),
            },
    {
        match self.position(t) {
            Some(i) => Some(&self.entries[i].1),
            None => None,
        }
    }

    /// Records `sample` for `t`: appended to its history if the store holds
    /// the target, else the first sample of a new record.
    pub fn upsert(&mut self, t: Target, sample: State)
        requires
            old(self).wf(),
        ensures
            final(self).wf(),
            upserted(old(self)@, final(self)@, t, sample),
    {
        let ghost tv = t@;
        let ghost before = self.entries@;
        let pos = self.position(&t);
        match pos {
            Some(i) => {
                let (key, mut record) = self.entries.remove(i);
                let ghost old_record = record;
                record.update(sample);
                self.entries.insert(i, (key, record));
                assert(self.entries@ =~= before.update(i as int, (key, record)));
                assert(old_record == before[i as int].1);
                assert forall|j: int| 0 <= j < before.len() implies (if before[j].0@ == tv {
                    self.entries@[j].0 == before[j].0 && recorded(before[j].1, self.entries@[j].1, sample)
                } else {
                    self.entries@[j] == before[j]
                }) by {
                    if j != i && before[j].0@ == tv {
                        assert(before[j].0@ == before[i as int].0@);
                    }
                }
                assert(has_key_at(before, tv, i as int));
            },
            None => {
                assert(forall|i: int| !has_key_at(self@, t@, i));
                assert(self@ == before);
                assert(t@ == tv);
                assert(forall|i: int| !has_key_at(before, tv, i));
                let url_hash = hash_string(&String::from_str(t.as_str()));
                let record = PageData::new(sample, url_hash, None);
                self.entries.push((t, record));
                assert(self.entries@.subrange(0, before.len() as int) =~= before);
                assert forall|i: int, j: int| 0 <= i < j < self.entries@.len() implies (#[trigger] self.entries@[i]).0@ != (#[trigger] self.entries@[j]).0@ by {
                    if j == before.len() {
                        assert(!has_key_at(before, tv, i));
                    }
                }
            },
        }
    }

    proof fn lemma_upserted(old: Seq<(Target, PageData)>, new: Seq<(Target, PageData)>, t: Target, sample: State)
        requires
            upserted(old, new, t, sample),
        ensures
            new.len() >= old.len(),
            forall|i: int| 0 <= i < old.len() ==> (#[trigger] new[i]).0 == old[i].0,
            forall|i: int| 0 <= i < old.len() && old[i].0@ != t@ ==> #[trigger] new[i] == old[i],
            exists|i: int| has_key_at(new, t@, i),
            forall|i: int, u: Seq<char>| has_key_at(old, u, i) ==> #[trigger] has_key_at(new, u, i),
    {
        if exists|i: int| has_key_at(old, t@, i) {
            let i = choose|i: int| has_key_at(old, t@, i);
            assert(new[i].0 == old[i].0);
            assert(has_key_at(new, t@, i));
            assert forall|i: int| 0 <= i < old.len() implies (#[trigger] new[i]).0 == old[i].0 by {
                if old[i].0@ == t@ {
                } else {
                    assert(new[i] == old[i]);
                }
            }
        } else {
            assert(new.subrange(0, old.len() as int)[old.len() - 1] == old[old.len() - 1]);
            assert forall|i: int| 0 <= i < old.len() implies (#[trigger] new[i]) == old[i] by {
                assert(new.subrange(0, old.len() as int)[i] == old[i]);
            }
            assert(has_key_at(new, t@, old.len() as int));
        }
    }

    /// Records each result in turn, as `upsert` does: the store passes
    /// through one upsert per result, in order. Afterwards every target of
    /// `results` has a record, and the records of all other targets are as
    /// they were.
    pub fn record_results(&mut self, results: Vec<(Target, State)>)
        requires
            old(self).wf(),
        ensures
            final(self).wf(),
            exists|steps: Seq<Seq<(Target, PageData)>>|
                upsert_chain(steps, results@) && steps[0] == old(self)@ && steps.last() == final(self)@,
            forall|k: int| 0 <= k < results@.len() ==> has_record(final(self)@, (#[trigger] results@[k]).0@),
            final(self)@.len() >= old(self)@.len(),
            forall|i: int| 0 <= i < old(self)@.len() ==> (#[trigger] final(self)@[i]).0 == old(self)@[i].0,
            forall|i: int|
                0 <= i < old(self)@.len() && (forall|k: int| 0 <= k < results@.len() ==> (#[trigger] results@[k]).0@ != old(self)@[i].0@)
                    ==> #[trigger] final(self)@[i] == old(self)@[i],
    {
        let ghost start = self@;
        let ghost mut steps: Seq<Seq<(Target, PageData)>> = seq![self@];
        let mut k: usize = 0;
        while k < results.len()
            invariant
                self.wf(),
                steps.len() == k + 1,
                steps[0] == start,
                steps.last() == self@,
                forall|m: int| 0 <= m < k ==> upserted(steps[m], steps[m + 1], (#[trigger] results@[m]).0, results@[m].1),
                k <= results@.len(),
                forall|m: int| 0 <= m < k ==> has_record(self@, (#[trigger] results@[m]).0@),
                self@.len() >= start.len(),
                forall|i: int| 0 <= i < start.len() ==> (#[trigger] self@[i]).0 == start[i].0,
                forall|i: int|
                    0 <= i < start.len() && (forall|m: int| 0 <= m < k ==> (#[trigger] results@[m]).0@ != start[i].0@)
                        ==> #[trigger] self@[i] == start[i],
            decreases results@.len() - k,
        {
            let ghost before = self@;
            let t = results[k].0.clone_target();
            let s = results[k].1.duplicate();
            let ghost tt = t;
            self.upsert(t, s);
            proof {
                let old_steps = steps;
                steps = steps.push(self@);
                assert forall|m: int| 0 <= m < k + 1 implies upserted(steps[m], steps[m + 1], (#[trigger] results@[m]).0, results@[m].1) by {
                    if m < k {
                        assert(steps[m] == old_steps[m]);
                        assert(steps[m + 1] == old_steps[m + 1]);
                    } else {
                        assert(steps[m] == before);
                    }
                }
                Self::lemma_upserted(before, self@, tt, s);
                assert(tt@ == results@[k as int].0@);
                let c = choose|i: int| has_key_at(self@, tt@, i);
                assert(has_key_at(self@, results@[k as int].0@, c));
                assert forall|m: int| 0 <= m < k + 1 implies has_record(self@, (#[trigger] results@[m]).0@) by {
                    if m < k {
                        let i = choose|i: int| has_key_at(before, results@[m].0@, i);
                        assert(has_key_at(self@, results@[m].0@, i));
                    } else {
                        assert(has_key_at(self@, results@[m].0@, c));
                    }
                }
                assert forall|i: int|
                    0 <= i < start.len() && (forall|m: int| 0 <= m < k + 1 ==> (#[trigger] results@[m]).0@ != start[i].0@)
                        implies #[trigger] self@[i] == start[i] by {
                    assert(results@[k as int].0@ != start[i].0@);
                    assert(before[i] == start[i]);
                }
            }
            k = k + 1;
        }
        assert(upsert_chain(steps, results@));
    }

    /// Sets the record of `t`, replacing the one the store held.
    pub fn insert(&mut self, t: Target, record: PageData)
        requires
            old(self).wf(),
        ensures
            final(self).wf(),
            match old(self).position_of(t@) {
                Some(i) => final(self)@ == old(self)@.update(i, (t, record)),
                None => final(self)@ == old(self)@.push((t, record)),
            },
    {
        let ghost tv = t@;
        let ghost before = self.entries@;
        let pos = self.position(&t);
        match pos {
            Some(i) => {
                proof {
                    let c = choose|c: int| has_key_at(before, tv, c);
                    if c != i {
                        if c < i {
                            assert(before[c].0@ != before[i as int].0@);
                        } else {
                            assert(before[i as int].0@ != before[c].0@);
                        }
                    }
                }
                self.entries.set(i, (t, record));
                assert(self.entries@ =~= before.update(i as int, (t, record)));
            },
            None => {
                assert(forall|i: int| !has_key_at(self@, t@, i));
                assert(self@ == before);
                assert(t@ == tv);
                assert(forall|i: int| !has_key_at(before, tv, i));
                self.entries.push((t, record));
                assert forall|i: int, j: int| 0 <= i < j < self.entries@.len() implies (#[trigger] self.entries@[i]).0@ != (#[trigger] self.entries@[j]).0@ by {
                    if j == before.len() {
                        assert(!has_key_at(before, tv, i));
                    }
                }
            },
        }
    }

    /// The records in the store's order, to hand over for saving.
    pub fn into_entries(self) -> (r: Vec<(Target, PageData)>)
        ensures
            r@ == self@,
    {
        self.entries
    }
}

proof fn lemma_keep_newest_push<T>(s: Seq<T>, x: T, cap: nat)
    requires
        cap >= 1,
    ensures
        keep_newest(keep_newest(s, cap).push(x), cap) == keep_newest(s.push(x), cap),
{
    if s.len() > cap {
        let k = keep_newest(s, cap);
        assert(k.push(x).len() == cap + 1);
        assert(keep_newest(k.push(x), cap) =~= keep_newest(s.push(x), cap));
    } else {
        assert(keep_newest(s, cap) == s);
    }
}

/// Recording samples one after another into a record that began with the
/// first of them keeps `min(N, cap)` samples after `N` of them: the newest
/// ones in order, the oldest evicted first.
pub proof fn lemma_retention(records: Seq<PageData>, samples: Seq<State>)
    requires
        samples.len() >= 1,
        records.len() == samples.len(),
        records[0].history@ == seq![samples[0]],
        forall|k: int| 1 <= k < samples.len() ==> recorded(records[k - 1], #[trigger] records[k], samples[k]),
    ensures
        records.last().history@.len() == if samples.len() < HISTORY_RETENTION {
            samples.len()
        } else {
            HISTORY_RETENTION as nat
        },
        records.last().history@ == keep_newest(samples, HISTORY_RETENTION as nat),
    decreases samples.len(),
{
    let n = samples.len();
    if n == 1 {
        assert(samples =~= seq![samples[0]]);
    } else {
        let rs = records.drop_last();
        let ss = samples.drop_last();
        assert forall|k: int| 1 <= k < ss.len() implies recorded(rs[k - 1], #[trigger] rs[k], ss[k]) by {
            assert(recorded(records[k - 1], records[k], samples[k]));
        }
        lemma_retention(rs, ss);
        assert(recorded(records[n - 2], records[n - 1], samples[n - 1]));
        lemma_keep_newest_push(ss, samples[n - 1], HISTORY_RETENTION as nat);
        assert(ss.push(samples[n - 1]) =~= samples);
    }
}

} // verus!
