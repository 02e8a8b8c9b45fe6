use vstd::prelude::*;
use std::collections::HashSet;
use crate::event::{decoded_event, decode, json_parses, DecodeFailure, Event, EventModel};

verus! {

/// The flush cadence the aggregator uses when none is configured.
pub const DEFAULT_FLUSH_INTERVAL_MS: u64 = 3000;

/// The mathematical content of one aggregation window: the fixed category
/// labels, the per-category counts (parallel to the labels), the set of user
/// ids seen since the last reset, and the flush timing parameters, all in
/// milliseconds.
pub struct WindowModel {
    pub labels: Seq<Seq<char>>,
    pub counts: Seq<nat>,
    pub users: Set<i64>,
    pub window_start: u64,
    pub interval: u64,
}

impl WindowModel {
    /// Structural well-formedness: one count per label, no label twice, and
    /// a finite user set.
    pub open spec fn wf(self) -> bool {
        &&& self.counts.len() == self.labels.len()
        &&& (forall|i: int, j: int|
            0 <= i < j < self.labels.len() ==> self.labels[i] != self.labels[j])
        &&& self.users.finite()
    }

    /// Whether `c` is one of the known category labels.
    pub open spec fn has_label(self, c: Seq<char>) -> bool {
        exists|i: int| 0 <= i < self.labels.len() && self.labels[i] == c
    }

    /// The position of `c` among the labels (meaningful when `has_label`).
    pub open spec fn label_index(self, c: Seq<char>) -> int {
        choose|i: int| 0 <= i < self.labels.len() && self.labels[i] == c
    }

    /// The count recorded for label `c`: its entry when known, 0 otherwise.
    pub open spec fn count_of(self, c: Seq<char>) -> nat {
        if self.has_label(c) {
            self.counts[self.label_index(c)]
        } else {
            0
        }
    }

    /// Every count still has room for one more event in a 64-bit counter.
    pub open spec fn headroom(self) -> bool {
        forall|i: int| 0 <= i < self.counts.len() ==> self.counts[i] < u64::MAX
    }

    /// The window after folding in one event: the event's category bumps its
    /// count when the label is known (and is dropped otherwise), and a
    /// present user id joins the distinct-user set.
    pub open spec fn after_observe(self, e: EventModel) -> WindowModel {
        let counts = if self.has_label(e.category) {
            self.counts.update(
                self.label_index(e.category),
                (self.counts[self.label_index(e.category)] + 1) as nat,
            )
        } else {
            self.counts
        };
        let users = match e.user {
            Some(u) => self.users.insert(u),
            None => self.users,
        };
        WindowModel { counts, users, ..self }
    }

    /// The window after a reset at instant `now`: all counts zeroed, the
    /// user set emptied, the window start moved to `now`.
    pub open spec fn after_reset(self, now: u64) -> WindowModel {
        WindowModel {
            counts: Seq::new(self.counts.len(), |i: int| 0nat),
            users: Set::empty(),
            window_start: now,
            ..self
        }
    }

    /// Whether the flush interval has elapsed at instant `now`.
    pub open spec fn due(self, now: u64) -> bool {
        now - self.window_start >= self.interval
    }

    /// The snapshot this window would emit: its labels, its counts, and the
    /// number of distinct users.
    pub open spec fn to_snapshot(self) -> SnapshotModel {
        SnapshotModel { labels: self.labels, counts: self.counts, distinct_users: self.users.len() }
    }
}

/// Where `c` stands among the labels is the only such position.
pub proof fn lemma_label_index_unique(m: WindowModel, c: Seq<char>, j: int)
    requires
        m.wf(),
        0 <= j < m.labels.len(),
        m.labels[j] == c,
    ensures
        m.has_label(c),
        m.label_index(c) == j,
{
    assert(m.has_label(c));
    let i = m.label_index(c);
    if i != j {
        assert(m.labels[i] == m.labels[j]);
        if i < j {
            assert(m.labels[i] != m.labels[j]);
        } else {
            assert(m.labels[j] != m.labels[i]);
        }
    }
}

/// The mathematical content of an emitted snapshot.
pub struct SnapshotModel {
    pub labels: Seq<Seq<char>>,
    pub counts: Seq<nat>,
    pub distinct_users: nat,
}

/// A snapshot of one aggregation window, emitted at a flush boundary: the
/// known category labels with their counts (zeros included), and how many
/// distinct users were seen.
pub struct Snapshot {
    pub categories: Vec<String>,
    pub counts: Vec<u64>,
    pub distinct_users: usize,
}

/// The labels a vector of category strings denotes.
pub open spec fn labels_of(categories: Seq<String>) -> Seq<Seq<char>> {
    Seq::new(categories.len(), |i: int| categories[i]@)
}

impl View for Snapshot {
    type V = SnapshotModel;

    open spec fn view(&self) -> SnapshotModel {
        SnapshotModel {
            labels: labels_of(self.categories@),
            counts: self.counts@.map(|i: int, c: u64| c as nat),
            distinct_users: self.distinct_users as nat,
        }
    }
}

/// The windowed aggregator: owns one aggregation window and its flush timer.
/// Created once, reset in place at every flush boundary.
pub struct Aggregator {
    pub categories: Vec<String>,
    pub counts: Vec<u64>,
    pub users: HashSet<i64>,
    pub window_start_ms: u64,
    pub flush_interval_ms: u64,
}

impl View for Aggregator {
    type V = WindowModel;

    open spec fn view(&self) -> WindowModel {
        WindowModel {
            labels: labels_of(self.categories@),
            counts: self.counts@.map(|i: int, c: u64| c as nat),
            users: self.users@,
            window_start: self.window_start_ms,
            interval: self.flush_interval_ms,
        }
    }
}

/// A fresh window over the given labels: every count zero, no users, the
/// accumulation period starting at `now`.
pub open spec fn fresh_window(labels: Seq<Seq<char>>, interval: u64, now: u64) -> WindowModel {
    WindowModel {
        labels,
        counts: Seq::new(labels.len(), |i: int| 0nat),
        users: Set::empty(),
        window_start: now,
        interval,
    }
}

impl Aggregator {
    pub open spec fn wf(&self) -> bool {
        self@.wf()
    }

    /// Creates the aggregator with the given known category labels (each
    /// pre-seeded at count zero), flush interval, and start instant.
    pub fn new(categories: Vec<String>, flush_interval_ms: u64, now_ms: u64) -> (r: Aggregator)
        requires
            forall|i: int, j: int|
                0 <= i < j < categories@.len() ==> categories@[i]@ != categories@[j]@,
        ensures
            r.wf(),
            r@ == fresh_window(labels_of(categories@), flush_interval_ms, now_ms),
    {
        let n = categories.len();
        let mut counts: Vec<u64> = Vec::new();
        let mut i: usize = 0;
        while i < n
            invariant
                i <= n,
                counts@.len() == i,
                forall|k: int| 0 <= k < i ==> counts@[k] == 0u64,
            decreases n - i,
        {
            counts.push(0);
            i += 1;
        }
        let r = Aggregator {
            categories,
            counts,
            users: HashSet::new(),
            window_start_ms: now_ms,
            flush_interval_ms,
        };
        proof {
            assert(r@.counts =~= fresh_window(labels_of(r.categories@), flush_interval_ms, now_ms).counts);
        }
        r
    }

    /// Folds one decoded event into the window: a known category's count is
    /// incremented, an unknown one is dropped from the count table, and a
    /// present user id joins the distinct-user set (idempotently).
    pub fn observe(&mut self, event: &Event)
        requires
            old(self).wf(),
            old(self)@.headroom(),
        ensures
            final(self).wf(),
            final(self)@ == old(self)@.after_observe(event@),
    {
        let ghost m = old(self)@;
        let n = self.categories.len();
        let mut i: usize = 0;
        let mut matched: Option<usize> = None;
        while i < n
            invariant
                *self == *old(self),
                n == self.categories@.len(),
                i <= n,
                matched matches Some(j) ==> (j < i && self.categories@[j as int]@
                    == event.category@),
                matched is None ==> (forall|k: int|
                    0 <= k < i ==> self.categories@[k]@ != event.category@),
            decreases n - i,
        {
            if self.categories[i] == event.category {
                matched = Some(i);
            }
            i += 1;
        }
        match matched {
            Some(j) => {
                proof {
                    lemma_label_index_unique(m, event@.category, j as int);
                    assert(m.counts[j as int] < u64::MAX);
                }
                let c = self.counts[j];
                self.counts[j] = c + 1;
            },
            None => {
                proof {
                    assert(!m.has_label(event@.category));
                }
            },
        }
        match event.user_id {
            Some(u) => {
                self.users.insert(u);
            },
            None => {},
        }
        proof {
            assert(self@.counts =~= m.after_observe(event@).counts);
            assert(self@ == m.after_observe(event@));
        }
    }

    /// Decodes one raw payload and, on success, folds the event in. A decode
    /// failure is returned for the caller to log and leaves the window
    /// exactly as it was; processing can continue with the next message.
    pub fn ingest(&mut self, payload: Option<&[u8]>) -> (r: Result<(), DecodeFailure>)
        requires
            old(self).wf(),
            old(self)@.headroom(),
        ensures
            final(self).wf(),
            payload is None ==> (r matches Err(e) && e is EmptyPayload && final(self)@ == old(
                self,
            )@),
            payload is Some && !json_parses(payload->Some_0@) ==> (r matches Err(e)
                && e is MalformedPayload && final(self)@ == old(self)@),
            payload is Some && json_parses(payload->Some_0@) ==> (r is Ok && final(self)@ == old(
                self,
            )@.after_observe(decoded_event(payload->Some_0@))),
    {
        match decode(payload) {
            Ok(event) => {
                self.observe(&event);
                Ok(())
            },
            Err(failure) => Err(failure),
        }
    }

    /// Emits a snapshot and resets the window in place when the flush
    /// interval has elapsed at `now_ms`; otherwise does nothing at all.
    pub fn maybe_flush(&mut self, now_ms: u64) -> (r: Option<Snapshot>)
        requires
            old(self).wf(),
        ensures
            final(self).wf(),
            old(self)@.due(now_ms) ==> (r matches Some(s) && s@ == old(self)@.to_snapshot()
                && final(self)@ == old(self)@.after_reset(now_ms)),
            !old(self)@.due(now_ms) ==> (r is None && final(self)@ == old(self)@),
    {
        let ghost m = old(self)@;
        if now_ms >= self.window_start_ms && now_ms - self.window_start_ms
            >= self.flush_interval_ms {
            let n = self.categories.len();
            let mut labels: Vec<String> = Vec::new();
            let mut counts: Vec<u64> = Vec::new();
            let mut i: usize = 0;
            while i < n
                invariant
                    *self == *old(self),
                    n == self.categories@.len(),
                    self@.wf(),
                    i <= n,
                    labels@.len() == i,
                    counts@.len() == i,
                    forall|k: int| 0 <= k < i ==> labels@[k]@ == self.categories@[k]@,
                    forall|k: int| 0 <= k < i ==> counts@[k] == self.counts@[k],
                decreases n - i,
            {
                labels.push(self.categories[i].clone());
                counts.push(self.counts[i]);
                i += 1;
            }
            let snapshot = Snapshot {
                categories: labels,
                counts,
                distinct_users: self.users.len(),
            };
            let mut j: usize = 0;
            while j < n
                invariant
                    n == self.categories@.len(),
                    self.counts@.len() == n,
                    j <= n,
                    self.categories@ == old(self).categories@,
                    self.users@ == old(self).users@,
                    self.window_start_ms == old(self).window_start_ms,
                    self.flush_interval_ms == old(self).flush_interval_ms,
                    forall|k: int| 0 <= k < j ==> self.counts@[k] == 0u64,
                    forall|k: int| j <= k < n ==> self.counts@[k] == old(self).counts@[k],
                decreases n - j,
            {
                self.counts[j] = 0;
                j += 1;
            }
            self.users.clear();
            self.window_start_ms = now_ms;
            proof {
                assert(snapshot@.labels =~= m.to_snapshot().labels);
                assert(snapshot@.counts =~= m.to_snapshot().counts);
                assert(self@.counts =~= m.after_reset(now_ms).counts);
                assert(self@ == m.after_reset(now_ms));
            }
            Some(snapshot)
        } else {
            None
        }
    }

    /// Whether every count can still take one more event; the caller checks
    /// this before `observe` or `ingest`.
    pub fn has_headroom(&self) -> (r: bool)
        requires
            self.wf(),
        ensures
            r == self@.headroom(),
    {
        let n = self.counts.len();
        let mut i: usize = 0;
        while i < n
            invariant
                n == self.counts@.len(),
                i <= n,
                forall|k: int| 0 <= k < i ==> self.counts@[k] < u64::MAX,
            decreases n - i,
        {
            if self.counts[i] == u64::MAX {
                proof {
                    assert(self@.counts[i as int] == u64::MAX);
                }
                return false;
            }
            i += 1;
        }
        true
    }
}

/// The three category labels the stream is known to carry.
pub fn known_categories() -> (r: Vec<String>)
    ensures
        r@.len() == 3,
        r@[0]@ == "page_view"@,
        r@[1]@ == "click"@,
        r@[2]@ == "purchase"@,
        forall|i: int, j: int| 0 <= i < j < r@.len() ==> r@[i]@ != r@[j]@,
{
    let mut v: Vec<String> = Vec::new();
    v.push("page_view".to_owned());
    v.push("click".to_owned());
    v.push("purchase".to_owned());
    proof {
        reveal_strlit("page_view");
        reveal_strlit("click");
        reveal_strlit("purchase");
        assert(v@[0]@.len() == 9);
        assert(v@[1]@.len() == 5);
        assert(v@[2]@.len() == 8);
    }
    v
}

} // verus!
