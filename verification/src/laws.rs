use vstd::prelude::*;
use crate::event::EventModel;
use crate::window::{fresh_window, WindowModel};

verus! {

/// The window after folding in a sequence of events, one `observe` at a time.
pub open spec fn after_observing(m: WindowModel, events: Seq<EventModel>) -> WindowModel
    decreases events.len(),
{
    if events.len() == 0 {
        m
    } else {
        after_observing(m.after_observe(events[0]), events.skip(1))
    }
}

/// How many of the events carry category `c`.
pub open spec fn occurrences(events: Seq<EventModel>, c: Seq<char>) -> nat
    decreases events.len(),
{
    if events.len() == 0 {
        0
    } else {
        occurrences(events.skip(1), c) + (if events[0].category == c {
            1nat
        } else {
            0nat
        })
    }
}

/// Whether `c` is one of the labels.
pub open spec fn label_known(labels: Seq<Seq<char>>, c: Seq<char>) -> bool {
    exists|i: int| 0 <= i < labels.len() && labels[i] == c
}

/// How many of the events carry a category among `labels`.
pub open spec fn known_occurrences(events: Seq<EventModel>, labels: Seq<Seq<char>>) -> nat
    decreases events.len(),
{
    if events.len() == 0 {
        0
    } else {
        known_occurrences(events.skip(1), labels) + (if label_known(labels, events[0].category) {
            1nat
        } else {
            0nat
        })
    }
}

/// The user ids present among the events, gathered front to back.
pub open spec fn users_of(events: Seq<EventModel>) -> Set<i64>
    decreases events.len(),
{
    if events.len() == 0 {
        Set::empty()
    } else {
        let rest = users_of(events.skip(1));
        match events[0].user {
            Some(u) => rest.insert(u),
            None => rest,
        }
    }
}

/// The user ids present among the events, with no reference to their order
/// or to repeats.
pub open spec fn present_users(events: Seq<EventModel>) -> Set<i64> {
    Set::new(|u: i64| exists|k: int| 0 <= k < events.len() && events[k].user == Some(u))
}

/// The total of a count table.
pub open spec fn total(counts: Seq<nat>) -> nat
    decreases counts.len(),
{
    if counts.len() == 0 {
        0
    } else {
        counts[0] + total(counts.skip(1))
    }
}

/// Folding in one event preserves the window's shape: the labels, the
/// number of counters, and the timing parameters all stay as they were.
pub proof fn lemma_after_observe_shape(m: WindowModel, e: EventModel)
    requires
        m.wf(),
    ensures
        m.after_observe(e).wf(),
        m.after_observe(e).labels == m.labels,
        m.after_observe(e).counts.len() == m.counts.len(),
        m.after_observe(e).window_start == m.window_start,
        m.after_observe(e).interval == m.interval,
{
}

/// Folding in a sequence of events preserves the window's shape as well.
pub proof fn lemma_after_observing_shape(m: WindowModel, events: Seq<EventModel>)
    requires
        m.wf(),
    ensures
        after_observing(m, events).wf(),
        after_observing(m, events).labels == m.labels,
        after_observing(m, events).counts.len() == m.counts.len(),
        after_observing(m, events).window_start == m.window_start,
        after_observing(m, events).interval == m.interval,
    decreases events.len(),
{
    if events.len() > 0 {
        lemma_after_observe_shape(m, events[0]);
        lemma_after_observing_shape(m.after_observe(events[0]), events.skip(1));
    }
}

/// Bumping one entry of a count table raises its total by exactly one.
pub proof fn lemma_total_bump(counts: Seq<nat>, i: int)
    requires
        0 <= i < counts.len(),
    ensures
        total(counts.update(i, (counts[i] + 1) as nat)) == total(counts) + 1,
    decreases counts.len(),
{
    let bumped = counts.update(i, (counts[i] + 1) as nat);
    if i == 0 {
        assert(bumped.skip(1) =~= counts.skip(1));
    } else {
        assert(bumped.skip(1) =~= counts.skip(1).update(i - 1, (counts.skip(1)[i - 1] + 1) as nat));
        lemma_total_bump(counts.skip(1), i - 1);
    }
}

/// After folding in a sequence of events, each known category's counter has
/// grown by exactly the number of events that carried that category.
pub proof fn lemma_observe_counts(m: WindowModel, events: Seq<EventModel>, i: int)
    requires
        m.wf(),
        0 <= i < m.labels.len(),
    ensures
        after_observing(m, events).counts[i] == m.counts[i] + occurrences(events, m.labels[i]),
    decreases events.len(),
{
    if events.len() == 0 {
    } else {
        let m1 = m.after_observe(events[0]);
        lemma_after_observe_shape(m, events[0]);
        lemma_observe_counts(m1, events.skip(1), i);
        let c = events[0].category;
        if m.has_label(c) {
            let li = m.label_index(c);
            crate::window::lemma_label_index_unique(m, c, li);
            if c == m.labels[i] {
                crate::window::lemma_label_index_unique(m, c, i);
            } else {
                assert(li != i);
            }
        }
    }
}

/// After folding in a sequence of events, the count total has grown by
/// exactly the number of events whose category is a known label.
pub proof fn lemma_observe_total(m: WindowModel, events: Seq<EventModel>)
    requires
        m.wf(),
    ensures
        total(after_observing(m, events).counts) == total(m.counts) + known_occurrences(
            events,
            m.labels,
        ),
    decreases events.len(),
{
    if events.len() == 0 {
    } else {
        let m1 = m.after_observe(events[0]);
        lemma_after_observe_shape(m, events[0]);
        lemma_observe_total(m1, events.skip(1));
        let c = events[0].category;
        if m.has_label(c) {
            let li = m.label_index(c);
            crate::window::lemma_label_index_unique(m, c, li);
            lemma_total_bump(m.counts, li);
            assert(label_known(m.labels, c));
        } else {
            assert(!label_known(m.labels, c));
        }
    }
}

/// After folding in a sequence of events, the distinct-user set has grown by
/// exactly the user ids present among the events.
pub proof fn lemma_observe_users(m: WindowModel, events: Seq<EventModel>)
    ensures
        after_observing(m, events).users =~= m.users.union(users_of(events)),
    decreases events.len(),
{
    if events.len() == 0 {
        assert(m.users.union(users_of(events)) =~= m.users);
    } else {
        let m1 = m.after_observe(events[0]);
        lemma_observe_users(m1, events.skip(1));
        assert(m1.users.union(users_of(events.skip(1))) =~= m.users.union(users_of(events)));
    }
}

/// Gathering the present user ids front to back yields exactly the set of
/// ids that occur anywhere in the sequence: repeats and order do not matter.
pub proof fn lemma_users_of_is_present_users(events: Seq<EventModel>)
    ensures
        users_of(events) =~= present_users(events),
        users_of(events).finite(),
    decreases events.len(),
{
    if events.len() == 0 {
        assert forall|u: i64| !present_users(events).contains(u) by {
            if present_users(events).contains(u) {
                let k = choose|k: int| 0 <= k < events.len() && events[k].user == Some(u);
            }
        }
    } else {
        lemma_users_of_is_present_users(events.skip(1));
        assert forall|u: i64| present_users(events).contains(u) implies users_of(events).contains(
            u,
        ) by {
            let k = choose|k: int| 0 <= k < events.len() && events[k].user == Some(u);
            if k > 0 {
                assert(events.skip(1)[k - 1].user == Some(u));
                assert(present_users(events.skip(1)).contains(u));
            }
        }
        assert forall|u: i64| users_of(events).contains(u) implies present_users(events).contains(
            u,
        ) by {
            if present_users(events.skip(1)).contains(u) {
                let k = choose|k: int|
                    0 <= k < events.skip(1).len() && events.skip(1)[k].user == Some(u);
                assert(events[k + 1].user == Some(u));
            } else {
                assert(events[0].user == Some(u));
            }
        }
    }
}

/// In a freshly reset window, after observing any sequence of events and
/// before any flush, each known category's count is exactly the number of
/// events that carried that category, and the counts total exactly the
/// number of events whose category is a known label.
pub proof fn law_counts_after_observing(
    labels: Seq<Seq<char>>,
    interval: u64,
    start: u64,
    events: Seq<EventModel>,
)
    requires
        forall|i: int, j: int| 0 <= i < j < labels.len() ==> labels[i] != labels[j],
    ensures
        forall|i: int|
            0 <= i < labels.len() ==> after_observing(
                fresh_window(labels, interval, start),
                events,
            ).counts[i] == occurrences(events, labels[i]),
        forall|c: Seq<char>|
            label_known(labels, c) ==> after_observing(
                fresh_window(labels, interval, start),
                events,
            ).count_of(c) == occurrences(events, c),
        total(after_observing(fresh_window(labels, interval, start), events).counts)
            == known_occurrences(events, labels),
{
    let m = fresh_window(labels, interval, start);
    assert forall|i: int| 0 <= i < labels.len() implies after_observing(m, events).counts[i]
        == occurrences(events, labels[i]) by {
        lemma_observe_counts(m, events, i);
    }
    assert forall|c: Seq<char>| label_known(labels, c) implies after_observing(
        m,
        events,
    ).count_of(c) == occurrences(events, c) by {
        let i = choose|i: int| 0 <= i < labels.len() && labels[i] == c;
        lemma_after_observing_shape(m, events);
        crate::window::lemma_label_index_unique(after_observing(m, events), c, i);
        lemma_observe_counts(m, events, i);
    }
    lemma_observe_total(m, events);
    lemma_total_zero(m.counts);
}

/// A table of zeros totals zero.
pub proof fn lemma_total_zero(counts: Seq<nat>)
    requires
        forall|i: int| 0 <= i < counts.len() ==> counts[i] == 0,
    ensures
        total(counts) == 0,
    decreases counts.len(),
{
    if counts.len() > 0 {
        lemma_total_zero(counts.skip(1));
    }
}

/// In a freshly reset window, after observing any sequence of events, the
/// distinct-user set is exactly the set of user ids present among the
/// events — each id counted once, whatever the repeats and order.
pub proof fn law_distinct_users_after_observing(
    labels: Seq<Seq<char>>,
    interval: u64,
    start: u64,
    events: Seq<EventModel>,
)
    ensures
        after_observing(fresh_window(labels, interval, start), events).users == present_users(
            events,
        ),
        present_users(events).finite(),
{
    let m = fresh_window(labels, interval, start);
    lemma_observe_users(m, events);
    lemma_users_of_is_present_users(events);
    assert(m.users.union(users_of(events)) =~= present_users(events));
}

/// Immediately after a flush fires, every known category's count is zero,
/// the distinct-user set is empty, and the accumulation period restarts at
/// the flush instant — whatever the pre-flush state was.
pub proof fn law_reset_clears(m: WindowModel, now: u64)
    requires
        m.wf(),
    ensures
        m.after_reset(now).wf(),
        forall|i: int| 0 <= i < m.after_reset(now).counts.len() ==> m.after_reset(now).counts[i]
            == 0,
        m.after_reset(now).users == Set::<i64>::empty(),
        m.after_reset(now).users.len() == 0,
        m.after_reset(now).window_start == now,
{
}

/// Resetting a window leaves exactly a fresh window over the same labels,
/// so every law about fresh windows holds again after each flush.
pub proof fn lemma_reset_is_fresh(m: WindowModel, now: u64)
    requires
        m.wf(),
    ensures
        m.after_reset(now) == fresh_window(m.labels, m.interval, now),
{
    assert(m.after_reset(now).counts =~= fresh_window(m.labels, m.interval, now).counts);
}

/// A window reset at `t0` into which no event was folded is due once the
/// interval has elapsed, and the snapshot it then emits shows every known
/// category at zero and zero distinct users.
pub proof fn law_idle_interval_snapshot(m: WindowModel, t0: u64, now: u64)
    requires
        m.wf(),
        now - t0 >= m.interval,
    ensures
        after_observing(m.after_reset(t0), Seq::empty()).due(now),
        forall|i: int|
            0 <= i < after_observing(m.after_reset(t0), Seq::empty()).to_snapshot().counts.len()
                ==> after_observing(m.after_reset(t0), Seq::empty()).to_snapshot().counts[i] == 0,
        after_observing(m.after_reset(t0), Seq::empty()).to_snapshot().distinct_users == 0,
{
    law_reset_clears(m, t0);
}

} // verus!
