//! Dropping what is delivered more than once.
//!
//! The platform may deliver the same callback twice (retries, mirrored schema
//! versions). Without this, the second delivery hits a state that has already
//! moved on and the user sees a phantom refusal on top of the real answer. Two
//! layers stand in its way: the id of the event, remembered for two minutes,
//! and who clicked what, remembered for three seconds.

use vstd::prelude::*;
use vstd::string::*;
use crate::feishu::json::{Json, JsonView};
use crate::text::same_text;

verus! {

/// How long an event id is remembered, in milliseconds.
pub const EVENT_WINDOW_MS: u64 = 120_000;

/// How long a click is remembered, in milliseconds.
pub const CLICK_WINDOW_MS: u64 = 3_000;

/// The event ids of the last two minutes, with the times at which they came.
#[derive(Debug)]
pub struct SeenEvents {
    entries: Vec<(String, u64)>,
}

/// Whether something that came at `then` is still remembered at `now`.
pub open spec fn is_fresh(then: int, now: int, window: int) -> bool {
    now - then < window
}

/// The entries that are still remembered, in order.
pub open spec fn fresh_events(entries: Seq<(Seq<char>, int)>, now: int) -> Seq<(Seq<char>, int)>
    decreases entries.len(),
{
    if entries.len() == 0 {
        Seq::empty()
    } else if is_fresh(entries.last().1, now, EVENT_WINDOW_MS as int) {
        fresh_events(entries.drop_last(), now).push(entries.last())
    } else {
        fresh_events(entries.drop_last(), now)
    }
}

/// Whether the id is among the entries.
pub open spec fn has_event(entries: Seq<(Seq<char>, int)>, id: Seq<char>) -> bool {
    exists|i: int| 0 <= i < entries.len() && (#[trigger] entries[i]).0 == id
}

impl View for SeenEvents {
    type V = Seq<(Seq<char>, int)>;

    closed spec fn view(&self) -> Seq<(Seq<char>, int)> {
        Seq::new(self.entries@.len(), |i: int| (self.entries@[i].0@, self.entries@[i].1 as int))
    }
}

/// What is remembered once the event has come.
pub open spec fn after_event(entries: Seq<(Seq<char>, int)>, id: Seq<char>, now: int) -> Seq<(Seq<char>, int)> {
    let fresh = fresh_events(entries, now);
    if id.len() == 0 {
        entries
    } else if has_event(fresh, id) {
        fresh
    } else {
        fresh.push((id, now))
    }
}

impl SeenEvents {
    /// Nothing has come yet.
    pub fn new() -> (r: Self)
        ensures
            r@ == Seq::<(Seq<char>, int)>::empty(),
    {
        let r = SeenEvents { entries: Vec::new() };
        assert(r@ =~= Seq::<(Seq<char>, int)>::empty());
        r
    }

    /// Forget what is older than two minutes.
    fn forget_old(&mut self, now_ms: u64)
        ensures
            final(self)@ == fresh_events(old(self)@, now_ms as int),
    {
        let ghost all = self@;
        let mut kept: Vec<(String, u64)> = Vec::new();
        let mut i: usize = 0;
        while i < self.entries.len()
            invariant
                all == self@,
                all.len() == self.entries@.len(),
                i <= self.entries@.len(),
                Seq::new(kept@.len(), |k: int| (kept@[k].0@, kept@[k].1 as int)) =~= fresh_events(
                    all.take(i as int),
                    now_ms as int,
                ),
            decreases self.entries@.len() - i,
        {
            assert(all.take(i + 1).drop_last() =~= all.take(i as int));
            assert(all.take(i + 1).last() == (self.entries@[i as int].0@, self.entries@[i as int].1 as int));
            let t = self.entries[i].1;
            if now_ms < t || now_ms - t < EVENT_WINDOW_MS {
                kept.push((self.entries[i].0.clone(), t));
            }
            i = i + 1;
        }
        assert(all.take(all.len() as int) =~= all);
        self.entries = kept;
        assert(self@ =~= fresh_events(all, now_ms as int));
    }

    /// Whether `event_id` has been seen in the last two minutes — the event is
    /// to be dropped in that case. An empty id (payloads without one) is never
    /// a duplicate.
    pub fn is_duplicate_event(&mut self, event_id: &str, now_ms: u64) -> (r: bool)
        ensures
            r == (event_id@.len() > 0 && has_event(fresh_events(old(self)@, now_ms as int), event_id@)),
            final(self)@ == after_event(old(self)@, event_id@, now_ms as int),
    {
        if event_id.unicode_len() == 0 {
            return false;
        }
        self.forget_old(now_ms);
        let ghost fresh = self@;
        let mut i: usize = 0;
        while i < self.entries.len()
            invariant
                self@ == fresh,
                fresh == fresh_events(old(self)@, now_ms as int),
                event_id@.len() > 0,
                fresh.len() == self.entries@.len(),
                i <= self.entries@.len(),
                forall|k: int| 0 <= k < i ==> (#[trigger] fresh[k]).0 != event_id@,
            decreases self.entries@.len() - i,
        {
            assert(fresh[i as int].0 == self.entries@[i as int].0@);
            if same_text(self.entries[i].0.as_str(), event_id) {
                return true;
            }
            i = i + 1;
        }
        self.entries.push((event_id.to_owned(), now_ms));
        assert(self@ =~= fresh.push((event_id@, now_ms as int)));
        false
    }
}

/// An event that comes again within two minutes is dropped; one that comes
/// later is not.
pub proof fn an_event_counts_once(entries: Seq<(Seq<char>, int)>, id: Seq<char>, first: int, again: int)
    requires
        id.len() > 0,
        first <= again,
        !has_event(fresh_events(entries, first), id),
    ensures
        has_event(fresh_events(after_event(entries, id, first), again), id) <==> again - first < EVENT_WINDOW_MS,
{
    let fresh = fresh_events(entries, first);
    let after = fresh.push((id, first));
    assert(after.drop_last() =~= fresh);
    fresh_events_facts(fresh, again);
    let later = fresh_events(after, again);
    let rest = fresh_events(fresh, again);
    if again - first < EVENT_WINDOW_MS {
        assert(later == rest.push((id, first)));
        assert(later[rest.len() as int].0 == id);
    } else {
        assert(later == rest);
        if has_event(later, id) {
            let i = choose|i: int| 0 <= i < later.len() && (#[trigger] later[i]).0 == id;
            assert(fresh.contains(later[i]));
            let k = choose|k: int| 0 <= k < fresh.len() && fresh[k] == later[i];
            assert(fresh[k].0 == id);
        }
    }
}

/// Nothing that comes in between, and no repetition, lets an
/// event be forgotten before its two minutes are over.
pub proof fn an_event_is_remembered(
    entries: Seq<(Seq<char>, int)>,
    id: Seq<char>,
    first: int,
    other: Seq<char>,
    now: int,
)
    requires
        entries.contains((id, first)),
        now - first < EVENT_WINDOW_MS,
    ensures
        after_event(entries, other, now).contains((id, first)),
        has_event(fresh_events(entries, now), id),
{
    let fresh = fresh_events(entries, now);
    fresh_events_keep(entries, (id, first), now);
    let k = choose|k: int| 0 <= k < fresh.len() && fresh[k] == (id, first);
    assert(fresh[k].0 == id);
    assert(fresh.push((other, now))[k] == (id, first));
}

proof fn fresh_events_keep(entries: Seq<(Seq<char>, int)>, entry: (Seq<char>, int), now: int)
    requires
        entries.contains(entry),
        is_fresh(entry.1, now, EVENT_WINDOW_MS as int),
    ensures
        fresh_events(entries, now).contains(entry),
    decreases entries.len(),
{
    let k = choose|k: int| 0 <= k < entries.len() && entries[k] == entry;
    let rest = entries.drop_last();
    let fresh = fresh_events(entries, now);
    if k < rest.len() {
        assert(rest[k] == entry);
        fresh_events_keep(rest, entry, now);
        let before = fresh_events(rest, now);
        let j = choose|j: int| 0 <= j < before.len() && before[j] == entry;
        assert(fresh[j] == entry);
    } else {
        assert(fresh[fresh.len() - 1] == entry);
    }
}

proof fn fresh_events_facts(entries: Seq<(Seq<char>, int)>, now: int)
    ensures
        forall|i: int| 0 <= i < fresh_events(entries, now).len() ==> entries.contains(#[trigger] fresh_events(entries, now)[i]),
    decreases entries.len(),
{
    if entries.len() > 0 {
        let rest = entries.drop_last();
        fresh_events_facts(rest, now);
        let a = fresh_events(rest, now);
        let b = fresh_events(entries, now);
        assert forall|i: int| 0 <= i < b.len() implies entries.contains(#[trigger] b[i]) by {
            if i < a.len() {
                assert(b[i] == a[i]);
                let k = choose|k: int| 0 <= k < rest.len() && rest[k] == a[i];
                assert(entries[k] == b[i]);
            } else {
                assert(entries[entries.len() - 1] == b[i]);
            }
        }
    }
}

/// Who clicked what in the last three seconds, and when.
#[derive(Debug)]
pub struct RecentClicks {
    entries: Vec<(String, Json, u64)>,
}

/// The clicks that are still remembered, in order.
pub open spec fn fresh_clicks(entries: Seq<(Seq<char>, JsonView, int)>, now: int) -> Seq<(Seq<char>, JsonView, int)>
    decreases entries.len(),
{
    if entries.len() == 0 {
        Seq::empty()
    } else if is_fresh(entries.last().2, now, CLICK_WINDOW_MS as int) {
        fresh_clicks(entries.drop_last(), now).push(entries.last())
    } else {
        fresh_clicks(entries.drop_last(), now)
    }
}

/// Whether the click is among the entries.
pub open spec fn has_click(entries: Seq<(Seq<char>, JsonView, int)>, open_id: Seq<char>, value: JsonView) -> bool {
    exists|i: int| 0 <= i < entries.len() && (#[trigger] entries[i]).0 == open_id && entries[i].1 == value
}

/// What is remembered once the click has come.
pub open spec fn after_click(
    entries: Seq<(Seq<char>, JsonView, int)>,
    open_id: Seq<char>,
    value: JsonView,
    now: int,
) -> Seq<(Seq<char>, JsonView, int)> {
    let fresh = fresh_clicks(entries, now);
    if has_click(fresh, open_id, value) {
        fresh
    } else {
        fresh.push((open_id, value, now))
    }
}

impl View for RecentClicks {
    type V = Seq<(Seq<char>, JsonView, int)>;

    closed spec fn view(&self) -> Seq<(Seq<char>, JsonView, int)> {
        Seq::new(self.entries@.len(), |i: int| (self.entries@[i].0@, self.entries@[i].1@, self.entries@[i].2 as int))
    }
}

impl RecentClicks {
    /// Nobody has clicked yet.
    pub fn new() -> (r: Self)
        ensures
            r@ == Seq::<(Seq<char>, JsonView, int)>::empty(),
    {
        let r = RecentClicks { entries: Vec::new() };
        assert(r@ =~= Seq::<(Seq<char>, JsonView, int)>::empty());
        r
    }

    fn forget_old(&mut self, now_ms: u64)
        ensures
            final(self)@ == fresh_clicks(old(self)@, now_ms as int),
    {
        let ghost all = self@;
        let mut kept: Vec<(String, Json, u64)> = Vec::new();
        let mut i: usize = 0;
        while i < self.entries.len()
            invariant
                all == self@,
                all.len() == self.entries@.len(),
                i <= self.entries@.len(),
                Seq::new(kept@.len(), |k: int| (kept@[k].0@, kept@[k].1@, kept@[k].2 as int)) =~= fresh_clicks(
                    all.take(i as int),
                    now_ms as int,
                ),
            decreases self.entries@.len() - i,
        {
            assert(all.take(i + 1).drop_last() =~= all.take(i as int));
            assert(all.take(i + 1).last() == (
                self.entries@[i as int].0@,
                self.entries@[i as int].1@,
                self.entries@[i as int].2 as int,
            ));
            let t = self.entries[i].2;
            if now_ms < t || now_ms - t < CLICK_WINDOW_MS {
                kept.push((self.entries[i].0.clone(), self.entries[i].1.copy(), t));
            }
            i = i + 1;
        }
        assert(all.take(all.len() as int) =~= all);
        self.entries = kept;
        assert(self@ =~= fresh_clicks(all, now_ms as int));
    }

    /// Whether the same user has sent the same value in the last three seconds.
    pub fn is_duplicate_click(&mut self, open_id: &str, value: &Json, now_ms: u64) -> (r: bool)
        ensures
            r == has_click(fresh_clicks(old(self)@, now_ms as int), open_id@, value@),
            final(self)@ == after_click(old(self)@, open_id@, value@, now_ms as int),
    {
        self.forget_old(now_ms);
        let ghost fresh = self@;
        let mut i: usize = 0;
        while i < self.entries.len()
            invariant
                self@ == fresh,
                fresh == fresh_clicks(old(self)@, now_ms as int),
                fresh.len() == self.entries@.len(),
                i <= self.entries@.len(),
                forall|k: int| 0 <= k < i ==> !((#[trigger] fresh[k]).0 == open_id@ && fresh[k].1 == value@),
            decreases self.entries@.len() - i,
        {
            assert(fresh[i as int].0 == self.entries@[i as int].0@);
            assert(fresh[i as int].1 == self.entries@[i as int].1@);
            if same_text(self.entries[i].0.as_str(), open_id) && self.entries[i].1.same(value) {
                return true;
            }
            i = i + 1;
        }
        self.entries.push((open_id.to_owned(), value.copy(), now_ms));
        assert(self@ =~= fresh.push((open_id@, value@, now_ms as int)));
        false
    }
}

/// The same value from the same user within three seconds is dropped; later it
/// counts again.
pub proof fn a_click_counts_once(
    entries: Seq<(Seq<char>, JsonView, int)>,
    open_id: Seq<char>,
    value: JsonView,
    first: int,
    again: int,
)
    requires
        first <= again,
        !has_click(fresh_clicks(entries, first), open_id, value),
    ensures
        has_click(fresh_clicks(after_click(entries, open_id, value, first), again), open_id, value) <==> again - first
            < CLICK_WINDOW_MS,
{
    let fresh = fresh_clicks(entries, first);
    let after = fresh.push((open_id, value, first));
    assert(after.drop_last() =~= fresh);
    fresh_clicks_facts(fresh, again);
    let later = fresh_clicks(after, again);
    let rest = fresh_clicks(fresh, again);
    if again - first < CLICK_WINDOW_MS {
        assert(later == rest.push((open_id, value, first)));
        assert(later[rest.len() as int].0 == open_id);
    } else {
        assert(later == rest);
        if has_click(later, open_id, value) {
            let i = choose|i: int|
                0 <= i < later.len() && (#[trigger] later[i]).0 == open_id && later[i].1 == value;
            assert(fresh.contains(later[i]));
            let k = choose|k: int| 0 <= k < fresh.len() && fresh[k] == later[i];
            assert(fresh[k].0 == open_id);
        }
    }
}

/// Nothing that is clicked in between, and no repetition, lets a
/// click be forgotten before its three seconds are over.
pub proof fn a_click_is_remembered(
    entries: Seq<(Seq<char>, JsonView, int)>,
    click: (Seq<char>, JsonView, int),
    other: (Seq<char>, JsonView),
    now: int,
)
    requires
        entries.contains(click),
        now - click.2 < CLICK_WINDOW_MS,
    ensures
        after_click(entries, other.0, other.1, now).contains(click),
        has_click(fresh_clicks(entries, now), click.0, click.1),
{
    let fresh = fresh_clicks(entries, now);
    fresh_clicks_keep(entries, click, now);
    let k = choose|k: int| 0 <= k < fresh.len() && fresh[k] == click;
    assert(fresh[k].0 == click.0);
    assert(fresh.push((other.0, other.1, now))[k] == click);
}

proof fn fresh_clicks_keep(entries: Seq<(Seq<char>, JsonView, int)>, entry: (Seq<char>, JsonView, int), now: int)
    requires
        entries.contains(entry),
        is_fresh(entry.2, now, CLICK_WINDOW_MS as int),
    ensures
        fresh_clicks(entries, now).contains(entry),
    decreases entries.len(),
{
    let k = choose|k: int| 0 <= k < entries.len() && entries[k] == entry;
    let rest = entries.drop_last();
    let fresh = fresh_clicks(entries, now);
    if k < rest.len() {
        assert(rest[k] == entry);
        fresh_clicks_keep(rest, entry, now);
        let before = fresh_clicks(rest, now);
        let j = choose|j: int| 0 <= j < before.len() && before[j] == entry;
        assert(fresh[j] == entry);
    } else {
        assert(fresh[fresh.len() - 1] == entry);
    }
}

proof fn fresh_clicks_facts(entries: Seq<(Seq<char>, JsonView, int)>, now: int)
    ensures
        forall|i: int|
            0 <= i < fresh_clicks(entries, now).len() ==> entries.contains(#[trigger] fresh_clicks(entries, now)[i]),
    decreases entries.len(),
{
    if entries.len() > 0 {
        let rest = entries.drop_last();
        fresh_clicks_facts(rest, now);
        let a = fresh_clicks(rest, now);
        let b = fresh_clicks(entries, now);
        assert forall|i: int| 0 <= i < b.len() implies entries.contains(#[trigger] b[i]) by {
            if i < a.len() {
                assert(b[i] == a[i]);
                let k = choose|k: int| 0 <= k < rest.len() && rest[k] == a[i];
                assert(entries[k] == b[i]);
            } else {
                assert(entries[entries.len() - 1] == b[i]);
            }
        }
    }
}

} // verus!
