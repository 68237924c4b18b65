//! The rolling window: what to spawn and what to remove as time passes.

use crate::key::Spacetime;
use crate::oracle::{spec_query, Entry, Outcome, OutcomeTable};
use crate::time::{Timestamp, MAX_UNIX_SECONDS};
use vstd::prelude::*;

verus! {

/// The most minutes that one advance looks at, however many have passed.
pub const CATCH_UP_CAP: i64 = 10;

/// The age in minutes beyond which a creature is removed.
pub const RETENTION_MINUTES: u32 = 10;

/// A creature on screen: the caller's handle for it and the key it came from.
#[derive(Clone, Copy, Debug, PartialEq, Eq, Structural)]
pub struct Shown {
    pub handle: u64,
    pub key: Spacetime,
}

/// An instruction to show a creature.
#[derive(Clone, Copy, Debug, PartialEq, Eq, Structural)]
pub struct Spawn {
    pub key: Spacetime,
    pub outcome: Outcome,
}

/// What one advance asks of the caller.
pub struct Advance {
    /// The number of minutes ahead of `now` that were looked at.
    pub minutes: i64,
    /// The creatures to show, by minute and within a minute by cell.
    pub spawns: Vec<Spawn>,
    /// The handles of the creatures to remove, in the order they were shown.
    pub removals: Vec<u64>,
}

/// The state of the window: when it last advanced and what is on screen.
pub struct SpawnWindow {
    pub last_update: Timestamp,
    pub shown: Vec<Shown>,
}

/// The minutes that an advance at `now` looks at: those that have passed
/// since `last`, but no more than the cap.
pub open spec fn due_minutes(last: Timestamp, now: Timestamp) -> int {
    let elapsed = last.spec_minutes_until(now);
    if elapsed < CATCH_UP_CAP {
        elapsed
    } else {
        CATCH_UP_CAP as int
    }
}

/// The creatures among the first `n` cells in the minute of `time`, in the
/// cells' order.
pub open spec fn spawns_at(entries: Seq<Entry>, cells: Seq<u64>, time: Timestamp, n: int) -> Seq<
    Spawn,
>
    decreases n,
{
    if n <= 0 {
        Seq::empty()
    } else {
        let before = spawns_at(entries, cells, time, n - 1);
        let key = Spacetime::spec_new(cells[n - 1], time);
        let outcome = spec_query(entries, key);
        if outcome != Outcome::Absent {
            before.push(Spawn { key, outcome })
        } else {
            before
        }
    }
}

/// The creatures in `cells` during the `minutes` minutes after `now`, one
/// minute after the other.
pub open spec fn spawns_through(
    entries: Seq<Entry>,
    cells: Seq<u64>,
    now: Timestamp,
    minutes: int,
) -> Seq<Spawn>
    decreases minutes,
{
    if minutes <= 0 {
        Seq::empty()
    } else {
        spawns_through(entries, cells, now, minutes - 1) + spawns_at(
            entries,
            cells,
            now.spec_plus_minutes(minutes),
            cells.len() as int,
        )
    }
}

/// A creature is past retention when its key's instant lies more than the
/// retention time before `now`.
pub open spec fn expired(t: Shown, now: Timestamp) -> bool {
    t.key.time.spec_older_than(now, RETENTION_MINUTES as int)
}

/// The handles of those among the first `n` shown creatures that are past
/// retention at `now`.
pub open spec fn removals_of(shown: Seq<Shown>, now: Timestamp, n: int) -> Seq<u64>
    decreases n,
{
    if n <= 0 {
        Seq::empty()
    } else if expired(shown[n - 1], now) {
        removals_of(shown, now, n - 1).push(shown[n - 1].handle)
    } else {
        removals_of(shown, now, n - 1)
    }
}

/// Those among the first `n` shown creatures that are not past retention
/// at `now`.
pub open spec fn kept_of(shown: Seq<Shown>, now: Timestamp, n: int) -> Seq<Shown>
    decreases n,
{
    if n <= 0 {
        Seq::empty()
    } else if expired(shown[n - 1], now) {
        kept_of(shown, now, n - 1)
    } else {
        kept_of(shown, now, n - 1).push(shown[n - 1])
    }
}

/// Every key of `spawns` is well-formed.
pub open spec fn keys_wf(spawns: Seq<Spawn>) -> bool {
    forall|i: int| 0 <= i < spawns.len() ==> (#[trigger] spawns[i]).key.wf()
}

/// Appends to `out` the creatures among `cells` in the minute of `time`.
pub fn spawn_minute(table: &OutcomeTable, cells: &Vec<u64>, time: Timestamp, out: &mut Vec<Spawn>)
    requires
        table.wf(),
        time.wf(),
        keys_wf(old(out)@),
    ensures
        final(out)@ == old(out)@ + spawns_at(table@, cells@, time, cells@.len() as int),
        keys_wf(final(out)@),
{
    let mut i: usize = 0;
    while i < cells.len()
        invariant
            table.wf(),
            time.wf(),
            i <= cells@.len(),
            out@ == old(out)@ + spawns_at(table@, cells@, time, i as int),
            keys_wf(out@),
        decreases cells@.len() - i,
    {
        let ghost before = out@;
        let key = Spacetime::new(cells[i], time);
        let outcome = table.query(&key);
        if outcome.is_creature() {
            out.push(Spawn { key, outcome });
            assert(out@ == before.push(Spawn { key, outcome }));
        }
        i = i + 1;
        assert(out@ =~= old(out)@ + spawns_at(table@, cells@, time, i as int));
    }
}

impl SpawnWindow {
    /// Every shown key has an instant that the calendar reaches.
    pub open spec fn wf(self) -> bool {
        &&& self.last_update.wf()
        &&& forall|i: int| 0 <= i < self.shown@.len() ==> (#[trigger] self.shown@[i]).key.wf()
    }

    /// A window that last advanced at `last_update` and tracks nothing.
    pub fn new(last_update: Timestamp) -> (r: SpawnWindow)
        requires
            last_update.wf(),
        ensures
            r.wf(),
            r.last_update == last_update,
            r.shown@.len() == 0,
    {
        SpawnWindow { last_update, shown: Vec::new() }
    }

    /// Records that the creature of `key` is on screen under `handle`.
    pub fn track(&mut self, handle: u64, key: Spacetime)
        requires
            old(self).wf(),
            key.wf(),
        ensures
            final(self).wf(),
            final(self).last_update == old(self).last_update,
            final(self).shown@ == old(self).shown@.push(Shown { handle, key }),
    {
        self.shown.push(Shown { handle, key });
    }

    /// Whether an advance at `now` would do anything: a whole minute has
    /// passed since the last one.
    pub fn is_due(&self, now: &Timestamp) -> (r: bool)
        requires
            self.wf(),
            now.wf(),
        ensures
            r == (self.last_update.spec_minutes_until(*now) >= 1),
    {
        self.last_update.minutes_until(now) >= 1
    }

    /// Splits the shown creatures at `now` into those that stay and the
    /// handles of those past retention.
    pub fn despawn(&mut self, now: &Timestamp) -> (removals: Vec<u64>)
        requires
            old(self).wf(),
            now.wf(),
        ensures
            final(self).wf(),
            final(self).last_update == old(self).last_update,
            removals@ == removals_of(old(self).shown@, *now, old(self).shown@.len() as int),
            final(self).shown@ == kept_of(
                old(self).shown@,
                *now,
                old(self).shown@.len() as int,
            ),
    {
        let mut removals: Vec<u64> = Vec::new();
        let mut kept: Vec<Shown> = Vec::new();
        let mut i: usize = 0;
        while i < self.shown.len()
            invariant
                *self == *old(self),
                self.wf(),
                now.wf(),
                i <= self.shown@.len(),
                removals@ == removals_of(self.shown@, *now, i as int),
                kept@ == kept_of(self.shown@, *now, i as int),
                forall|j: int| 0 <= j < kept@.len() ==> (#[trigger] kept@[j]).key.wf(),
            decreases self.shown@.len() - i,
        {
            let t = self.shown[i];
            assert(self.shown@[i as int].key.wf());
            if t.key.time.older_than(now, RETENTION_MINUTES) {
                removals.push(t.handle);
            } else {
                kept.push(t);
            }
            i = i + 1;
        }
        self.shown = kept;
        removals
    }

    /// Advances the window to `now`, looking at the cells `nearby`.
    ///
    /// If less than a whole minute has passed since the last advance, nothing
    /// changes and nothing is asked. Otherwise the oracle is asked for every
    /// cell at each of the minutes `now + 1`, ..., `now + d`, where `d` is the
    /// number of whole minutes passed, capped; shown creatures past
    /// retention are removed; and the window's last advance becomes `now`.
    pub fn advance(&mut self, table: &OutcomeTable, now: Timestamp, nearby: &Vec<u64>) -> (r:
        Advance)
        requires
            old(self).wf(),
            table.wf(),
            now.wf(),
            now.secs + 60 * CATCH_UP_CAP <= MAX_UNIX_SECONDS,
        ensures
            final(self).wf(),
            keys_wf(r.spawns@),
            r.minutes == if old(self).last_update.spec_minutes_until(now) < 1 {
                0
            } else {
                due_minutes(old(self).last_update, now)
            },
            0 <= r.minutes <= CATCH_UP_CAP,
            old(self).last_update.spec_minutes_until(now) < 1 ==> {
                &&& *final(self) == *old(self)
                &&& r.spawns@.len() == 0
                &&& r.removals@.len() == 0
            },
            old(self).last_update.spec_minutes_until(now) >= 1 ==> {
                &&& final(self).last_update == now
                &&& r.spawns@ == spawns_through(
                    table@,
                    nearby@,
                    now,
                    due_minutes(old(self).last_update, now),
                )
                &&& r.removals@ == removals_of(
                    old(self).shown@,
                    now,
                    old(self).shown@.len() as int,
                )
                &&& final(self).shown@ == kept_of(
                    old(self).shown@,
                    now,
                    old(self).shown@.len() as int,
                )
            },
    {
        let elapsed: i64 = self.last_update.minutes_until(&now);
        let mut spawns: Vec<Spawn> = Vec::new();
        if elapsed < 1 {
            return Advance { minutes: 0, spawns, removals: Vec::new() };
        }
        let due: i64 = if elapsed < CATCH_UP_CAP {
            elapsed
        } else {
            CATCH_UP_CAP
        };
        let mut d: i64 = 0;
        while d < due
            invariant
                table.wf(),
                now.wf(),
                now.secs + 60 * CATCH_UP_CAP <= MAX_UNIX_SECONDS,
                0 <= d <= due <= CATCH_UP_CAP,
                spawns@ == spawns_through(table@, nearby@, now, d as int),
                keys_wf(spawns@),
            decreases due - d,
        {
            d = d + 1;
            let time = now.plus_minutes(d);
            spawn_minute(table, nearby, time, &mut spawns);
        }
        let removals = self.despawn(&now);
        self.last_update = now;
        Advance { minutes: due, spawns, removals }
    }
}

/// However long the window has slept, an advance looks at no more minutes
/// than the cap, and at every minute that has passed below it.
pub proof fn lemma_due_minutes_capped(last: Timestamp, now: Timestamp)
    ensures
        0 <= due_minutes(last, now) <= CATCH_UP_CAP,
        last.spec_minutes_until(now) >= CATCH_UP_CAP ==> due_minutes(last, now) == CATCH_UP_CAP,
        last.spec_minutes_until(now) <= CATCH_UP_CAP ==> due_minutes(last, now)
            == last.spec_minutes_until(now),
{
}

/// `s` is the creature that the oracle puts in the cell `cells[j]` at the
/// instant `d` whole minutes after `now`.
pub open spec fn is_spawn_of(
    entries: Seq<Entry>,
    cells: Seq<u64>,
    now: Timestamp,
    d: int,
    j: int,
    s: Spawn,
) -> bool {
    &&& 0 <= j < cells.len()
    &&& s.key == Spacetime::spec_new(cells[j], now.spec_plus_minutes(d))
    &&& s.outcome == spec_query(entries, s.key)
    &&& s.outcome != Outcome::Absent
}

/// Every creature among the first `n` cells at `time` stands in one of those
/// cells at that instant, and is what the oracle answers there. The cell's
/// index is returned.
pub proof fn lemma_spawns_at_origin(
    entries: Seq<Entry>,
    cells: Seq<u64>,
    time: Timestamp,
    n: int,
    i: int,
) -> (j: int)
    requires
        0 <= n <= cells.len(),
        0 <= i < spawns_at(entries, cells, time, n).len(),
    ensures
        0 <= j < n,
        spawns_at(entries, cells, time, n)[i].key == Spacetime::spec_new(cells[j], time),
        spawns_at(entries, cells, time, n)[i].outcome == spec_query(
            entries,
            Spacetime::spec_new(cells[j], time),
        ),
        spawns_at(entries, cells, time, n)[i].outcome != Outcome::Absent,
    decreases n,
{
    let before = spawns_at(entries, cells, time, n - 1);
    if i < before.len() {
        lemma_spawns_at_origin(entries, cells, time, n - 1, i)
    } else {
        n - 1
    }
}

/// Every creature that an advance over `minutes` minutes spawns comes from one
/// of the cells at a whole number of minutes after `now`, at least one and at
/// most `minutes`: no minute beyond that is looked at. The minute and the
/// cell's index are returned.
pub proof fn lemma_spawns_through_origin(
    entries: Seq<Entry>,
    cells: Seq<u64>,
    now: Timestamp,
    minutes: int,
    i: int,
) -> (at: (int, int))
    requires
        0 <= i < spawns_through(entries, cells, now, minutes).len(),
    ensures
        1 <= at.0 <= minutes,
        is_spawn_of(entries, cells, now, at.0, at.1, spawns_through(entries, cells, now, minutes)[i]),
    decreases minutes,
{
    let before = spawns_through(entries, cells, now, minutes - 1);
    if i < before.len() {
        lemma_spawns_through_origin(entries, cells, now, minutes - 1, i)
    } else {
        let j = lemma_spawns_at_origin(
            entries,
            cells,
            now.spec_plus_minutes(minutes),
            cells.len() as int,
            i - before.len(),
        );
        (minutes, j)
    }
}

/// At most one creature is spawned for each of the first `n` cells.
pub proof fn lemma_spawns_at_len(entries: Seq<Entry>, cells: Seq<u64>, time: Timestamp, n: int)
    requires
        0 <= n,
    ensures
        spawns_at(entries, cells, time, n).len() <= n,
    decreases n,
{
    if n > 0 {
        lemma_spawns_at_len(entries, cells, time, n - 1);
    }
}

/// An advance over `minutes` minutes asks the oracle once for each cell and
/// minute, so it spawns no more creatures than `minutes` times the number of
/// cells.
pub proof fn lemma_spawns_through_len(
    entries: Seq<Entry>,
    cells: Seq<u64>,
    now: Timestamp,
    minutes: int,
)
    requires
        0 <= minutes,
    ensures
        spawns_through(entries, cells, now, minutes).len() <= minutes * cells.len(),
    decreases minutes,
{
    if minutes > 0 {
        lemma_spawns_through_len(entries, cells, now, minutes - 1);
        lemma_spawns_at_len(
            entries,
            cells,
            now.spec_plus_minutes(minutes),
            cells.len() as int,
        );
        assert((minutes - 1) * cells.len() + cells.len() == minutes * cells.len())
            by (nonlinear_arith);
    }
}

/// `s` is the creature that the oracle puts in one of `cells` at a whole
/// number of minutes after `now`, at least one and at most `minutes`.
pub open spec fn spawned_within(
    entries: Seq<Entry>,
    cells: Seq<u64>,
    now: Timestamp,
    minutes: int,
    s: Spawn,
) -> bool {
    exists|d: int, j: int| 1 <= d <= minutes && #[trigger] is_spawn_of(entries, cells, now, d, j, s)
}

/// The catch-up cap: when ten minutes or more have passed since the last
/// advance, however many, the advance looks at exactly the cap's number of
/// minutes. Every creature it spawns comes from one of the cells at a whole
/// number of minutes after `now`, from one up to the cap, and there are no
/// more of them than the cap times the number of cells.
pub proof fn lemma_catch_up_cap(
    entries: Seq<Entry>,
    cells: Seq<u64>,
    last: Timestamp,
    now: Timestamp,
)
    requires
        last.spec_minutes_until(now) >= CATCH_UP_CAP,
    ensures
        due_minutes(last, now) == CATCH_UP_CAP,
        spawns_through(entries, cells, now, due_minutes(last, now)).len() <= CATCH_UP_CAP
            * cells.len(),
        forall|i: int|
            0 <= i < spawns_through(entries, cells, now, due_minutes(last, now)).len()
                ==> spawned_within(
                entries,
                cells,
                now,
                CATCH_UP_CAP as int,
                #[trigger] spawns_through(entries, cells, now, due_minutes(last, now))[i],
            ),
{
    let all = spawns_through(entries, cells, now, CATCH_UP_CAP as int);
    lemma_spawns_through_len(entries, cells, now, CATCH_UP_CAP as int);
    assert forall|i: int| 0 <= i < all.len() implies spawned_within(
        entries,
        cells,
        now,
        CATCH_UP_CAP as int,
        #[trigger] all[i],
    ) by {
        let at = lemma_spawns_through_origin(entries, cells, now, CATCH_UP_CAP as int, i);
        assert(is_spawn_of(entries, cells, now, at.0, at.1, all[i]));
    }
}

/// Retention is strict: a creature whose key lies exactly the retention time
/// before `now` stays, and one any later instant older goes.
pub proof fn lemma_retention_boundary(t: Shown, now: Timestamp)
    ensures
        now.as_nanos() - t.key.time.as_nanos() == RETENTION_MINUTES * 60_000_000_000 ==> !expired(
            t,
            now,
        ),
        now.as_nanos() - t.key.time.as_nanos() > RETENTION_MINUTES * 60_000_000_000 ==> expired(
            t,
            now,
        ),
        expired(t, now) <==> now.as_nanos() - t.key.time.as_nanos() > 600_000_000_000,
{
}

/// Every handle is either removed or kept: the two lists of a despawn pass
/// hold as many creatures as were shown.
pub proof fn lemma_despawn_partitions(shown: Seq<Shown>, now: Timestamp, n: int)
    requires
        0 <= n <= shown.len(),
    ensures
        removals_of(shown, now, n).len() + kept_of(shown, now, n).len() == n,
        forall|j: int|
            0 <= j < kept_of(shown, now, n).len() ==> !expired(
                #[trigger] kept_of(shown, now, n)[j],
                now,
            ),
    decreases n,
{
    if n > 0 {
        lemma_despawn_partitions(shown, now, n - 1);
    }
}

} // verus!
