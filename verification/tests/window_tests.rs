use creature_oracle::key::Spacetime;
use creature_oracle::oracle::{Entry, Outcome, OutcomeTable};
use creature_oracle::time::Timestamp;
use creature_oracle::window::{Shown, SpawnWindow, CATCH_UP_CAP, RETENTION_MINUTES};

fn ts(secs: i64, nanos: u32) -> Timestamp {
    Timestamp::new(secs, nanos).unwrap()
}

fn crowded() -> OutcomeTable {
    OutcomeTable::new(vec![
        Entry { outcome: Outcome::Pikachu, weight: 1 },
        Entry { outcome: Outcome::Bulbasaur, weight: 1 },
        Entry { outcome: Outcome::Absent, weight: 0 },
    ])
    .unwrap()
}

const START: i64 = 1_656_938_040;

#[test]
fn constants() {
    assert_eq!(CATCH_UP_CAP, 10);
    assert_eq!(RETENTION_MINUTES, 10);
}

#[test]
fn advance_does_nothing_before_a_minute_has_passed() {
    let mut w = SpawnWindow::new(ts(START, 0));
    let old = Spacetime::new(1, ts(START - 10_000, 0));
    w.track(9, old);
    let r = w.advance(&crowded(), ts(START + 59, 999_999_999), &vec![1, 2, 3]);
    assert_eq!(r.minutes, 0);
    assert!(r.spawns.is_empty());
    assert!(r.removals.is_empty());
    assert_eq!(w.last_update, ts(START, 0));
    assert_eq!(w.shown.len(), 1);
}

#[test]
fn advance_does_nothing_when_the_clock_went_back() {
    let mut w = SpawnWindow::new(ts(START, 0));
    let r = w.advance(&crowded(), ts(START - 3_600, 0), &vec![1, 2, 3]);
    assert!(r.spawns.is_empty());
    assert!(r.removals.is_empty());
    assert_eq!(w.last_update, ts(START, 0));
}

#[test]
fn advance_after_one_minute_looks_one_minute_ahead() {
    let mut w = SpawnWindow::new(ts(START, 0));
    let now = ts(START + 60, 0);
    assert!(w.is_due(&now));
    let cells: Vec<u64> = vec![11, 22, 33];
    let r = w.advance(&crowded(), now, &cells);
    assert_eq!(r.spawns.len(), 3);
    for (i, s) in r.spawns.iter().enumerate() {
        assert_eq!(s.key, Spacetime::new(cells[i], ts(START + 120, 0)));
        assert_eq!(s.outcome, crowded().query(&s.key));
        assert_ne!(s.outcome, Outcome::Absent);
    }
    assert_eq!(w.last_update, now);
}

#[test]
fn advance_after_37_minutes_looks_at_ten() {
    let mut w = SpawnWindow::new(ts(START, 0));
    let now = ts(START + 37 * 60, 250);
    let cells: Vec<u64> = vec![5, 6];
    let r = w.advance(&crowded(), now, &cells);
    assert_eq!(r.minutes, 10);
    assert_eq!(r.spawns.len(), 20);
    for d in 1..=10usize {
        let time = ts(START + 37 * 60 + 60 * (d as i64), 250);
        assert_eq!(r.spawns[2 * (d - 1)].key.time, ts(START + 37 * 60 + 60 * (d as i64), 0));
        assert_eq!(r.spawns[2 * (d - 1)].key, Spacetime::new(5, time));
        assert_eq!(r.spawns[2 * (d - 1) + 1].key, Spacetime::new(6, time));
    }
    assert_eq!(w.last_update, now);
    // The backlog is gone: nothing is due right after.
    assert!(!w.is_due(&ts(START + 37 * 60 + 59, 0)));
    let again = w.advance(&crowded(), ts(START + 37 * 60 + 59, 0), &cells);
    assert!(again.spawns.is_empty());
}

#[test]
fn advance_after_four_minutes_looks_at_four() {
    let mut w = SpawnWindow::new(ts(START, 0));
    let r = w.advance(&crowded(), ts(START + 4 * 60 + 59, 0), &vec![7]);
    assert_eq!(r.minutes, 4);
    assert_eq!(r.spawns.len(), 4);
    assert_eq!(r.spawns[0].key.time, ts(START + 5 * 60, 0));
    assert_eq!(r.spawns[3].key.time, ts(START + 8 * 60, 0));
}

#[test]
fn advance_spawns_only_creatures() {
    let table = OutcomeTable::standard();
    let cells: Vec<u64> = (0..400u64).map(|i| 0x08f2_aabc_2d80_0000 + i).collect();
    let mut w = SpawnWindow::new(ts(START, 0));
    let now = ts(START + 600, 0);
    let r = w.advance(&table, now, &cells);
    let mut expected = Vec::new();
    for d in 1..=10i64 {
        for c in cells.iter() {
            let key = Spacetime::new(*c, ts(START + 600 + 60 * d, 0));
            let outcome = table.query(&key);
            if outcome != Outcome::Absent {
                expected.push((key, outcome));
            }
        }
    }
    assert_eq!(r.spawns.len(), expected.len());
    for (s, e) in r.spawns.iter().zip(expected.iter()) {
        assert_eq!((s.key, s.outcome), *e);
    }
    assert!(r.spawns.len() < 400);
}

#[test]
fn advance_after_decades_looks_at_ten() {
    let mut w = SpawnWindow::new(ts(0, 0));
    let now = ts(START + 7, 0);
    let cells: Vec<u64> = vec![1, 2, 3];
    let r = w.advance(&crowded(), now, &cells);
    assert_eq!(r.minutes, 10);
    assert_eq!(r.spawns.len(), 30);
    assert_eq!(r.spawns[0].key.time, ts(START + 60, 0));
    assert_eq!(r.spawns[29].key.time, ts(START + 600, 0));
    assert_eq!(w.last_update, now);
}

#[test]
fn retention_boundary_is_strict() {
    let key = Spacetime::new(100, ts(START + 3_000, 0));
    let mut w = SpawnWindow::new(ts(START, 0));
    w.track(1, key);
    // Exactly ten minutes old: stays.
    assert!(w.despawn(&ts(START + 3_600, 0)).is_empty());
    assert_eq!(w.shown, vec![Shown { handle: 1, key }]);
    // One second more: goes.
    assert_eq!(w.despawn(&ts(START + 3_601, 0)), vec![1]);
    assert!(w.shown.is_empty());
    // One nanosecond more is enough.
    w.track(2, key);
    assert_eq!(w.despawn(&ts(START + 3_600, 1)), vec![2]);
    assert!(w.shown.is_empty());
}

#[test]
fn advance_removes_what_is_past_retention() {
    let now = ts(START + 3_600, 0);
    let mut w = SpawnWindow::new(ts(START, 0));
    w.track(1, Spacetime::new(100, ts(START + 3_000, 0)));
    w.track(2, Spacetime::new(200, ts(START + 2_999, 0)));
    w.track(3, Spacetime::new(300, ts(START + 2_940, 0)));
    w.track(4, Spacetime::new(400, ts(START + 3_660, 0)));
    w.track(5, Spacetime::new(500, ts(0, 0)));
    let r = w.advance(&crowded(), now, &Vec::new());
    assert!(r.spawns.is_empty());
    assert_eq!(r.minutes, 10);
    assert_eq!(r.removals, vec![2, 3, 5]);
    assert_eq!(
        w.shown,
        vec![
            Shown { handle: 1, key: Spacetime::new(100, ts(START + 3_000, 0)) },
            Shown { handle: 4, key: Spacetime::new(400, ts(START + 3_660, 0)) },
        ]
    );
}

#[test]
fn despawn_alone_keeps_the_last_advance() {
    let mut w = SpawnWindow::new(ts(START, 0));
    w.track(8, Spacetime::new(1, ts(START, 0)));
    w.track(9, Spacetime::new(2, ts(START + 60, 0)));
    let removals = w.despawn(&ts(START + 601, 0));
    assert_eq!(removals, vec![8]);
    assert_eq!(w.shown.len(), 1);
    assert_eq!(w.shown[0].handle, 9);
    assert_eq!(w.last_update, ts(START, 0));
}
