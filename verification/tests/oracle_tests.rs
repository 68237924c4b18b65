use creature_oracle::key::Spacetime;
use creature_oracle::oracle::{get_creature_at_spacetime, Entry, Outcome, OutcomeTable, TableError};
use creature_oracle::time::Timestamp;
use rand::distributions::{Distribution, WeightedIndex};
use rand::rngs::StdRng;
use rand::SeedableRng;

fn key(cell: u64, secs: i64) -> Spacetime {
    Spacetime::new(cell, Timestamp::new(secs, 0).unwrap())
}

fn table(pikachu: u32, bulbasaur: u32, absent: u32) -> OutcomeTable {
    OutcomeTable::new(vec![
        Entry { outcome: Outcome::Pikachu, weight: pikachu },
        Entry { outcome: Outcome::Bulbasaur, weight: bulbasaur },
        Entry { outcome: Outcome::Absent, weight: absent },
    ])
    .unwrap()
}

fn by_weighted_index(st: &Spacetime) -> Option<&'static str> {
    let mut rng = StdRng::from_seed(st.hash());
    let choices = [Some("pikachu.png"), Some("bulbasaur.png"), None];
    let weights = [1, 1, 1000];
    let dist = WeightedIndex::new(&weights).unwrap();
    choices[dist.sample(&mut rng)]
}

#[test]
fn table_rejects_empty_list() {
    assert!(matches!(OutcomeTable::new(Vec::new()), Err(TableError::Empty)));
}

#[test]
fn table_rejects_all_zero_weights() {
    let entries = vec![
        Entry { outcome: Outcome::Pikachu, weight: 0 },
        Entry { outcome: Outcome::Absent, weight: 0 },
    ];
    assert!(matches!(OutcomeTable::new(entries), Err(TableError::AllZero)));
}

#[test]
fn table_rejects_weights_beyond_a_draw() {
    let entries = vec![
        Entry { outcome: Outcome::Pikachu, weight: u32::MAX },
        Entry { outcome: Outcome::Absent, weight: 1 },
    ];
    assert!(matches!(OutcomeTable::new(entries), Err(TableError::TooHeavy)));
    let entries = vec![
        Entry { outcome: Outcome::Pikachu, weight: u32::MAX - 1 },
        Entry { outcome: Outcome::Absent, weight: 1 },
    ];
    assert_eq!(OutcomeTable::new(entries).unwrap().total(), u32::MAX);
}

#[test]
fn standard_table_is_one_one_thousand() {
    let t = OutcomeTable::standard();
    assert_eq!(t.len(), 3);
    assert_eq!(t.total(), 1002);
    assert_eq!(t.entry(0), Entry { outcome: Outcome::Pikachu, weight: 1 });
    assert_eq!(t.entry(1), Entry { outcome: Outcome::Bulbasaur, weight: 1 });
    assert_eq!(t.entry(2), Entry { outcome: Outcome::Absent, weight: 1000 });
}

#[test]
fn select_picks_the_band_that_holds_the_draw() {
    let t = OutcomeTable::standard();
    assert_eq!(t.select(0), 0);
    assert_eq!(t.select(1), 1);
    assert_eq!(t.select(2), 2);
    assert_eq!(t.select(500), 2);
    assert_eq!(t.select(1001), 2);
    assert_eq!(t.outcome_for(0), Outcome::Pikachu);
    assert_eq!(t.outcome_for(1), Outcome::Bulbasaur);
    assert_eq!(t.outcome_for(2), Outcome::Absent);
    assert_eq!(t.outcome_for(1001), Outcome::Absent);
}

#[test]
fn select_never_picks_a_zero_weight() {
    let t = OutcomeTable::new(vec![
        Entry { outcome: Outcome::Absent, weight: 0 },
        Entry { outcome: Outcome::Pikachu, weight: 5 },
        Entry { outcome: Outcome::Absent, weight: 0 },
        Entry { outcome: Outcome::Bulbasaur, weight: 3 },
        Entry { outcome: Outcome::Absent, weight: 0 },
    ])
    .unwrap();
    assert_eq!(t.total(), 8);
    assert_eq!(t.select(0), 1);
    assert_eq!(t.select(4), 1);
    assert_eq!(t.select(5), 3);
    assert_eq!(t.select(7), 3);
    for draw in 0..8 {
        assert!(t.entry(t.select(draw)).weight > 0);
    }
}

#[test]
fn each_band_is_as_wide_as_its_weight() {
    let t = table(3, 4, 5);
    let mut counts = [0u32; 3];
    for draw in 0..t.total() {
        counts[t.select(draw)] += 1;
    }
    assert_eq!(counts, [3, 4, 5]);
}

#[test]
fn heavier_absence_keeps_every_selection() {
    let lighter = table(1, 1, 10);
    let heavier = table(1, 1, 1000);
    for draw in 0..lighter.total() {
        assert_eq!(heavier.select(draw), lighter.select(draw));
    }
    let absent_lighter = (0..lighter.total()).filter(|d| lighter.select(*d) == 2).count();
    let absent_heavier = (0..heavier.total()).filter(|d| heavier.select(*d) == 2).count();
    assert_eq!(absent_lighter, 10);
    assert_eq!(absent_heavier, 1000);
}

#[test]
fn asset_names() {
    assert_eq!(Outcome::Pikachu.asset(), Some("pikachu.png"));
    assert_eq!(Outcome::Bulbasaur.asset(), Some("bulbasaur.png"));
    assert_eq!(Outcome::Absent.asset(), None);
    assert!(Outcome::Pikachu.is_creature());
    assert!(Outcome::Bulbasaur.is_creature());
    assert!(!Outcome::Absent.is_creature());
}

#[test]
fn query_is_deterministic() {
    let t = OutcomeTable::standard();
    let again = OutcomeTable::standard();
    for i in 0..500u64 {
        let st = key(0x08f2_aabc_2d81_0000 + i, 1_656_938_040 + 60 * (i as i64));
        let first = t.query(&st);
        assert_eq!(t.query(&st), first);
        assert_eq!(again.query(&st), first);
        assert_eq!(get_creature_at_spacetime(&st), first.asset());
    }
}

#[test]
fn query_is_the_same_within_a_minute() {
    let t = table(1, 1, 2);
    for i in 0..200u64 {
        let cell = 0x08f2_aabc_2d81_0000 + i;
        let start = 1_656_938_040 + 60 * (i as i64);
        let first = t.query(&key(cell, start));
        assert_eq!(t.query(&key(cell, start + 1)), first);
        assert_eq!(t.query(&key(cell, start + 59)), first);
        let late = Spacetime::new(cell, Timestamp::new(start + 59, 999_999_999).unwrap());
        assert_eq!(t.query(&late), first);
    }
}

#[test]
fn query_agrees_with_weighted_index_sampling() {
    let mut creatures = 0;
    for i in 0..4000u64 {
        let st = key(0x08f2_aabc_2d80_0000 + 7 * i, 1_656_938_040 + 60 * ((i % 97) as i64));
        let expected = by_weighted_index(&st);
        assert_eq!(get_creature_at_spacetime(&st), expected);
        if expected.is_some() {
            creatures += 1;
        }
    }
    assert!(creatures < 400);
}

#[test]
fn query_with_even_weights_reaches_every_outcome() {
    let t = table(1, 1, 1);
    let mut seen = [0u32; 3];
    for i in 0..300u64 {
        match t.query(&key(i, 60 * (i as i64))) {
            Outcome::Pikachu => seen[0] += 1,
            Outcome::Bulbasaur => seen[1] += 1,
            Outcome::Absent => seen[2] += 1,
        }
    }
    assert!(seen[0] > 0 && seen[1] > 0 && seen[2] > 0);
    assert_eq!(seen[0] + seen[1] + seen[2], 300);
}

#[test]
fn zero_weight_outcomes_are_never_answered() {
    let no_pikachu = table(0, 1, 1000);
    let no_bulbasaur = table(3, 0, 2);
    for i in 0..2000u64 {
        let st = key(0x08f2_aabc_2d80_0000 + i, 1_656_938_040 + 60 * ((i % 11) as i64));
        assert_ne!(no_pikachu.query(&st), Outcome::Pikachu);
        assert_ne!(no_bulbasaur.query(&st), Outcome::Bulbasaur);
    }
}

#[test]
fn positive_weights_are_reached_by_the_draw_at_their_band() {
    let t = table(3, 0, 2);
    assert_eq!(t.select(0), 0);
    assert_eq!(t.select(3), 2);
    let u = table(0, 4, 1);
    assert_eq!(u.select(0), 1);
    assert_eq!(u.select(4), 2);
}

#[test]
fn certain_outcomes_are_always_drawn() {
    let only_absent = table(0, 0, 9);
    let only_pikachu = table(4, 0, 0);
    for i in 0..100u64 {
        let st = key(i, 1_000_000 + 60 * (i as i64));
        assert_eq!(only_absent.query(&st), Outcome::Absent);
        assert_eq!(only_pikachu.query(&st), Outcome::Pikachu);
    }
}

#[test]
fn heavier_absence_is_no_rarer_over_many_keys() {
    let lighter = table(1, 1, 2);
    let heavier = table(1, 1, 1000);
    let mut absent_lighter = 0;
    let mut absent_heavier = 0;
    for i in 0..3000u64 {
        let st = key(0x08f2_aabc_2d80_0000 + i, 1_656_938_040);
        if lighter.query(&st) == Outcome::Absent {
            absent_lighter += 1;
        }
        if heavier.query(&st) == Outcome::Absent {
            absent_heavier += 1;
        }
    }
    assert!(absent_heavier >= absent_lighter);
    assert!(absent_lighter > 1000 && absent_lighter < 2000);
    assert!(absent_heavier > 2900);
}
