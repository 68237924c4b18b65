//! The oracle: from a key to a creature, or to none.

use crate::key::{lemma_same_minute_same_key, Spacetime};
use crate::time::Timestamp;
use rand::distributions::Distribution;
use rand::SeedableRng;
use vstd::prelude::*;

verus! {

/// What the oracle can answer.
#[derive(Clone, Copy, Debug, PartialEq, Eq, Structural)]
pub enum Outcome {
    Pikachu,
    Bulbasaur,
    Absent,
}

/// One outcome and its weight in the draw.
#[derive(Clone, Copy, Debug, PartialEq, Eq, Structural)]
pub struct Entry {
    pub outcome: Outcome,
    pub weight: u32,
}

/// Why a list of entries is no table.
#[derive(Clone, Copy, Debug, PartialEq, Eq, Structural)]
pub enum TableError {
    /// The list is empty.
    Empty,
    /// Every weight is zero.
    AllZero,
    /// The weights sum to more than a draw can reach.
    TooHeavy,
}

/// An ordered list of outcomes with weights, of which at least one is
/// positive.
pub struct OutcomeTable {
    entries: Vec<Entry>,
    total: u32,
}

/// The sum of the weights of the first `n` entries.
pub open spec fn cumulative(entries: Seq<Entry>, n: int) -> int
    decreases n,
{
    if n <= 0 {
        0
    } else {
        cumulative(entries, n - 1) + entries[n - 1].weight
    }
}

/// The sum of all weights.
pub open spec fn total_weight(entries: Seq<Entry>) -> int {
    cumulative(entries, entries.len() as int)
}

/// The least index at or after `from` whose cumulative weight exceeds `draw`;
/// the length of the list if there is none.
pub open spec fn first_exceeding(entries: Seq<Entry>, draw: int, from: int) -> int
    decreases entries.len() - from,
{
    if from < 0 || from >= entries.len() {
        entries.len() as int
    } else if draw < cumulative(entries, from + 1) {
        from
    } else {
        first_exceeding(entries, draw, from + 1)
    }
}

/// The index that a draw selects: the first whose cumulative weight exceeds
/// it.
pub open spec fn spec_select(entries: Seq<Entry>, draw: int) -> int {
    first_exceeding(entries, draw, 0)
}

/// The outcome that a draw selects.
pub open spec fn outcome_for_draw(entries: Seq<Entry>, draw: int) -> Outcome {
    entries[spec_select(entries, draw)].outcome
}

/// The value that a generator seeded with `seed` gives first when sampled
/// uniformly from `low` up to, but not including, `high`.
pub uninterp spec fn seeded_draw(seed: Seq<u8>, low: u32, high: u32) -> u32;

/// Seeds `rand::rngs::StdRng` with `from_seed` and samples once from
/// `rand::distributions::Uniform::new(low, high)`. Trusted: the sample lies in
/// the half-open range and, for the version of the generator that is linked,
/// is a function of the seed and the range alone. The range must not be
/// empty, as `Uniform::new` panics on one.
#[verifier::external_body]
fn uniform_draw(seed: [u8; 32], low: u32, high: u32) -> (r: u32)
    requires
        low < high,
    ensures
        low <= r < high,
        r == seeded_draw(seed@, low, high),
{
    let mut rng = rand::rngs::StdRng::from_seed(seed);
    rand::distributions::Uniform::new(low, high).sample(&mut rng)
}

/// The draw that decides a key under a table: uniform below the total weight,
/// from a generator seeded with the key's digest.
pub open spec fn spec_draw(entries: Seq<Entry>, st: Spacetime) -> int {
    seeded_draw(st.spec_hash(), 0, total_weight(entries) as u32) as int
}

/// What the oracle answers for a key under a table.
pub open spec fn spec_query(entries: Seq<Entry>, st: Spacetime) -> Outcome {
    outcome_for_draw(entries, spec_draw(entries, st))
}

/// The entries of the standard table: each creature once in 1002, none
/// otherwise.
pub open spec fn standard_entries() -> Seq<Entry> {
    seq![
        Entry { outcome: Outcome::Pikachu, weight: 1 },
        Entry { outcome: Outcome::Bulbasaur, weight: 1 },
        Entry { outcome: Outcome::Absent, weight: 1000 },
    ]
}

/// The image that shows an outcome, if it is a creature.
pub open spec fn spec_asset(outcome: Outcome) -> Option<Seq<char>> {
    match outcome {
        Outcome::Pikachu => Some("pikachu.png"@),
        Outcome::Bulbasaur => Some("bulbasaur.png"@),
        Outcome::Absent => None,
    }
}

impl Outcome {
    /// The image that shows this outcome, if it is a creature.
    pub fn asset(&self) -> (r: Option<&'static str>)
        ensures
            r.is_some() == spec_asset(*self).is_some(),
            r matches Some(s) ==> Some(s@) == spec_asset(*self),
    {
        match self {
            Outcome::Pikachu => Some("pikachu.png"),
            Outcome::Bulbasaur => Some("bulbasaur.png"),
            Outcome::Absent => None,
        }
    }

    /// Whether the outcome is a creature.
    pub fn is_creature(&self) -> (r: bool)
        ensures
            r == (*self != Outcome::Absent),
    {
        match self {
            Outcome::Absent => false,
            _ => true,
        }
    }
}

impl View for OutcomeTable {
    type V = Seq<Entry>;

    closed spec fn view(&self) -> Seq<Entry> {
        self.entries@
    }
}

impl OutcomeTable {
    /// The table can be drawn from.
    pub closed spec fn wf(self) -> bool {
        &&& self.entries@.len() > 0
        &&& self.total == total_weight(self.entries@)
        &&& self.total > 0
    }

    /// A well-formed table is not empty and its weights sum to a positive
    /// number that a draw can reach.
    pub proof fn lemma_wf(self)
        requires
            self.wf(),
        ensures
            self@.len() > 0,
            0 < total_weight(self@) <= u32::MAX,
    {
    }

    /// A table of the given entries, in their order.
    pub fn new(entries: Vec<Entry>) -> (r: Result<OutcomeTable, TableError>)
        ensures
            match r {
                Ok(t) => t.wf() && t@ == entries@ && 0 < total_weight(entries@) <= u32::MAX
                    && entries@.len() > 0,
                Err(TableError::Empty) => entries@.len() == 0,
                Err(TableError::AllZero) => entries@.len() > 0 && total_weight(entries@) == 0,
                Err(TableError::TooHeavy) => entries@.len() > 0 && total_weight(entries@)
                    > u32::MAX,
            },
    {
        if entries.len() == 0 {
            return Err(TableError::Empty);
        }
        let mut sum: u64 = 0;
        let mut i: usize = 0;
        while i < entries.len()
            invariant
                i <= entries.len(),
                sum == cumulative(entries@, i as int),
                sum <= u32::MAX,
            decreases entries.len() - i,
        {
            sum = sum + entries[i].weight as u64;
            i = i + 1;
            if sum > u32::MAX as u64 {
                proof {
                    lemma_cumulative_monotone(entries@, i as int, entries@.len() as int);
                }
                return Err(TableError::TooHeavy);
            }
        }
        if sum == 0 {
            return Err(TableError::AllZero);
        }
        Ok(OutcomeTable { entries, total: sum as u32 })
    }

    /// The standard table.
    pub fn standard() -> (r: OutcomeTable)
        ensures
            r.wf(),
            r@ == standard_entries(),
    {
        let mut entries: Vec<Entry> = Vec::new();
        entries.push(Entry { outcome: Outcome::Pikachu, weight: 1 });
        entries.push(Entry { outcome: Outcome::Bulbasaur, weight: 1 });
        entries.push(Entry { outcome: Outcome::Absent, weight: 1000 });
        proof {
            assert(entries@ =~= standard_entries());
            reveal_with_fuel(cumulative, 4);
        }
        OutcomeTable { entries, total: 1002 }
    }

    /// The sum of the weights.
    pub fn total(&self) -> (r: u32)
        requires
            self.wf(),
        ensures
            r == total_weight(self@),
            r > 0,
    {
        self.total
    }

    /// The number of entries.
    pub fn len(&self) -> (r: usize)
        ensures
            r == self@.len(),
    {
        self.entries.len()
    }

    /// The entry at `index`.
    pub fn entry(&self, index: usize) -> (r: Entry)
        requires
            index < self@.len(),
        ensures
            r == self@[index as int],
    {
        self.entries[index]
    }

    /// The index that `draw` selects: the first whose cumulative weight
    /// exceeds it.
    pub fn select(&self, draw: u32) -> (r: usize)
        requires
            self.wf(),
            draw < total_weight(self@),
        ensures
            r == spec_select(self@, draw as int),
            r < self@.len(),
            cumulative(self@, r as int) <= draw < cumulative(self@, r + 1),
            self@[r as int].weight > 0,
    {
        let n: usize = self.entries.len();
        let mut i: usize = 0;
        let mut acc: u32 = self.entries[0].weight;
        proof {
            reveal_with_fuel(cumulative, 2);
            lemma_cumulative_monotone(self.entries@, 1, self.entries@.len() as int);
        }
        while acc <= draw
            invariant
                self.wf(),
                draw < total_weight(self.entries@),
                n == self.entries@.len(),
                i < n,
                acc == cumulative(self.entries@, i + 1),
                cumulative(self.entries@, i as int) <= draw,
                spec_select(self.entries@, draw as int) == first_exceeding(
                    self.entries@,
                    draw as int,
                    i as int,
                ),
            decreases self.entries@.len() - i,
        {
            proof {
                assert(i + 1 < n);
                lemma_cumulative_monotone(self.entries@, i + 2, self.entries@.len() as int);
            }
            i = i + 1;
            acc = acc + self.entries[i].weight;
        }
        i
    }

    /// The outcome that `draw` selects.
    pub fn outcome_for(&self, draw: u32) -> (r: Outcome)
        requires
            self.wf(),
            draw < total_weight(self@),
        ensures
            r == outcome_for_draw(self@, draw as int),
    {
        let i = self.select(draw);
        self.entries[i].outcome
    }

    /// What the oracle answers for `st`: the outcome selected by one uniform
    /// draw below the total weight from a generator seeded with the key's
    /// digest.
    pub fn query(&self, st: &Spacetime) -> (r: Outcome)
        requires
            self.wf(),
            st.wf(),
        ensures
            r == spec_query(self@, *st),
            0 <= spec_draw(self@, *st) < total_weight(self@),
            0 <= spec_select(self@, spec_draw(self@, *st)) < self@.len(),
            self@[spec_select(self@, spec_draw(self@, *st))].outcome == r,
            self@[spec_select(self@, spec_draw(self@, *st))].weight > 0,
    {
        let seed = st.hash();
        let draw = uniform_draw(seed, 0, self.total);
        let i = self.select(draw);
        self.entries[i].outcome
    }
}

/// The image of the creature that stands at `st` under the standard table, if
/// one does.
pub fn get_creature_at_spacetime(st: &Spacetime) -> (r: Option<&'static str>)
    requires
        st.wf(),
    ensures
        r.is_some() == (spec_query(standard_entries(), *st) != Outcome::Absent),
        r matches Some(s) ==> Some(s@) == spec_asset(spec_query(standard_entries(), *st)),
        0 <= spec_draw(standard_entries(), *st) < 1002,
        spec_query(standard_entries(), *st) == standard_entries()[spec_select(
            standard_entries(),
            spec_draw(standard_entries(), *st),
        )].outcome,
        0 <= spec_select(standard_entries(), spec_draw(standard_entries(), *st)) < 3,
{
    let table = OutcomeTable::standard();
    proof {
        reveal_with_fuel(cumulative, 4);
    }
    table.query(st).asset()
}

/// Cumulative weights never fall.
pub proof fn lemma_cumulative_monotone(entries: Seq<Entry>, i: int, j: int)
    requires
        i <= j,
    ensures
        cumulative(entries, i) <= cumulative(entries, j),
    decreases j - i,
{
    if i < j {
        lemma_cumulative_monotone(entries, i, j - 1);
    }
}

/// From `from` on, the first index whose cumulative weight exceeds `draw` is
/// the one whose band holds `draw`.
pub proof fn lemma_first_exceeding_band(entries: Seq<Entry>, draw: int, from: int, i: int)
    requires
        0 <= from <= i < entries.len(),
        cumulative(entries, from) <= draw,
        cumulative(entries, i) <= draw < cumulative(entries, i + 1),
    ensures
        first_exceeding(entries, draw, from) == i,
    decreases i - from,
{
    if from < i {
        lemma_cumulative_monotone(entries, from + 1, i);
        lemma_first_exceeding_band(entries, draw, from + 1, i);
    }
}

/// Each outcome is selected by exactly the draws of its band, which is as
/// wide as its weight: a draw selects index `i` if and only if it lies at or
/// above the cumulative weight before `i` and below the one after it.
pub proof fn lemma_select_is_band(entries: Seq<Entry>, draw: int, i: int)
    requires
        0 <= i < entries.len(),
        0 <= draw < total_weight(entries),
    ensures
        spec_select(entries, draw) == i <==> cumulative(entries, i) <= draw < cumulative(
            entries,
            i + 1,
        ),
        cumulative(entries, i + 1) - cumulative(entries, i) == entries[i].weight,
{
    let k = lemma_select_in_range(entries, draw, 0);
    if cumulative(entries, i) <= draw < cumulative(entries, i + 1) {
        lemma_first_exceeding_band(entries, draw, 0, i);
    } else if k < i {
        lemma_cumulative_monotone(entries, k + 1, i);
    } else if k > i {
        lemma_cumulative_monotone(entries, i + 1, k);
    }
}

/// A draw below the total weight selects an index of the table, in whose band
/// it lies.
pub proof fn lemma_select_in_range(entries: Seq<Entry>, draw: int, from: int) -> (k: int)
    requires
        0 <= from <= entries.len(),
        cumulative(entries, from) <= draw < total_weight(entries),
    ensures
        k == first_exceeding(entries, draw, from),
        from <= k < entries.len(),
        cumulative(entries, k) <= draw < cumulative(entries, k + 1),
    decreases entries.len() - from,
{
    if draw < cumulative(entries, from + 1) {
        from
    } else {
        lemma_select_in_range(entries, draw, from + 1)
    }
}

/// The oracle answers alike for two instants of the same minute on one cell.
pub proof fn lemma_same_minute_same_outcome(
    entries: Seq<Entry>,
    cell: u64,
    t1: Timestamp,
    t2: Timestamp,
)
    requires
        t1.same_minute(t2),
    ensures
        spec_query(entries, Spacetime::spec_new(cell, t1)) == spec_query(
            entries,
            Spacetime::spec_new(cell, t2),
        ),
{
    lemma_same_minute_same_key(cell, t1, t2);
}

/// An outcome of weight zero is never selected.
pub proof fn lemma_zero_weight_unreachable(entries: Seq<Entry>, draw: int, i: int)
    requires
        0 <= i < entries.len(),
        entries[i].weight == 0,
        0 <= draw < total_weight(entries),
    ensures
        spec_select(entries, draw) != i,
{
    lemma_select_is_band(entries, draw, i);
}

/// An outcome of positive weight is selected by some draw below the total:
/// the cumulative weight before it.
pub proof fn lemma_positive_weight_reachable(entries: Seq<Entry>, i: int)
    requires
        0 <= i < entries.len(),
        entries[i].weight > 0,
    ensures
        0 <= cumulative(entries, i) < total_weight(entries),
        spec_select(entries, cumulative(entries, i)) == i,
{
    lemma_cumulative_monotone(entries, 0, i);
    lemma_cumulative_monotone(entries, i + 1, entries.len() as int);
    lemma_select_is_band(entries, cumulative(entries, i), i);
}

/// Making the last entry heavier moves no draw out of its band: a draw that
/// selected it before selects it after, and every other band stays where it
/// was.
pub proof fn lemma_heavier_last_keeps_selection(
    lighter: Seq<Entry>,
    heavier: Seq<Entry>,
    draw: int,
)
    requires
        lighter.len() > 0,
        heavier.len() == lighter.len(),
        forall|j: int| 0 <= j < lighter.len() - 1 ==> lighter[j] == heavier[j],
        lighter.last().weight <= heavier.last().weight,
        0 <= draw < total_weight(lighter),
    ensures
        total_weight(lighter) <= total_weight(heavier),
        spec_select(heavier, draw) == spec_select(lighter, draw),
{
    let n = lighter.len() as int;
    lemma_cumulative_agree(lighter, heavier, n - 1);
    let k = lemma_select_in_range(lighter, draw, 0);
    lemma_cumulative_agree(lighter, heavier, k);
    if k < n - 1 {
        lemma_cumulative_agree(lighter, heavier, k + 1);
    }
    lemma_first_exceeding_band(heavier, draw, 0, k);
}

/// Lists that agree on their first `n` entries agree on the sum of those
/// weights.
pub proof fn lemma_cumulative_agree(a: Seq<Entry>, b: Seq<Entry>, n: int)
    requires
        0 <= n <= a.len(),
        n <= b.len(),
        forall|j: int| 0 <= j < n ==> a[j] == b[j],
    ensures
        cumulative(a, n) == cumulative(b, n),
    decreases n,
{
    if n > 0 {
        lemma_cumulative_agree(a, b, n - 1);
    }
}

/// How many of `keys` the oracle leaves without a creature under `entries`.
pub open spec fn absent_count(entries: Seq<Entry>, keys: Seq<Spacetime>) -> nat
    decreases keys.len(),
{
    if keys.len() == 0 {
        0
    } else {
        let rest = absent_count(entries, keys.drop_last());
        if spec_query(entries, keys.last()) == Outcome::Absent {
            rest + 1
        } else {
            rest
        }
    }
}

/// The draw of `st` lies below each table's total weight and is no smaller
/// under `heavier` than under `lighter`.
pub open spec fn draw_does_not_fall(lighter: Seq<Entry>, heavier: Seq<Entry>, st: Spacetime) -> bool {
    &&& 0 <= spec_draw(lighter, st) < total_weight(lighter)
    &&& spec_draw(lighter, st) <= spec_draw(heavier, st) < total_weight(heavier)
}

/// Two tables whose last entry is the absence of a creature and whose other
/// entries are the same creatures with the same weights; the absence weighs
/// no less in `heavier`.
pub open spec fn only_absence_heavier(lighter: Seq<Entry>, heavier: Seq<Entry>) -> bool {
    &&& lighter.len() > 0
    &&& heavier.len() == lighter.len()
    &&& forall|j: int|
        0 <= j < lighter.len() - 1 ==> lighter[j] == heavier[j] && (#[trigger] lighter[j]).outcome
            != Outcome::Absent
    &&& lighter.last().outcome == Outcome::Absent
    &&& heavier.last().outcome == Outcome::Absent
    &&& lighter.last().weight <= heavier.last().weight
}

/// Over any keys whose draw does not fall when the absence grows heavier, at
/// least as many are left without a creature under the heavier absence as
/// under the lighter one.
pub proof fn lemma_heavier_absence_no_rarer(
    lighter: Seq<Entry>,
    heavier: Seq<Entry>,
    keys: Seq<Spacetime>,
)
    requires
        only_absence_heavier(lighter, heavier),
        forall|i: int|
            0 <= i < keys.len() ==> draw_does_not_fall(lighter, heavier, #[trigger] keys[i]),
    ensures
        absent_count(lighter, keys) <= absent_count(heavier, keys),
    decreases keys.len(),
{
    if keys.len() > 0 {
        let rest = keys.drop_last();
        assert forall|i: int| 0 <= i < rest.len() implies draw_does_not_fall(
            lighter,
            heavier,
            #[trigger] rest[i],
        ) by {
            assert(rest[i] == keys[i]);
        }
        lemma_heavier_absence_no_rarer(lighter, heavier, rest);
        let st = keys.last();
        assert(st == keys[keys.len() - 1]);
        assert(draw_does_not_fall(lighter, heavier, st));
        if spec_query(lighter, st) == Outcome::Absent {
            let n = lighter.len() as int;
            let k = lemma_select_in_range(lighter, spec_draw(lighter, st), 0);
            assert(lighter[k].outcome == Outcome::Absent);
            assert(k == n - 1);
            lemma_cumulative_agree(lighter, heavier, n - 1);
            lemma_first_exceeding_band(heavier, spec_draw(heavier, st), 0, n - 1);
        }
    }
}

/// With the other weights fixed at a sum of `others`, a heavier last entry
/// owns no smaller share of the draws.
pub proof fn lemma_heavier_share(others: nat, lighter: nat, heavier: nat)
    requires
        lighter <= heavier,
    ensures
        lighter * (others + heavier) <= heavier * (others + lighter),
{
    assert(lighter * (others + heavier) <= heavier * (others + lighter)) by (nonlinear_arith)
        requires
            lighter <= heavier,
    ;
}

} // verus!
