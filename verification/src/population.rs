//! Population generation: how many passengers appear over time, where they
//! appear, who they are and where they go.
//!
//! Probabilities are in millionths, weights in grams, areas in square
//! centimetres and times in milliseconds.
use vstd::prelude::*;
use crate::entity::{Entity, EntityView};
use crate::human::{Gender, Human, HumanGroup, HumanView};
use crate::random::random_in_range;

verus! {

/// One in a million: probabilities and passenger counts are kept in
/// millionths.
pub const MILLION: u64 = 1000000;

/// The kinds of passengers the generator creates.
#[derive(Debug, Clone, Copy, PartialEq, Eq, Structural)]
pub enum EntityType {
    Human,
    HumanGroup,
}

/// The age group by which commuting probabilities are tabulated.
pub open spec fn age_group(age: nat) -> Seq<char> {
    if 15 <= age <= 24 {
        "15-24"@
    } else if 25 <= age <= 54 {
        "25-54"@
    } else {
        "55+"@
    }
}

/// The commuting period of an hour of the day: morning, midday or evening.
pub open spec fn commute_slot(time: nat) -> Option<int> {
    if 6 <= time <= 9 {
        Some(0)
    } else if 11 <= time <= 14 {
        Some(1)
    } else if 16 <= time <= 19 {
        Some(2)
    } else {
        None
    }
}

/// Index of the first entry of `entries`, among the first `n`, whose key is `key`.
pub open spec fn find_key<K, V>(entries: Seq<(K, V)>, key: K, n: int) -> Option<int>
    decreases n,
{
    if n <= 0 {
        None
    } else {
        match find_key(entries, key, n - 1) {
            Some(i) => Some(i),
            None => if entries[n - 1].0 == key {
                Some(n - 1)
            } else {
                None
            },
        }
    }
}

/// The value of the first entry whose key is `key`.
pub open spec fn lookup<K, V>(entries: Seq<(K, V)>, key: K) -> Option<V> {
    match find_key(entries, key, entries.len() as int) {
        Some(i) => Some(entries[i].1),
        None => None,
    }
}

/// The first match among `n` entries is the first match among more entries.
pub proof fn lemma_find_key_stable<K, V>(e: Seq<(K, V)>, key: K, m: int, n: int)
    requires
        0 <= m <= n,
        find_key(e, key, m) is Some,
    ensures
        find_key(e, key, n) == find_key(e, key, m),
    decreases n - m,
{
    if m < n {
        lemma_find_key_stable(e, key, m, n - 1);
    }
}

/// A first match lies in range and has the key.
pub proof fn lemma_find_key_found<K, V>(e: Seq<(K, V)>, key: K, n: int)
    requires
        find_key(e, key, n) is Some,
    ensures
        0 <= find_key(e, key, n)->0 < n,
        e[find_key(e, key, n)->0].0 == key,
    decreases n,
{
    if n > 0 {
        if find_key(e, key, n - 1) is Some {
            lemma_find_key_found(e, key, n - 1);
        }
    }
}

/// Tables with the same keys in the same places find the same entries.
pub proof fn lemma_find_key_same_keys<K, V>(e0: Seq<(K, V)>, e1: Seq<(K, V)>, key: K, n: int)
    requires
        n <= e0.len(),
        n <= e1.len(),
        forall|j: int| 0 <= j < n ==> #[trigger] e0[j].0 == e1[j].0,
    ensures
        find_key(e1, key, n) == find_key(e0, key, n),
    decreases n,
{
    if n > 0 {
        lemma_find_key_same_keys(e0, e1, key, n - 1);
    }
}

/// No key among the first `n` entries is `key`.
pub proof fn lemma_find_key_none<K, V>(e: Seq<(K, V)>, key: K, n: int)
    requires
        0 <= n <= e.len(),
        forall|j: int| 0 <= j < n ==> #[trigger] e[j].0 != key,
    ensures
        find_key(e, key, n) is None,
    decreases n,
{
    if n > 0 {
        lemma_find_key_none(e, key, n - 1);
    }
}

/// Setting the value of `key` in a table: the first entry with that key
/// gets the value, or a new entry goes at the end.
pub open spec fn table_insert<K, V>(e: Seq<(K, V)>, key: K, value: V) -> Seq<(K, V)> {
    match find_key(e, key, e.len() as int) {
        Some(i) => e.update(i, (key, value)),
        None => e.push((key, value)),
    }
}

/// After setting the value of `key`, the table gives that value for `key`
/// and what it gave before for every other key.
pub proof fn lemma_table_insert<K, V>(e: Seq<(K, V)>, key: K, value: V, other: K)
    ensures
        lookup(table_insert(e, key, value), key) == Some(value),
        other != key ==> lookup(table_insert(e, key, value), other) == lookup(e, other),
{
    let n = e.len() as int;
    let e1 = table_insert(e, key, value);
    match find_key(e, key, n) {
        Some(i) => {
            lemma_find_key_found(e, key, n);
            assert forall|j: int| 0 <= j < n implies #[trigger] e[j].0 == e1[j].0 by {}
            lemma_find_key_same_keys(e, e1, key, n);
            lemma_find_key_same_keys(e, e1, other, n);
            if find_key(e, other, n) is Some {
                lemma_find_key_found(e, other, n);
            }
        },
        None => {
            assert forall|j: int| 0 <= j < n implies #[trigger] e[j].0 == e1[j].0 by {}
            lemma_find_key_same_keys(e, e1, key, n);
            lemma_find_key_same_keys(e, e1, other, n);
            if find_key(e, other, n) is Some {
                lemma_find_key_found(e, other, n);
            }
        },
    }
}

/// Looks up `key` among the first `n` entries of a table held in `entries`,
/// giving the index of the first match.
proof fn lemma_scan_found<K, V>(e: Seq<(K, V)>, key: K, i: int, n: int)
    requires
        0 <= i < n <= e.len(),
        e[i].0 == key,
        forall|j: int| 0 <= j < i ==> #[trigger] e[j].0 != key,
    ensures
        find_key(e, key, n) == Some(i),
{
    lemma_find_key_none(e, key, i);
    assert(find_key(e, key, i + 1) == Some(i));
    lemma_find_key_stable(e, key, i + 1, n);
}

/// Commuting probabilities by age group: for each group the probabilities,
/// in millionths, that a person of that age uses the elevator in the
/// morning, at midday and in the evening.
pub struct CommuteByAge {
    probabilities: Vec<(String, [u32; 3])>,
}

impl CommuteByAge {
    /// The table as pairs of age group and probabilities.
    pub closed spec fn entries(&self) -> Seq<(Seq<char>, Seq<u32>)> {
        self.probabilities@.map_values(|p: (String, [u32; 3])| (p.0@, p.1@))
    }

    /// An empty table.
    pub fn new() -> (c: Self)
        ensures
            c.entries() == Seq::<(Seq<char>, Seq<u32>)>::empty(),
    {
        let c = CommuteByAge { probabilities: Vec::new() };
        assert(c.entries() =~= Seq::<(Seq<char>, Seq<u32>)>::empty());
        c
    }

    /// Sets the probabilities of an age group, replacing earlier ones.
    pub fn insert(&mut self, age_group: String, probabilities: [u32; 3])
        ensures
            final(self).entries() == table_insert(
                old(self).entries(),
                age_group@,
                probabilities@,
            ),
    {
        let ghost e0 = self.entries();
        let ghost key = age_group@;
        let n = self.probabilities.len();
        let mut found: Option<usize> = None;
        let mut i: usize = 0;
        while i < n
            invariant_except_break
                n == self.probabilities@.len(),
                n == e0.len(),
                0 <= i <= n,
                self.entries() == e0,
                key == age_group@,
                found is None,
                forall|j: int| 0 <= j < i ==> #[trigger] e0[j].0 != key,
                find_key(e0, key, i as int) is None,
            ensures
                self.entries() == e0,
                n == e0.len(),
                found matches Some(j) ==> j < n && find_key(e0, key, n as int) == Some(j as int),
                found is None ==> find_key(e0, key, n as int) is None,
            decreases n - i,
        {
            if self.probabilities[i].0 == age_group {
                proof {
                    lemma_scan_found(e0, key, i as int, n as int);
                }
                found = Some(i);
                break;
            }
            i = i + 1;
        }
        match found {
            Some(j) => {
                self.probabilities.set(j, (age_group, probabilities));
                assert(self.entries() =~= e0.update(j as int, (key, probabilities@)));
            },
            None => {
                self.probabilities.push((age_group, probabilities));
                assert(self.entries() =~= e0.push((key, probabilities@)));
            },
        }
    }

    /// The probability, in millionths, that a person of `age` commutes by
    /// elevator at hour `time`: zero outside the commuting periods and for an
    /// age group without entry.
    pub fn get_probability(&self, age: u8, time: u32) -> (r: u32)
        ensures
            r == commute_probability(self.entries(), age as nat, time as nat),
    {
        let age_group = if 15 <= age && age <= 24 {
            "15-24".to_owned()
        } else if 25 <= age && age <= 54 {
            "25-54".to_owned()
        } else {
            "55+".to_owned()
        };
        let slot: usize;
        if 6 <= time && time <= 9 {
            slot = 0;
        } else if 11 <= time && time <= 14 {
            slot = 1;
        } else if 16 <= time && time <= 19 {
            slot = 2;
        } else {
            return 0;
        }
        let ghost e = self.entries();
        let n = self.probabilities.len();
        let mut i: usize = 0;
        while i < n
            invariant
                n == self.probabilities@.len(),
                n == e.len(),
                e == self.entries(),
                0 <= i <= n,
                age_group@ == crate::population::age_group(age as nat),
                slot < 3,
                commute_slot(time as nat) == Some(slot as int),
                forall|j: int| 0 <= j < i ==> #[trigger] e[j].0 != age_group@,
            decreases n - i,
        {
            if self.probabilities[i].0 == age_group {
                proof {
                    lemma_scan_found(e, age_group@, i as int, n as int);
                }
                return self.probabilities[i].1[slot];
            }
            i = i + 1;
        }
        proof {
            lemma_find_key_none(e, age_group@, n as int);
        }
        0
    }
}

/// The probability, in millionths, that a person of `age` commutes by
/// elevator at hour `time`, by the table `entries`.
pub open spec fn commute_probability(
    entries: Seq<(Seq<char>, Seq<u32>)>,
    age: nat,
    time: nat,
) -> nat {
    match commute_slot(time) {
        None => 0,
        Some(k) => match lookup(entries, age_group(age)) {
            Some(p) => p[k] as nat,
            None => 0,
        },
    }
}

/// The weight band of a draw in basis points: the draw picks one of nine
/// percentiles of the weight distribution.
pub open spec fn percentile_band(draw: nat) -> int {
    if draw < 500 {
        0
    } else if draw < 1000 {
        1
    } else if draw < 1500 {
        2
    } else if draw < 2500 {
        3
    } else if draw < 5000 {
        4
    } else if draw < 7500 {
        5
    } else if draw < 8500 {
        6
    } else if draw < 9000 {
        7
    } else {
        8
    }
}

/// The index of the first entry among the first `n` of `ranges` whose age
/// range contains `age`.
pub open spec fn first_range(ranges: Seq<((u32, u32), Seq<u32>)>, age: nat, n: int) -> Option<int>
    decreases n,
{
    if n <= 0 {
        None
    } else {
        match first_range(ranges, age, n - 1) {
            Some(i) => Some(i),
            None => if ranges[n - 1].0.0 <= age <= ranges[n - 1].0.1 {
                Some(n - 1)
            } else {
                None
            },
        }
    }
}

proof fn lemma_first_range_stable(e: Seq<((u32, u32), Seq<u32>)>, age: nat, m: int, n: int)
    requires
        0 <= m <= n,
        first_range(e, age, m) is Some,
    ensures
        first_range(e, age, n) == first_range(e, age, m),
    decreases n - m,
{
    if m < n {
        lemma_first_range_stable(e, age, m, n - 1);
    }
}

proof fn lemma_first_range_in(e: Seq<((u32, u32), Seq<u32>)>, age: nat, n: int)
    requires
        n <= e.len(),
        first_range(e, age, n) is Some,
    ensures
        0 <= first_range(e, age, n)->0 < n,
    decreases n,
{
    if n > 0 && first_range(e, age, n - 1) is Some {
        lemma_first_range_in(e, age, n - 1);
    }
}

/// Whether `weight` is one of the nine percentiles of the first range of
/// `ranges` that contains `age`.
pub open spec fn weight_from(ranges: Seq<((u32, u32), Seq<u32>)>, age: nat, weight: nat) -> bool {
    match first_range(ranges, age, ranges.len() as int) {
        Some(i) => exists|k: int| 0 <= k < 9 && ranges[i].1[k] == weight,
        None => false,
    }
}

/// Weights by age range: for each range of ages the 5th, 10th, 15th, 25th,
/// 50th, 75th, 85th, 90th and 95th weight percentiles, in grams.
pub struct WeightDistribution {
    distributions: Vec<((u32, u32), [u32; 9])>,
}

impl WeightDistribution {
    pub closed spec fn entries(&self) -> Seq<((u32, u32), Seq<u32>)> {
        self.distributions@.map_values(|p: ((u32, u32), [u32; 9])| (p.0, p.1@))
    }

    /// Whether some age range contains `age`.
    pub open spec fn covers(&self, age: nat) -> bool {
        first_range(self.entries(), age, self.entries().len() as int) is Some
    }

    pub fn new() -> (w: Self)
        ensures
            w.entries() == Seq::<((u32, u32), Seq<u32>)>::empty(),
    {
        let w = WeightDistribution { distributions: Vec::new() };
        assert(w.entries() =~= Seq::<((u32, u32), Seq<u32>)>::empty());
        w
    }

    /// Sets the percentiles of an age range, replacing earlier ones.
    pub fn insert(&mut self, age_range: (u32, u32), percentiles: [u32; 9])
        ensures
            final(self).entries() == table_insert(old(self).entries(), age_range, percentiles@),
    {
        let ghost e0 = self.entries();
        let n = self.distributions.len();
        let mut found: Option<usize> = None;
        let mut i: usize = 0;
        while i < n
            invariant_except_break
                n == self.distributions@.len(),
                n == e0.len(),
                0 <= i <= n,
                self.entries() == e0,
                found is None,
                forall|j: int| 0 <= j < i ==> #[trigger] e0[j].0 != age_range,
                find_key(e0, age_range, i as int) is None,
            ensures
                self.entries() == e0,
                n == e0.len(),
                found matches Some(j) ==> j < n && find_key(e0, age_range, n as int) == Some(j as int),
                found is None ==> find_key(e0, age_range, n as int) is None,
            decreases n - i,
        {
            let (lo, hi) = self.distributions[i].0;
            if lo == age_range.0 && hi == age_range.1 {
                proof {
                    lemma_scan_found(e0, age_range, i as int, n as int);
                }
                found = Some(i);
                break;
            }
            i = i + 1;
        }
        match found {
            Some(j) => {
                self.distributions.set(j, (age_range, percentiles));
                assert(self.entries() =~= e0.update(j as int, (age_range, percentiles@)));
            },
            None => {
                self.distributions.push((age_range, percentiles));
                assert(self.entries() =~= e0.push((age_range, percentiles@)));
            },
        }
    }

    /// Index of the first age range that contains `age`.
    fn find_percentiles(&self, age: u32) -> (r: Option<usize>)
        ensures
            r matches Some(i) ==> first_range(
                self.entries(),
                age as nat,
                self.entries().len() as int,
            ) == Some(i as int) && i < self.entries().len(),
            r is None ==> first_range(self.entries(), age as nat, self.entries().len() as int)
                is None,
    {
        let ghost e = self.entries();
        let n = self.distributions.len();
        let mut i: usize = 0;
        while i < n
            invariant
                n == self.distributions@.len(),
                n == e.len(),
                e == self.entries(),
                0 <= i <= n,
                first_range(e, age as nat, i as int) is None,
            decreases n - i,
        {
            let (lo, hi) = self.distributions[i].0;
            if lo <= age && age <= hi {
                proof {
                    assert(first_range(e, age as nat, i + 1) == Some(i as int));
                    lemma_first_range_stable(e, age as nat, i + 1, n as int);
                }
                return Some(i);
            }
            i = i + 1;
        }
        None
    }

    /// Whether some age range contains `age`.
    pub fn covers_age(&self, age: u32) -> (r: bool)
        ensures
            r == self.covers(age as nat),
    {
        self.find_percentiles(age).is_some()
    }

    /// The weight, in grams, that a draw in basis points picks from the
    /// percentiles of the first range that contains `age`, or an error when
    /// no range contains `age`.
    pub fn weight_for_draw(&self, age: u32, draw: u64) -> (r: Result<u32, &'static str>)
        requires
            draw < 10000,
        ensures
            match first_range(self.entries(), age as nat, self.entries().len() as int) {
                None => r is Err && r->Err_0@ == "No matching age range found"@,
                Some(i) => r == Ok::<u32, &'static str>(
                    self.entries()[i].1[percentile_band(draw as nat)],
                ),
            },
    {
        let found = self.find_percentiles(age);
        let i = match found {
            Some(i) => i,
            None => {
                return Err("No matching age range found");
            },
        };
        let band: usize = if draw < 500 {
            0
        } else if draw < 1000 {
            1
        } else if draw < 1500 {
            2
        } else if draw < 2500 {
            3
        } else if draw < 5000 {
            4
        } else if draw < 7500 {
            5
        } else if draw < 8500 {
            6
        } else if draw < 9000 {
            7
        } else {
            8
        };
        Ok(self.distributions[i].1[band])
    }

    /// A random weight, in grams, for a person of `age`: one of the nine
    /// percentiles of the first range that contains `age`, each picked with
    /// the probability of its band; an error when no range contains `age`.
    pub fn randomly_generate(&self, age: u32) -> (r: Result<u32, &'static str>)
        ensures
            self.covers(age as nat) <==> r is Ok,
            r matches Err(m) ==> m@ == "No matching age range found"@,
            r matches Ok(w) ==> weight_from(self.entries(), age as nat, w as nat),
    {
        let draw = random_in_range(0, 10000);
        let r = self.weight_for_draw(age, draw);
        proof {
            if let Some(i) = first_range(self.entries(), age as nat, self.entries().len() as int) {
                let k = percentile_band(draw as nat);
                assert(0 <= k < 9);
                assert(self.entries()[i].1[k] == r->Ok_0);
            }
        }
        r
    }
}

} // verus!
