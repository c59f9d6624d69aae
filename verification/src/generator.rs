//! The population generator: passengers appear at a rate that depends on
//! the hour, on random floors, alone or in pairs, with random ages, weights
//! and destinations.
use vstd::prelude::*;
use crate::entity::{Entity, EntityView};
use crate::human::{Gender, Human, HumanGroup, HumanView};
use crate::population::{
    CommuteByAge,
    EntityType,
    MILLION,
    WeightDistribution,
    commute_probability,
    find_key,
    first_range,
    lemma_find_key_none,
    lookup,
    percentile_band,
    weight_from,
};
use crate::random::random_in_range;

verus! {

/// Floor area of a person generated alone, in square centimetres.
pub const PERSON_AREA_CM2: u32 = 5000;

/// Floor area of each member of a generated group, in square centimetres.
pub const GROUP_MEMBER_AREA_CM2: u32 = 100000;

/// Youngest age of a generated person.
pub const MIN_AGE: u64 = 21;

/// One more than the oldest age of a generated person.
pub const AGE_LIMIT: u64 = 80;

/// Adds without going past `u32::MAX`.
pub open spec fn saturating_u32(a: nat) -> nat {
    if a > u32::MAX {
        u32::MAX as nat
    } else {
        a
    }
}

/// The generator as a mathematical value.
pub struct GeneratorView {
    /// Average passengers per hour, in millionths, for each hour of day.
    pub avg_passenger_by_time: Seq<(u32, u64)>,
    pub floor_count: nat,
    pub female_weights: Seq<((u32, u32), Seq<u32>)>,
    pub male_weights: Seq<((u32, u32), Seq<u32>)>,
    pub commute: Seq<(Seq<char>, Seq<u32>)>,
    /// Passengers owed but not yet generated, in millionths.
    pub accumulated: nat,
    /// The part of the owed passengers too small for a millionth, in
    /// millionths times the hour length in milliseconds.
    pub remainder: nat,
    pub total_entity_generated: nat,
    pub total_human_generated: nat,
}

impl GeneratorView {
    /// The weight table of a gender.
    pub open spec fn weights(self, gender: Gender) -> Seq<((u32, u32), Seq<u32>)> {
        match gender {
            Gender::Male => self.male_weights,
            Gender::Female => self.female_weights,
        }
    }

    /// Both weight tables cover every age a generated person can have.
    pub open spec fn covers_ages(self) -> bool {
        forall|age: nat|
            MIN_AGE <= age < AGE_LIMIT ==> {
                &&& weight_from_possible(#[trigger] self.male_weights, age)
                &&& weight_from_possible(self.female_weights, age)
            }
    }

    /// Passengers can be generated: there are two floors to travel between
    /// and a weight for every age.
    pub open spec fn can_generate(self) -> bool {
        self.floor_count >= 2 && self.covers_ages()
    }

    /// Average passengers per hour, in millionths, at hour `time`.
    pub open spec fn avg_at(self, time: nat) -> nat {
        match lookup(self.avg_passenger_by_time, time as u32) {
            Some(a) => if time <= u32::MAX {
                a as nat
            } else {
                0
            },
            None => 0,
        }
    }

    /// Passengers owed after `delta_time` more milliseconds at hour `time`,
    /// before dividing by the hour length: what the rate adds and what was
    /// left over.
    pub open spec fn owed_after(self, time: nat, delta_time: nat) -> nat {
        self.avg_at(time) * delta_time + self.remainder
    }

    /// What is left over after `delta_time` more milliseconds at hour
    /// `time` of an hour of `hour_length` milliseconds.
    pub open spec fn remainder_after(self, time: nat, delta_time: nat, hour_length: nat) -> nat {
        self.owed_after(time, delta_time) % hour_length
    }

    /// Passengers owed, in millionths, after `delta_time` more milliseconds
    /// at hour `time` of an hour of `hour_length` milliseconds; the part
    /// below a millionth is carried to the next time.
    pub open spec fn accumulated_after(self, time: nat, delta_time: nat, hour_length: nat) -> nat {
        let increment = self.owed_after(time, delta_time) / hour_length;
        if self.accumulated + increment > u64::MAX {
            u64::MAX as nat
        } else {
            self.accumulated + increment
        }
    }

    /// A generated person: of an allowed age, with a weight from the table
    /// of their gender and age, going elsewhere than `floor`, not waited and
    /// not boarded yet.
    pub open spec fn person_ok(self, h: HumanView, floor: nat, area: nat) -> bool {
        &&& MIN_AGE <= h.age < AGE_LIMIT
        &&& weight_from(self.weights(h.gender), h.age, h.weight)
        &&& h.area == area
        &&& h.destination < self.floor_count
        &&& h.destination != floor
        &&& h.queue_wait == 0
        &&& h.transport_wait == 0
        &&& !h.boarded
    }

    /// A generated passenger on `floor`: a person alone, or one or two
    /// people of one age who travel to one destination.
    pub open spec fn entity_ok(self, floor: nat, e: EntityView) -> bool {
        &&& floor < self.floor_count
        &&& match e {
            EntityView::Person(h) => self.person_ok(h, floor, PERSON_AREA_CM2 as nat),
            EntityView::Group(s) => {
                &&& 1 <= s.len() <= 2
                &&& forall|m: int|
                    0 <= m < s.len() ==> {
                        &&& self.person_ok(#[trigger] s[m], floor, GROUP_MEMBER_AREA_CM2 as nat)
                        &&& s[m].age == s[0].age
                        &&& s[m].destination == s[0].destination
                    }
            },
        }
    }
}

/// The random numbers that decide one attempt to generate passengers.
#[derive(Clone, Copy)]
pub struct AttemptDraws {
    /// The floor where the passengers appear, from `0..floor_count`.
    pub floor: usize,
    /// From `0..1000`: below 700 a single person appears, otherwise a pair.
    pub kind: u64,
    /// From `0..floor_count - 1`: which of the other floors is the
    /// destination, counted from the ground floor.
    pub destination: usize,
    /// The age of the person or pair, from `MIN_AGE..AGE_LIMIT`.
    pub age: u8,
    /// For each person, from `0..2`: `0` is male, `1` female.
    pub genders: [u64; 2],
    /// For each person, in basis points from `0..10000`: picks the weight
    /// percentile.
    pub weights: [u64; 2],
    /// For each person, in millionths from `0..MILLION`: the person commutes
    /// by elevator when it falls below their commuting probability.
    pub commutes: [u64; 2],
}

/// The view of a passenger that may be missing.
pub open spec fn option_view(r: Option<Entity>) -> Option<EntityView> {
    match r {
        Some(e) => Some(e@),
        None => None,
    }
}

/// Every draw of `d` lies in its range for a building of `floor_count`
/// floors.
pub open spec fn draws_ok(d: AttemptDraws, floor_count: nat) -> bool {
    &&& d.floor < floor_count
    &&& d.kind < 1000
    &&& d.destination + 1 < floor_count
    &&& MIN_AGE <= d.age < AGE_LIMIT
    &&& forall|i: int|
        0 <= i < 2 ==> {
            &&& #[trigger] d.genders@[i] < 2
            &&& d.weights@[i] < 10000
            &&& d.commutes@[i] < MILLION
        }
}

pub open spec fn gender_of(draw: u64) -> Gender {
    if draw == 0 {
        Gender::Male
    } else {
        Gender::Female
    }
}

/// The destination that `draw` picks among the floors other than `floor`.
pub open spec fn destination_of(floor: nat, draw: nat) -> nat {
    if draw < floor {
        draw
    } else {
        draw + 1
    }
}

/// The weight that a draw in basis points picks from the percentiles of the
/// first range of `ranges` that contains `age`.
pub open spec fn weight_at(ranges: Seq<((u32, u32), Seq<u32>)>, age: nat, draw: nat) -> nat {
    match first_range(ranges, age, ranges.len() as int) {
        Some(i) => ranges[i].1[percentile_band(draw)] as nat,
        None => 0,
    }
}

/// Number of attempts made when `acc` millionths of passengers are owed:
/// one per whole passenger, at most `u32::MAX`.
pub open spec fn attempts_for(acc: nat) -> nat {
    if acc / (MILLION as nat) > u32::MAX {
        u32::MAX as nat
    } else {
        acc / (MILLION as nat)
    }
}

impl GeneratorView {
    /// Person `i` of an attempt with draws `d`, with floor area `area`.
    pub open spec fn drawn(self, d: AttemptDraws, i: int, area: nat) -> HumanView {
        let gender = gender_of(d.genders@[i]);
        HumanView {
            weight: weight_at(self.weights(gender), d.age as nat, d.weights@[i] as nat),
            age: d.age as nat,
            area,
            gender,
            destination: destination_of(d.floor as nat, d.destination as nat),
            queue_wait: 0,
            transport_wait: 0,
            boarded: false,
        }
    }

    /// Whether person `i` of an attempt with draws `d` commutes by elevator
    /// at hour `time`.
    pub open spec fn commutes(self, d: AttemptDraws, i: int, time: nat) -> bool {
        d.commutes@[i] < commute_probability(self.commute, d.age as nat, time)
    }

    /// The single person of an attempt, if they commute.
    pub open spec fn drawn_person(self, d: AttemptDraws, time: nat) -> Option<EntityView> {
        if self.commutes(d, 0, time) {
            Some(EntityView::Person(self.drawn(d, 0, PERSON_AREA_CM2 as nat)))
        } else {
            None
        }
    }

    /// Those of the pair of an attempt who commute, in order.
    pub open spec fn drawn_members(self, d: AttemptDraws, time: nat) -> Seq<HumanView> {
        let first = if self.commutes(d, 0, time) {
            seq![self.drawn(d, 0, GROUP_MEMBER_AREA_CM2 as nat)]
        } else {
            Seq::empty()
        };
        if self.commutes(d, 1, time) {
            first.push(self.drawn(d, 1, GROUP_MEMBER_AREA_CM2 as nat))
        } else {
            first
        }
    }

    /// The pair of an attempt, if one of them commutes.
    pub open spec fn drawn_pair(self, d: AttemptDraws, time: nat) -> Option<EntityView> {
        let members = self.drawn_members(d, time);
        if members.len() == 0 {
            None
        } else {
            Some(EntityView::Group(members))
        }
    }

    /// The passenger that an attempt with draws `d` at hour `time` yields: a
    /// single person when the kind draw is below 700, otherwise a pair.
    pub open spec fn attempt_outcome(self, d: AttemptDraws, time: nat) -> Option<EntityView> {
        if d.kind < 700 {
            self.drawn_person(d, time)
        } else {
            self.drawn_pair(d, time)
        }
    }

    /// The passengers, with their floors, that attempts with draws `ds` at
    /// hour `time` yield, in order.
    pub open spec fn outcomes(self, ds: Seq<AttemptDraws>, time: nat) -> Seq<(usize, EntityView)>
        decreases ds.len(),
    {
        if ds.len() == 0 {
            Seq::empty()
        } else {
            let before = self.outcomes(ds.drop_last(), time);
            match self.attempt_outcome(ds.last(), time) {
                Some(e) => before.push((ds.last().floor, e)),
                None => before,
            }
        }
    }
}

/// Some age range of `ranges` contains `age`.
pub open spec fn weight_from_possible(ranges: Seq<((u32, u32), Seq<u32>)>, age: nat) -> bool {
    crate::population::first_range(ranges, age, ranges.len() as int) is Some
}

/// The generated passengers with their floors, as mathematical values.
pub open spec fn gen_views(s: Seq<(usize, Entity)>) -> Seq<(usize, EntityView)> {
    s.map_values(|p: (usize, Entity)| (p.0, p.1@))
}

/// Number of people in the groups among `s`.
pub open spec fn group_people(s: Seq<(usize, EntityView)>) -> nat
    decreases s.len(),
{
    if s.len() == 0 {
        0
    } else {
        group_people(s.drop_last()) + match s.last().1 {
            EntityView::Group(g) => g.len(),
            EntityView::Person(_) => 0,
        }
    }
}

/// The tables a generator draws from.
pub struct PopulationTables {
    /// Average passengers per hour, in millionths, for each hour of day.
    pub avg_passenger_by_time: Vec<(u32, u64)>,
    pub commute_by_age: CommuteByAge,
    pub avg_female_weight: WeightDistribution,
    pub avg_male_weight: WeightDistribution,
}

pub struct PopulationGenerator {
    avg_passenger_by_time: Vec<(u32, u64)>,
    floor_count: usize,
    avg_female_weight: WeightDistribution,
    avg_male_weight: WeightDistribution,
    commute_by_age: CommuteByAge,
    accumulated_entity_probability: u64,
    accumulated_remainder: u64,
    total_entity_generated: u32,
    total_human_generated: u32,
}

impl View for PopulationGenerator {
    type V = GeneratorView;

    closed spec fn view(&self) -> GeneratorView {
        GeneratorView {
            avg_passenger_by_time: self.avg_passenger_by_time@,
            floor_count: self.floor_count as nat,
            female_weights: self.avg_female_weight.entries(),
            male_weights: self.avg_male_weight.entries(),
            commute: self.commute_by_age.entries(),
            accumulated: self.accumulated_entity_probability as nat,
            remainder: self.accumulated_remainder as nat,
            total_entity_generated: self.total_entity_generated as nat,
            total_human_generated: self.total_human_generated as nat,
        }
    }
}

impl PopulationGenerator {
    /// A generator for `floor_count` floors with the given passenger rates,
    /// commuting probabilities and weight tables; nothing owed or generated
    /// yet.
    pub fn new(
        floor_count: usize,
        avg_passenger_by_time: Vec<(u32, u64)>,
        commute_by_age: CommuteByAge,
        avg_female_weight: WeightDistribution,
        avg_male_weight: WeightDistribution,
    ) -> (g: Self)
        ensures
            g@ == (GeneratorView {
                avg_passenger_by_time: avg_passenger_by_time@,
                floor_count: floor_count as nat,
                female_weights: avg_female_weight.entries(),
                male_weights: avg_male_weight.entries(),
                commute: commute_by_age.entries(),
                accumulated: 0,
                remainder: 0,
                total_entity_generated: 0,
                total_human_generated: 0,
            }),
    {
        Self {
            avg_passenger_by_time,
            floor_count,
            avg_female_weight,
            avg_male_weight,
            commute_by_age,
            accumulated_entity_probability: 0,
            accumulated_remainder: 0,
            total_entity_generated: 0,
            total_human_generated: 0,
        }
    }

    pub fn get_human_generated(&self) -> (r: u32)
        ensures
            r == self@.total_human_generated,
    {
        self.total_human_generated
    }

    pub fn get_entity_generated(&self) -> (r: u32)
        ensures
            r == self@.total_entity_generated,
    {
        self.total_entity_generated
    }

    pub fn get_floor_count(&self) -> (r: usize)
        ensures
            r == self@.floor_count,
    {
        self.floor_count
    }

    /// Passengers owed but not yet generated, in millionths.
    pub fn get_accumulated(&self) -> (r: u64)
        ensures
            r == self@.accumulated,
    {
        self.accumulated_entity_probability
    }

    /// Average passengers per hour, in millionths, at hour `time`: the first
    /// entry for that hour, or none.
    fn avg_passengers_at(&self, time: u32) -> (r: u64)
        ensures
            r == self@.avg_at(time as nat),
    {
        let ghost e = self.avg_passenger_by_time@;
        let n = self.avg_passenger_by_time.len();
        let mut i: usize = 0;
        while i < n
            invariant
                n == e.len(),
                e == self.avg_passenger_by_time@,
                0 <= i <= n,
                forall|j: int| 0 <= j < i ==> #[trigger] e[j].0 != time,
            decreases n - i,
        {
            if self.avg_passenger_by_time[i].0 == time {
                proof {
                    crate::population::lemma_find_key_none(e, time, i as int);
                    assert(find_key(e, time, i + 1) == Some(i as int));
                    crate::population::lemma_find_key_stable(e, time, i + 1, n as int);
                }
                return self.avg_passenger_by_time[i].1;
            }
            i = i + 1;
        }
        proof {
            lemma_find_key_none(e, time, n as int);
        }
        0
    }

    /// Passengers owed, in millionths, after `delta_time` more milliseconds
    /// at hour `time` of an hour of `hour_length` milliseconds.
    pub fn accumulated_after(&self, time: u32, delta_time: u64, hour_length: u64) -> (r: u64)
        requires
            hour_length > 0,
        ensures
            r == self@.accumulated_after(time as nat, delta_time as nat, hour_length as nat),
    {
        self.owed(time, delta_time, hour_length).0
    }

    /// Passengers owed, in millionths, and what is left over, after
    /// `delta_time` more milliseconds at hour `time` of an hour of
    /// `hour_length` milliseconds.
    fn owed(&self, time: u32, delta_time: u64, hour_length: u64) -> (r: (u64, u64))
        requires
            hour_length > 0,
        ensures
            r.0 == self@.accumulated_after(time as nat, delta_time as nat, hour_length as nat),
            r.1 == self@.remainder_after(time as nat, delta_time as nat, hour_length as nat),
    {
        let avg_passengers = self.avg_passengers_at(time);
        let remainder = self.accumulated_remainder;
        proof {
            assert(avg_passengers * delta_time + remainder <= 0xffffffffffffffff0000000000000000nat) by (nonlinear_arith)
                requires
                    avg_passengers <= u64::MAX,
                    delta_time <= u64::MAX,
                    remainder <= u64::MAX,
            ;
        }
        let owed = avg_passengers as u128 * delta_time as u128 + remainder as u128;
        let increment = owed / hour_length as u128;
        let left = owed % hour_length as u128;
        proof {
            assert(increment <= owed) by (nonlinear_arith)
                requires
                    increment == owed / (hour_length as u128),
                    hour_length >= 1,
            ;
            assert(left < hour_length) by (nonlinear_arith)
                requires
                    left == owed % (hour_length as u128),
                    hour_length >= 1,
            ;
        }
        let total = self.accumulated_entity_probability as u128 + increment;
        let accumulated = if total > u64::MAX as u128 {
            u64::MAX
        } else {
            total as u64
        };
        (accumulated, left as u64)
    }

    /// Whether passengers can be generated: there are two floors to travel
    /// between and both weight tables cover every allowed age.
    pub fn can_generate(&self) -> (r: bool)
        ensures
            r == self@.can_generate(),
    {
        if self.floor_count < 2 {
            return false;
        }
        let mut age: u64 = MIN_AGE;
        while age < AGE_LIMIT
            invariant
                MIN_AGE <= age <= AGE_LIMIT,
                forall|a: nat|
                    MIN_AGE <= a < age ==> {
                        &&& weight_from_possible(#[trigger] self@.male_weights, a)
                        &&& weight_from_possible(self@.female_weights, a)
                    },
            decreases AGE_LIMIT - age,
        {
            if !self.avg_male_weight.covers_age(age as u32) || !self.avg_female_weight.covers_age(
                age as u32,
            ) {
                proof {
                    assert(!weight_from_possible(self@.male_weights, age as nat)
                        || !weight_from_possible(self@.female_weights, age as nat));
                    assert(!self@.covers_ages());
                }
                return false;
            }
            age = age + 1;
        }
        true
    }

    /// Random numbers for one attempt, each drawn uniformly from its range.
    fn draw_attempt(&self) -> (d: AttemptDraws)
        requires
            self@.floor_count >= 2,
        ensures
            draws_ok(d, self@.floor_count),
    {
        let floor = random_in_range(0, self.floor_count as u64) as usize;
        let kind = random_in_range(0, 1000);
        let destination = random_in_range(0, (self.floor_count - 1) as u64) as usize;
        let age = random_in_range(MIN_AGE, AGE_LIMIT) as u8;
        let genders = [random_in_range(0, 2), random_in_range(0, 2)];
        let weights = [random_in_range(0, 10000), random_in_range(0, 10000)];
        let commutes = [random_in_range(0, MILLION), random_in_range(0, MILLION)];
        AttemptDraws { floor, kind, destination, age, genders, weights, commutes }
    }

    /// Person `i` of an attempt, as the draws `d` make them, with the floor
    /// area `area`.
    fn drawn_human(&self, d: &AttemptDraws, i: usize, area: u32) -> (h: Human)
        requires
            self@.covers_ages(),
            draws_ok(*d, self@.floor_count),
            i < 2,
        ensures
            h@ == self@.drawn(*d, i as int, area as nat),
            self@.person_ok(h@, d.floor as nat, area as nat),
    {
        let gender = if d.genders[i] == 0 {
            Gender::Male
        } else {
            Gender::Female
        };
        assert(weight_from_possible(self@.male_weights, d.age as nat));
        let weight = match gender {
            Gender::Male => self.avg_male_weight.weight_for_draw(d.age as u32, d.weights[i]),
            Gender::Female => self.avg_female_weight.weight_for_draw(d.age as u32, d.weights[i]),
        };
        let weight = match weight {
            Ok(w) => w,
            Err(_) => {
                proof {
                    assert(false);
                }
                0
            },
        };
        proof {
            let ranges = self@.weights(gender);
            let j = first_range(ranges, d.age as nat, ranges.len() as int)->0;
            let k = percentile_band(d.weights@[i as int] as nat);
            assert(0 <= k < 9);
            assert(ranges[j].1[k] == weight);
        }
        let destination = if d.destination < d.floor {
            d.destination
        } else {
            d.destination + 1
        };
        Human::new(d.age, gender, weight, area, destination)
    }

    /// Whether person `i` of an attempt commutes by elevator at hour
    /// `time`: their draw falls below their commuting probability.
    fn will_use_elevator(&self, d: &AttemptDraws, i: usize, time: u32) -> (r: bool)
        requires
            i < 2,
        ensures
            r == self@.commutes(*d, i as int, time as nat),
    {
        let probability = self.commute_by_age.get_probability(d.age, time);
        d.commutes[i] < probability as u64
    }

    /// The single person of an attempt with draws `d` at hour `time`, if
    /// they commute by elevator.
    pub fn create_human(&self, d: &AttemptDraws, time: u32) -> (r: Option<Entity>)
        requires
            self@.can_generate(),
            draws_ok(*d, self@.floor_count),
        ensures
            option_view(r) == self@.drawn_person(*d, time as nat),
            r matches Some(e) ==> self@.entity_ok(d.floor as nat, e@),
    {
        if self.will_use_elevator(d, 0, time) {
            Some(Entity::Person(self.drawn_human(d, 0, PERSON_AREA_CM2)))
        } else {
            None
        }
    }

    /// The pair of an attempt with draws `d` at hour `time`: those of the two
    /// who commute by elevator travel together; counts every such person as
    /// generated.
    pub fn create_human_group(&mut self, d: &AttemptDraws, time: u32) -> (r: Option<Entity>)
        requires
            old(self)@.can_generate(),
            draws_ok(*d, old(self)@.floor_count),
        ensures
            option_view(r) == old(self)@.drawn_pair(*d, time as nat),
            r matches Some(e) ==> final(self)@.entity_ok(d.floor as nat, e@),
            final(self)@ == (GeneratorView {
                total_human_generated: saturating_u32(
                    old(self)@.total_human_generated + match r {
                        Some(e) => e@.people(),
                        None => 0,
                    },
                ),
                ..old(self)@
            }),
    {
        let ghost g0 = self@;
        let mut members: Vec<Human> = Vec::new();
        if self.will_use_elevator(d, 0, time) {
            self.total_human_generated = self.total_human_generated.saturating_add(1);
            members.push(self.drawn_human(d, 0, GROUP_MEMBER_AREA_CM2));
        }
        if self.will_use_elevator(d, 1, time) {
            self.total_human_generated = self.total_human_generated.saturating_add(1);
            members.push(self.drawn_human(d, 1, GROUP_MEMBER_AREA_CM2));
        }
        let ghost views = members@.map_values(|h: Human| h@);
        proof {
            assert(views =~= g0.drawn_members(*d, time as nat));
            assert forall|m: int| 0 <= m < views.len() implies {
                &&& g0.person_ok(#[trigger] views[m], d.floor as nat, GROUP_MEMBER_AREA_CM2 as nat)
                &&& views[m].age == views[0].age
                &&& views[m].destination == views[0].destination
            } by {
                if g0.commutes(*d, 0, time as nat) {
                    assert(views[0] == g0.drawn(*d, 0, GROUP_MEMBER_AREA_CM2 as nat));
                }
            }
        }
        if members.len() == 0 {
            None
        } else {
            let group = HumanGroup::new(members);
            assert(group@ == views);
            Some(Entity::Group(group))
        }
    }

    /// One attempt with the draws `d` at hour `time`: a single person when
    /// the kind draw is below 700, otherwise a pair; counts the members of
    /// a pair as generated.
    pub fn attempt(&mut self, d: &AttemptDraws, time: u32) -> (r: Option<Entity>)
        requires
            old(self)@.can_generate(),
            draws_ok(*d, old(self)@.floor_count),
        ensures
            option_view(r) == old(self)@.attempt_outcome(*d, time as nat),
            r matches Some(e) ==> old(self)@.entity_ok(d.floor as nat, e@),
            final(self)@ == (GeneratorView {
                total_human_generated: saturating_u32(
                    old(self)@.total_human_generated + match r {
                        Some(e) => match e@ {
                            EntityView::Group(g) => g.len(),
                            EntityView::Person(_) => 0,
                        },
                        None => 0,
                    },
                ),
                ..old(self)@
            }),
    {
        let entity_type = if d.kind < 700 {
            EntityType::Human
        } else {
            EntityType::HumanGroup
        };
        match entity_type {
            EntityType::Human => {
                let r = self.create_human(d, time);
                proof {
                    assert(saturating_u32(old(self)@.total_human_generated + 0)
                        == old(self)@.total_human_generated);
                }
                r
            },
            EntityType::HumanGroup => self.create_human_group(d, time),
        }
    }

    /// Generates the passengers that appear while `delta_time` more
    /// milliseconds pass at hour `time` of an hour of `hour_length`
    /// milliseconds: the owed passengers grow by the hour's rate, and once a
    /// whole passenger is owed, as many attempts are made as whole
    /// passengers are owed; each attempt picks a floor and, seven times in
    /// ten, a person, otherwise a pair.  Each passenger who decides to
    /// commute is returned with their floor and is no longer owed.
    pub fn generate(&mut self, time: u32, delta_time: u64, hour_length: u64) -> (r: Vec<
        (usize, Entity),
    >)
        requires
            hour_length > 0,
            old(self)@.can_generate() || old(self)@.accumulated_after(
                time as nat,
                delta_time as nat,
                hour_length as nat,
            ) < MILLION,
        ensures
            ({
                let acc = old(self)@.accumulated_after(
                    time as nat,
                    delta_time as nat,
                    hour_length as nat,
                );
                let gen = gen_views(r@);
                &&& acc < MILLION ==> r@.len() == 0
                &&& r@.len() * MILLION <= acc
                &&& r@.len() <= acc / (MILLION as nat)
                &&& final(self)@ == (GeneratorView {
                    accumulated: (acc - r@.len() * MILLION) as nat,
                    remainder: old(self)@.remainder_after(
                        time as nat,
                        delta_time as nat,
                        hour_length as nat,
                    ),
                    total_entity_generated: saturating_u32(
                        old(self)@.total_entity_generated + r@.len(),
                    ),
                    total_human_generated: saturating_u32(
                        old(self)@.total_human_generated + group_people(gen),
                    ),
                    ..old(self)@
                })
                &&& forall|i: int|
                    0 <= i < gen.len() ==> old(self)@.entity_ok(
                        (#[trigger] gen[i]).0 as nat,
                        gen[i].1,
                    )
                &&& exists|ds: Seq<AttemptDraws>|
                    {
                        &&& ds.len() == (if acc < MILLION { 0 } else { attempts_for(acc) })
                        &&& forall|i: int|
                            0 <= i < ds.len() ==> draws_ok(#[trigger] ds[i], old(self)@.floor_count)
                        &&& gen == old(self)@.outcomes(ds, time as nat)
                    }
            }),
    {
        let ghost g0 = self@;
        let (accumulated, remainder) = self.owed(time, delta_time, hour_length);
        self.accumulated_entity_probability = accumulated;
        self.accumulated_remainder = remainder;
        let ghost acc = self.accumulated_entity_probability as nat;
        assert(acc == g0.accumulated_after(time as nat, delta_time as nat, hour_length as nat));
        let mut generated_entities: Vec<(usize, Entity)> = Vec::new();
        if self.accumulated_entity_probability < MILLION {
            proof {
                assert(gen_views(generated_entities@) =~= Seq::<(usize, EntityView)>::empty());
                assert(gen_views(generated_entities@) =~= g0.outcomes(Seq::empty(), time as nat));
            }
            return generated_entities;
        }
        let whole = self.accumulated_entity_probability / MILLION;
        let attempts: u32 = if whole > u32::MAX as u64 {
            u32::MAX
        } else {
            whole as u32
        };
        let mut k: u32 = 0;
        let ghost mut ds: Seq<AttemptDraws> = Seq::empty();
        assert(gen_views(generated_entities@) =~= g0.outcomes(ds, time as nat));
        while k < attempts
            invariant
                0 <= k <= attempts,
                attempts as nat <= acc / (MILLION as nat),
                generated_entities@.len() <= k,
                g0.can_generate(),
                self@ == (GeneratorView {
                    accumulated: (acc - generated_entities@.len() * MILLION) as nat,
                    remainder: g0.remainder_after(time as nat, delta_time as nat, hour_length as nat),
                    total_entity_generated: saturating_u32(
                        g0.total_entity_generated + generated_entities@.len(),
                    ),
                    total_human_generated: saturating_u32(
                        g0.total_human_generated + group_people(gen_views(generated_entities@)),
                    ),
                    ..g0
                }),
                forall|i: int|
                    0 <= i < generated_entities@.len() ==> g0.entity_ok(
                        (#[trigger] generated_entities@[i]).0 as nat,
                        generated_entities@[i].1@,
                    ),
                ds.len() == k,
                forall|i: int| 0 <= i < ds.len() ==> draws_ok(#[trigger] ds[i], g0.floor_count),
                gen_views(generated_entities@) == g0.outcomes(ds, time as nat),
            decreases attempts - k,
        {
            proof {
                assert(generated_entities@.len() * MILLION + MILLION <= acc) by (nonlinear_arith)
                    requires
                        generated_entities@.len() < attempts,
                        attempts <= acc / (MILLION as nat),
                ;
            }
            let d = self.draw_attempt();
            let current_floor = d.floor;
            let ghost gen_before = gen_views(generated_entities@);
            let ghost human_before = self@.total_human_generated;
            let entity = self.attempt(&d, time);
            proof {
                assert(g0.attempt_outcome(d, time as nat) == option_view(entity));
                let ds_before = ds;
                ds = ds.push(d);
                assert(ds.drop_last() =~= ds_before);
                assert(ds.last() == d);
            }
            match entity {
                Some(e) => {
                    let ghost ev = e@;
                    generated_entities.push((current_floor, e));
                    self.accumulated_entity_probability = self.accumulated_entity_probability
                        - MILLION;
                    self.total_entity_generated = self.total_entity_generated.saturating_add(1);
                    proof {
                        let gen_after = gen_views(generated_entities@);
                        assert(gen_after =~= gen_before.push((current_floor, ev)));
                        assert(gen_after.drop_last() =~= gen_before);
                    }
                },
                None => {},
            }
            k = k + 1;
        }
        generated_entities
    }
}

} // verus!
