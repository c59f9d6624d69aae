//! Passengers: single people and groups that travel together.
//!
//! Quantities are integers in fixed units: weights in grams, floor areas in
//! square centimetres and waiting times in milliseconds.
use vstd::prelude::*;

verus! {

/// Boarding takes this long for each person, in milliseconds.
pub const BOARDING_TIME_PER_PERSON_MS: u64 = 2000;

/// Largest value of a `u32`, as a bound for sums of member quantities.
pub open spec fn u32_max() -> nat {
    4294967295
}

#[derive(Debug, Clone, Copy, PartialEq, Eq, Structural)]
pub enum Gender {
    Male,
    Female,
}

/// What a person is, as a mathematical value.
pub struct HumanView {
    pub weight: nat,
    pub age: nat,
    pub area: nat,
    pub gender: Gender,
    pub destination: nat,
    pub queue_wait: nat,
    pub transport_wait: nat,
    pub boarded: bool,
}

/// A single passenger.
pub struct Human {
    weight: u32,
    age: u8,
    area: u32,
    gender: Gender,
    destination_floor: usize,
    queue_wait: u64,
    transport_wait: u64,
    is_boarded: bool,
}

impl View for Human {
    type V = HumanView;

    closed spec fn view(&self) -> HumanView {
        HumanView {
            weight: self.weight as nat,
            age: self.age as nat,
            area: self.area as nat,
            gender: self.gender,
            destination: self.destination_floor as nat,
            queue_wait: self.queue_wait as nat,
            transport_wait: self.transport_wait as nat,
            boarded: self.is_boarded,
        }
    }
}

/// Adds without going past `u64::MAX`.
pub open spec fn saturating_sum(a: nat, b: nat) -> nat {
    if a + b > u64::MAX {
        u64::MAX as nat
    } else {
        a + b
    }
}

impl Human {
    /// A passenger who has not waited yet and has not boarded.
    pub fn new(age: u8, gender: Gender, weight: u32, area: u32, destination_floor: usize) -> (h:
        Self)
        ensures
            h@ == (HumanView {
                weight: weight as nat,
                age: age as nat,
                area: area as nat,
                gender,
                destination: destination_floor as nat,
                queue_wait: 0,
                transport_wait: 0,
                boarded: false,
            }),
    {
        Human {
            weight,
            age,
            gender,
            area,
            destination_floor,
            queue_wait: 0,
            transport_wait: 0,
            is_boarded: false,
        }
    }

    pub fn clone_human(&self) -> (h: Self)
        ensures
            h@ == self@,
    {
        Human {
            weight: self.weight,
            age: self.age,
            gender: self.gender,
            area: self.area,
            destination_floor: self.destination_floor,
            queue_wait: self.queue_wait,
            transport_wait: self.transport_wait,
            is_boarded: self.is_boarded,
        }
    }

    pub fn get_area(&self) -> (r: u32)
        ensures
            r == self@.area,
    {
        self.area
    }

    pub fn get_weight(&self) -> (r: u32)
        ensures
            r == self@.weight,
    {
        self.weight
    }

    pub fn get_age(&self) -> (r: u8)
        ensures
            r == self@.age,
    {
        self.age
    }

    pub fn get_gender(&self) -> (r: Gender)
        ensures
            r == self@.gender,
    {
        self.gender
    }

    /// Boarding time of one person, in milliseconds; the same for every elevator.
    pub fn calculate_boarding_time(&self) -> (r: u64)
        ensures
            r == BOARDING_TIME_PER_PERSON_MS,
    {
        BOARDING_TIME_PER_PERSON_MS
    }

    pub fn get_destination(&self) -> (r: usize)
        ensures
            r == self@.destination,
    {
        self.destination_floor
    }

    /// Adds `increment` milliseconds to the time spent waiting in the queue.
    pub fn increase_wait_time(&mut self, increment: u64)
        ensures
            final(self)@ == (HumanView {
                queue_wait: saturating_sum(old(self)@.queue_wait, increment as nat),
                ..old(self)@
            }),
    {
        self.queue_wait = self.queue_wait.saturating_add(increment);
    }

    pub fn get_queue_wait(&self) -> (r: u64)
        ensures
            r == self@.queue_wait,
    {
        self.queue_wait
    }

    /// The transport wait as the simulation reports it: the time spent
    /// waiting in the queue.
    pub fn get_transport_wait(&self) -> (r: u64)
        ensures
            r == self@.queue_wait,
    {
        self.queue_wait
    }

    pub fn is_boarded(&self) -> (r: bool)
        ensures
            r == self@.boarded,
    {
        self.is_boarded
    }

    pub fn board(&mut self)
        ensures
            final(self)@ == (HumanView { boarded: true, ..old(self)@ }),
    {
        self.is_boarded = true;
    }
}

/// Sum of the weights of `s`.
pub open spec fn sum_weight(s: Seq<HumanView>) -> nat
    decreases s.len(),
{
    if s.len() == 0 {
        0
    } else {
        sum_weight(s.drop_last()) + s.last().weight
    }
}

/// Sum of the floor areas of `s`.
pub open spec fn sum_area(s: Seq<HumanView>) -> nat
    decreases s.len(),
{
    if s.len() == 0 {
        0
    } else {
        sum_area(s.drop_last()) + s.last().area
    }
}

/// Sum of the queue waiting times of `s`.
pub open spec fn sum_queue_wait(s: Seq<HumanView>) -> nat
    decreases s.len(),
{
    if s.len() == 0 {
        0
    } else {
        sum_queue_wait(s.drop_last()) + s.last().queue_wait
    }
}

pub proof fn lemma_sum_weight_bound(s: Seq<HumanView>)
    requires
        forall|i: int| 0 <= i < s.len() ==> #[trigger] s[i].weight <= u32_max(),
    ensures
        sum_weight(s) <= s.len() * u32_max(),
    decreases s.len(),
{
    if s.len() > 0 {
        lemma_sum_weight_bound(s.drop_last());
    }
}

pub proof fn lemma_sum_area_bound(s: Seq<HumanView>)
    requires
        forall|i: int| 0 <= i < s.len() ==> #[trigger] s[i].area <= u32_max(),
    ensures
        sum_area(s) <= s.len() * u32_max(),
    decreases s.len(),
{
    if s.len() > 0 {
        lemma_sum_area_bound(s.drop_last());
    }
}

pub proof fn lemma_sum_queue_wait_bound(s: Seq<HumanView>)
    requires
        forall|i: int| 0 <= i < s.len() ==> #[trigger] s[i].queue_wait <= u64::MAX,
    ensures
        sum_queue_wait(s) <= s.len() * (u64::MAX as nat),
    decreases s.len(),
{
    if s.len() > 0 {
        lemma_sum_queue_wait_bound(s.drop_last());
    }
}

/// Several people who travel together to one destination.
pub struct HumanGroup {
    members: Vec<Human>,
}

impl View for HumanGroup {
    type V = Seq<HumanView>;

    closed spec fn view(&self) -> Seq<HumanView> {
        self.members@.map_values(|h: Human| h@)
    }
}

impl HumanGroup {
    #[verifier::type_invariant]
    spec fn size_fits(&self) -> bool {
        1 <= self.members.len() <= u32_max()
    }

    /// A group of the given members; a group has at least one member, whose
    /// destination is that of the group.
    pub fn new(members: Vec<Human>) -> (g: Self)
        requires
            1 <= members.len() <= u32_max(),
        ensures
            g@ == members@.map_values(|h: Human| h@),
    {
        HumanGroup { members }
    }

    pub fn clone_group(&self) -> (g: Self)
        ensures
            g@ == self@,
    {
        proof {
            use_type_invariant(self);
        }
        let mut members: Vec<Human> = Vec::new();
        let n = self.members.len();
        let mut i: usize = 0;
        while i < n
            invariant
                n == self.members.len(),
                1 <= n <= u32_max(),
                0 <= i <= n,
                members@.len() == i,
                forall|j: int| 0 <= j < i ==> #[trigger] members@[j]@ == self.members@[j]@,
            decreases n - i,
        {
            members.push(self.members[i].clone_human());
            i = i + 1;
        }
        assert(members@.map_values(|h: Human| h@) =~= self.members@.map_values(|h: Human| h@));
        HumanGroup { members }
    }

    pub fn len(&self) -> (r: usize)
        ensures
            r == self@.len(),
            1 <= r <= u32_max(),
    {
        proof {
            use_type_invariant(self);
        }
        self.members.len()
    }

    pub fn member(&self, i: usize) -> (h: &Human)
        requires
            i < self@.len(),
        ensures
            h@ == self@[i as int],
    {
        &self.members[i]
    }

    /// Total floor area of the members.
    pub fn get_area(&self) -> (r: u64)
        ensures
            r == sum_area(self@),
    {
        proof {
            use_type_invariant(self);
        }
        let ghost s = self@;
        let mut total: u64 = 0;
        let n = self.members.len();
        for i in 0..n
            invariant
                n == self.members.len(),
                n <= u32_max(),
                s == self.members@.map_values(|h: Human| h@),
                total == sum_area(s.take(i as int)),
        {
            proof {
                assert(s.take(i + 1).drop_last() =~= s.take(i as int));
                assert forall|j: int| 0 <= j < s.take(i as int).len() implies #[trigger] s.take(
                    i as int,
                )[j].area <= u32_max() by {
                    assert(s.take(i as int)[j] == self.members@[j]@);
                }
                lemma_sum_area_bound(s.take(i as int));
                assert(i * u32_max() <= n * u32_max()) by (nonlinear_arith)
                    requires
                        i <= n,
                ;
                assert(n * u32_max() + u32_max() <= u64::MAX) by (nonlinear_arith)
                    requires
                        n <= u32_max(),
                ;
            }
            total = total + self.members[i].get_area() as u64;
        }
        assert(s.take(n as int) =~= s);
        total
    }

    /// Total weight of the members.
    pub fn get_weight(&self) -> (r: u64)
        ensures
            r == sum_weight(self@),
    {
        proof {
            use_type_invariant(self);
        }
        let ghost s = self@;
        let mut total: u64 = 0;
        let n = self.members.len();
        for i in 0..n
            invariant
                n == self.members.len(),
                n <= u32_max(),
                s == self.members@.map_values(|h: Human| h@),
                total == sum_weight(s.take(i as int)),
        {
            proof {
                assert(s.take(i + 1).drop_last() =~= s.take(i as int));
                assert forall|j: int| 0 <= j < s.take(i as int).len() implies #[trigger] s.take(
                    i as int,
                )[j].weight <= u32_max() by {
                    assert(s.take(i as int)[j] == self.members@[j]@);
                }
                lemma_sum_weight_bound(s.take(i as int));
                assert(i * u32_max() <= n * u32_max()) by (nonlinear_arith)
                    requires
                        i <= n,
                ;
                assert(n * u32_max() + u32_max() <= u64::MAX) by (nonlinear_arith)
                    requires
                        n <= u32_max(),
                ;
            }
            total = total + self.members[i].get_weight() as u64;
        }
        assert(s.take(n as int) =~= s);
        total
    }

    /// Boarding time of the whole group: one boarding time per member.
    pub fn calculate_boarding_time(&self) -> (r: u64)
        ensures
            r == self@.len() * BOARDING_TIME_PER_PERSON_MS,
    {
        proof {
            use_type_invariant(self);
        }
        self.members.len() as u64 * BOARDING_TIME_PER_PERSON_MS
    }

    /// The destination of the group: that of its first member.
    pub fn get_destination(&self) -> (r: usize)
        ensures
            r == self@[0].destination,
    {
        proof {
            use_type_invariant(self);
        }
        self.members[0].get_destination()
    }

    /// Adds `increment` milliseconds to the queue waiting time of each member.
    pub fn increase_wait_time(&mut self, increment: u64)
        ensures
            final(self)@.len() == old(self)@.len(),
            forall|i: int|
                0 <= i < old(self)@.len() ==> #[trigger] final(self)@[i] == (HumanView {
                    queue_wait: saturating_sum(old(self)@[i].queue_wait, increment as nat),
                    ..old(self)@[i]
                }),
    {
        proof {
            use_type_invariant(&*self);
        }
        let ghost s0 = self@;
        let n = self.members.len();
        let mut i: usize = 0;
        while i < n
            invariant
                n == self.members.len(),
                1 <= n <= u32_max(),
                n == s0.len(),
                0 <= i <= n,
                forall|j: int|
                    0 <= j < i ==> #[trigger] self.members@[j]@ == (HumanView {
                        queue_wait: saturating_sum(s0[j].queue_wait, increment as nat),
                        ..s0[j]
                    }),
                forall|j: int| i <= j < n ==> #[trigger] self.members@[j]@ == s0[j],
            decreases n - i,
        {
            self.members[i].increase_wait_time(increment);
            i = i + 1;
        }
        assert(self@.len() == s0.len());
    }

    /// Mean queue waiting time of the members, rounded down.
    pub fn get_queue_wait(&self) -> (r: u64)
        ensures
            r == sum_queue_wait(self@) / self@.len(),
    {
        proof {
            use_type_invariant(self);
        }
        let ghost s = self@;
        let mut total: u128 = 0;
        let n = self.members.len();
        for i in 0..n
            invariant
                n == self.members.len(),
                n == s.len(),
                n <= u32_max(),
                s == self.members@.map_values(|h: Human| h@),
                total == sum_queue_wait(s.take(i as int)),
        {
            proof {
                assert(s.take(i + 1).drop_last() =~= s.take(i as int));
                assert forall|j: int| 0 <= j < s.take(i as int).len() implies #[trigger] s.take(
                    i as int,
                )[j].queue_wait <= u64::MAX by {
                    assert(s.take(i as int)[j] == self.members@[j]@);
                }
                lemma_sum_queue_wait_bound(s.take(i as int));
                assert(i * (u64::MAX as nat) + u64::MAX <= u128::MAX) by (nonlinear_arith)
                    requires
                        i < n,
                        n <= u32_max(),
                ;
            }
            total = total + self.members[i].get_queue_wait() as u128;
        }
        assert(s.take(n as int) =~= s);
        proof {
            assert forall|j: int| 0 <= j < s.len() implies #[trigger] s[j].queue_wait
                <= u64::MAX by {
                assert(s[j] == self.members@[j]@);
            }
            lemma_sum_queue_wait_bound(s);
            assert(total / (n as u128) <= u64::MAX) by (nonlinear_arith)
                requires
                    total <= n * (u64::MAX as nat),
                    n > 0,
            ;
        }
        (total / (n as u128)) as u64
    }

    /// The transport wait as the simulation reports it: the mean time spent
    /// waiting in the queue.
    pub fn get_transport_wait(&self) -> (r: u64)
        ensures
            r == sum_queue_wait(self@) / self@.len(),
    {
        self.get_queue_wait()
    }

    /// Marks every member as boarded.
    pub fn board(&mut self)
        ensures
            final(self)@.len() == old(self)@.len(),
            forall|i: int|
                0 <= i < old(self)@.len() ==> #[trigger] final(self)@[i] == (HumanView {
                    boarded: true,
                    ..old(self)@[i]
                }),
    {
        proof {
            use_type_invariant(&*self);
        }
        let ghost s0 = self@;
        let n = self.members.len();
        let mut i: usize = 0;
        while i < n
            invariant
                n == self.members.len(),
                1 <= n <= u32_max(),
                n == s0.len(),
                0 <= i <= n,
                forall|j: int|
                    0 <= j < i ==> #[trigger] self.members@[j]@ == (HumanView { boarded: true, ..s0[j] }),
                forall|j: int| i <= j < n ==> #[trigger] self.members@[j]@ == s0[j],
            decreases n - i,
        {
            self.members[i].board();
            i = i + 1;
        }
        assert(self@.len() == s0.len());
    }
}

} // verus!
