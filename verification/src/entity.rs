//! What waits in a floor queue and rides in a cabin: a single person or a
//! group that travels together.
use vstd::prelude::*;
use crate::human::{
    BOARDING_TIME_PER_PERSON_MS,
    Human,
    HumanGroup,
    HumanView,
    saturating_sum,
    sum_area,
    sum_queue_wait,
    sum_weight,
};

verus! {

/// A passenger as a mathematical value.
pub enum EntityView {
    Person(HumanView),
    Group(Seq<HumanView>),
}

/// A person with `increment` more milliseconds of queue waiting time.
pub open spec fn human_waited(h: HumanView, increment: nat) -> HumanView {
    HumanView { queue_wait: saturating_sum(h.queue_wait, increment), ..h }
}

/// A person who has boarded.
pub open spec fn human_boarded(h: HumanView) -> HumanView {
    HumanView { boarded: true, ..h }
}

impl EntityView {
    pub open spec fn weight(self) -> nat {
        match self {
            EntityView::Person(h) => h.weight,
            EntityView::Group(s) => sum_weight(s),
        }
    }

    pub open spec fn area(self) -> nat {
        match self {
            EntityView::Person(h) => h.area,
            EntityView::Group(s) => sum_area(s),
        }
    }

    /// The destination floor; a group goes where its first member goes.
    pub open spec fn destination(self) -> nat {
        match self {
            EntityView::Person(h) => h.destination,
            EntityView::Group(s) => if s.len() > 0 {
                s[0].destination
            } else {
                0
            },
        }
    }

    /// A group has between one and `u32::MAX` members.
    pub open spec fn wf(self) -> bool {
        match self {
            EntityView::Person(_) => true,
            EntityView::Group(s) => 1 <= s.len() <= crate::human::u32_max(),
        }
    }

    /// Number of people.
    pub open spec fn people(self) -> nat {
        match self {
            EntityView::Person(_) => 1,
            EntityView::Group(s) => s.len(),
        }
    }

    /// Queue waiting time; for a group the mean over its members, rounded down.
    pub open spec fn queue_wait(self) -> nat {
        match self {
            EntityView::Person(h) => h.queue_wait,
            EntityView::Group(s) => sum_queue_wait(s) / s.len(),
        }
    }

    /// The passenger after waiting `increment` milliseconds more.
    pub open spec fn waited(self, increment: nat) -> EntityView {
        match self {
            EntityView::Person(h) => EntityView::Person(human_waited(h, increment)),
            EntityView::Group(s) => EntityView::Group(
                s.map_values(|h: HumanView| human_waited(h, increment)),
            ),
        }
    }

    /// The passenger after boarding.
    pub open spec fn boarded(self) -> EntityView {
        match self {
            EntityView::Person(h) => EntityView::Person(human_boarded(h)),
            EntityView::Group(s) => EntityView::Group(s.map_values(|h: HumanView| human_boarded(h))),
        }
    }
}

proof fn lemma_waited_sums(s: Seq<HumanView>, increment: nat)
    ensures
        sum_weight(s.map_values(|h: HumanView| human_waited(h, increment))) == sum_weight(s),
        sum_area(s.map_values(|h: HumanView| human_waited(h, increment))) == sum_area(s),
    decreases s.len(),
{
    let t = s.map_values(|h: HumanView| human_waited(h, increment));
    if s.len() > 0 {
        lemma_waited_sums(s.drop_last(), increment);
        assert(t.drop_last() =~= s.drop_last().map_values(
            |h: HumanView| human_waited(h, increment),
        ));
    }
}

/// Waiting changes neither the weight, the floor area, the destination nor
/// the number of people of a passenger.
pub proof fn lemma_waited_keeps(e: EntityView, increment: nat)
    ensures
        e.waited(increment).weight() == e.weight(),
        e.waited(increment).area() == e.area(),
        e.waited(increment).destination() == e.destination(),
        e.waited(increment).people() == e.people(),
{
    match e {
        EntityView::Person(_) => {},
        EntityView::Group(s) => {
            lemma_waited_sums(s, increment);
            if s.len() > 0 {
                assert(s.map_values(|h: HumanView| human_waited(h, increment))[0]
                    == human_waited(s[0], increment));
            }
        },
    }
}

/// A passenger waiting in a floor queue or riding in a cabin.
pub enum Entity {
    Person(Human),
    Group(HumanGroup),
}

impl View for Entity {
    type V = EntityView;

    open spec fn view(&self) -> EntityView {
        match self {
            Entity::Person(h) => EntityView::Person(h@),
            Entity::Group(g) => EntityView::Group(g@),
        }
    }
}

impl Entity {
    pub fn clone_box(&self) -> (e: Entity)
        ensures
            e@ == self@,
    {
        match self {
            Entity::Person(h) => Entity::Person(h.clone_human()),
            Entity::Group(g) => Entity::Group(g.clone_group()),
        }
    }

    pub fn get_area(&self) -> (r: u64)
        ensures
            r == self@.area(),
    {
        match self {
            Entity::Person(h) => h.get_area() as u64,
            Entity::Group(g) => g.get_area(),
        }
    }

    pub fn get_weight(&self) -> (r: u64)
        ensures
            r == self@.weight(),
    {
        match self {
            Entity::Person(h) => h.get_weight() as u64,
            Entity::Group(g) => g.get_weight(),
        }
    }

    /// Number of people in the passenger; at least one.
    pub fn people(&self) -> (r: usize)
        ensures
            r == self@.people(),
            r >= 1,
            self@.wf(),
    {
        match self {
            Entity::Person(_) => 1,
            Entity::Group(g) => g.len(),
        }
    }

    /// Boarding time in milliseconds: one boarding time per person.
    pub fn calculate_boarding_time(&self) -> (r: u64)
        ensures
            r == self@.people() * BOARDING_TIME_PER_PERSON_MS,
    {
        match self {
            Entity::Person(h) => h.calculate_boarding_time(),
            Entity::Group(g) => g.calculate_boarding_time(),
        }
    }

    pub fn get_destination(&self) -> (r: usize)
        ensures
            r == self@.destination(),
    {
        match self {
            Entity::Person(h) => h.get_destination(),
            Entity::Group(g) => {
                let _ = g.len();
                g.get_destination()
            },
        }
    }

    /// Adds `increment` milliseconds to the queue waiting time of every person.
    pub fn increase_wait_time(&mut self, increment: u64)
        ensures
            final(self)@ == old(self)@.waited(increment as nat),
    {
        match self {
            Entity::Person(h) => {
                h.increase_wait_time(increment);
            },
            Entity::Group(g) => {
                let ghost s0 = g@;
                g.increase_wait_time(increment);
                assert(g@ =~= s0.map_values(|h: HumanView| human_waited(h, increment as nat)));
            },
        }
    }

    pub fn get_queue_wait(&self) -> (r: u64)
        ensures
            r == self@.queue_wait(),
    {
        match self {
            Entity::Person(h) => h.get_queue_wait(),
            Entity::Group(g) => g.get_queue_wait(),
        }
    }

    /// The transport wait as the simulation reports it: the queue waiting time.
    pub fn get_transport_wait(&self) -> (r: u64)
        ensures
            r == self@.queue_wait(),
    {
        match self {
            Entity::Person(h) => h.get_transport_wait(),
            Entity::Group(g) => g.get_transport_wait(),
        }
    }

    pub fn board(&mut self)
        ensures
            final(self)@ == old(self)@.boarded(),
    {
        match self {
            Entity::Person(h) => {
                h.board();
            },
            Entity::Group(g) => {
                let ghost s0 = g@;
                g.board();
                assert(g@ =~= s0.map_values(|h: HumanView| human_boarded(h)));
            },
        }
    }
}

} // verus!
