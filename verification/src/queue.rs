//! The hall queues: who waits on which floor, and how long the passengers
//! who left the queues had waited.
use vstd::prelude::*;
use crate::direction::Direction;
use crate::entity::{Entity, EntityView};

verus! {

/// The queues as mathematical values.
pub struct QueueView {
    /// `floors[f]` are the passengers waiting on floor `f`, in arrival order.
    pub floors: Seq<Seq<EntityView>>,
    /// Queue waiting times, in milliseconds, of the passengers who left the
    /// queues, in the order in which they left.
    pub wait_times: Seq<u64>,
}

pub open spec fn entity_views(v: Seq<Entity>) -> Seq<EntityView> {
    v.map_values(|e: Entity| e@)
}

/// The call of one floor whose queue is `q`: the first passenger who does
/// not already stand at their destination decides it.
pub open spec fn floor_call(q: Seq<EntityView>, floor: nat) -> Direction
    decreases q.len(),
{
    if q.len() == 0 {
        Direction::NoCall
    } else if q[0].destination() > floor {
        Direction::Up
    } else if q[0].destination() < floor {
        Direction::Down
    } else {
        floor_call(q.drop_first(), floor)
    }
}

/// The floor queues with every passenger `increment` milliseconds older.
pub open spec fn floors_waited(floors: Seq<Seq<EntityView>>, increment: nat) -> Seq<
    Seq<EntityView>,
> {
    floors.map_values(|q: Seq<EntityView>| q.map_values(|e: EntityView| e.waited(increment)))
}

proof fn lemma_entities_update(es: Seq<Vec<Entity>>, floor: int, idx: int)
    requires
        0 <= floor < es.len(),
        0 <= idx < es[floor]@.len(),
    ensures
        forall|r: Vec<Entity>, x: Entity|
            #![trigger es.update(floor, r), es[floor]@.update(idx, x)]
            r@ == es[floor]@.update(idx, x) ==> es.update(floor, r).map_values(
                |v: Vec<Entity>| entity_views(v@),
            ) == es.map_values(|v: Vec<Entity>| entity_views(v@)).update(
                floor,
                entity_views(es[floor]@).update(idx, x@),
            ),
{
    assert forall|r: Vec<Entity>, x: Entity| r@ == es[floor]@.update(idx, x) implies es.update(
        floor,
        r,
    ).map_values(|v: Vec<Entity>| entity_views(v@)) == es.map_values(
        |v: Vec<Entity>| entity_views(v@),
    ).update(floor, entity_views(es[floor]@).update(idx, x@)) by {
        assert(entity_views(r@) =~= entity_views(es[floor]@).update(idx, x@));
        assert(es.update(floor, r).map_values(|v: Vec<Entity>| entity_views(v@)) =~= es.map_values(
            |v: Vec<Entity>| entity_views(v@),
        ).update(floor, entity_views(es[floor]@).update(idx, x@)));
    }
}

proof fn lemma_row_update(es: Seq<Vec<Entity>>, floor: int)
    requires
        0 <= floor < es.len(),
    ensures
        forall|r: Vec<Entity>|
            #![trigger es.update(floor, r)]
            es.update(floor, r).map_values(|v: Vec<Entity>| entity_views(v@)) == es.map_values(
                |v: Vec<Entity>| entity_views(v@),
            ).update(floor, entity_views(r@)),
{
    assert forall|r: Vec<Entity>| #![trigger es.update(floor, r)] es.update(floor, r).map_values(
        |v: Vec<Entity>| entity_views(v@),
    ) == es.map_values(|v: Vec<Entity>| entity_views(v@)).update(floor, entity_views(r@)) by {
        assert(es.update(floor, r).map_values(|v: Vec<Entity>| entity_views(v@)) =~= es.map_values(
            |v: Vec<Entity>| entity_views(v@),
        ).update(floor, entity_views(r@)));
    }
}

pub struct Queue {
    entities: Vec<Vec<Entity>>,
    wait_times: Vec<u64>,
}

impl View for Queue {
    type V = QueueView;

    closed spec fn view(&self) -> QueueView {
        QueueView {
            floors: self.entities@.map_values(|v: Vec<Entity>| entity_views(v@)),
            wait_times: self.wait_times@,
        }
    }
}

impl Queue {
    /// Empty queues for `floor_count` floors, and no waiting time recorded yet.
    pub fn new(floor_count: usize) -> (q: Self)
        ensures
            q@.floors == Seq::new(floor_count as nat, |i: int| Seq::<EntityView>::empty()),
            q@.wait_times == Seq::<u64>::empty(),
    {
        let mut entities: Vec<Vec<Entity>> = Vec::new();
        let mut i: usize = 0;
        while i < floor_count
            invariant
                0 <= i <= floor_count,
                entities@.len() == i,
                forall|j: int| 0 <= j < i ==> #[trigger] entities@[j]@.len() == 0,
            decreases floor_count - i,
        {
            entities.push(Vec::new());
            i = i + 1;
        }
        let q = Queue { entities, wait_times: Vec::new() };
        assert forall|j: int| 0 <= j < floor_count implies #[trigger] q@.floors[j]
            =~= Seq::<EntityView>::empty() by {
            assert(q@.floors[j] == entity_views(q.entities@[j]@));
        }
        assert(q@.floors =~= Seq::new(floor_count as nat, |i: int| Seq::<EntityView>::empty()));
        q
    }

    /// Whether every floor queue is empty.
    pub fn is_empty(&self) -> (r: bool)
        ensures
            r == (forall|f: int| 0 <= f < self@.floors.len() ==> #[trigger] self@.floors[f].len()
                == 0),
    {
        let n = self.len();
        let mut floor: usize = 0;
        while floor < n
            invariant
                n == self@.floors.len(),
                0 <= floor <= n,
                forall|f: int| 0 <= f < floor ==> #[trigger] self@.floors[f].len() == 0,
            decreases n - floor,
        {
            if !self.is_floor_empty(floor) {
                return false;
            }
            floor = floor + 1;
        }
        true
    }

    pub fn is_floor_empty(&self, floor: usize) -> (r: bool)
        requires
            floor < self@.floors.len(),
        ensures
            r == (self@.floors[floor as int].len() == 0),
    {
        self.entities[floor].is_empty()
    }

    /// The passenger at position `entity_idx` of the queue of `floor`.
    pub fn get(&self, floor: usize, entity_idx: usize) -> (e: &Entity)
        requires
            floor < self@.floors.len(),
            entity_idx < self@.floors[floor as int].len(),
        ensures
            e@ == self@.floors[floor as int][entity_idx as int],
    {
        assert(self@.floors[floor as int][entity_idx as int] == self.entities@[floor as int]@[entity_idx as int]@);
        &self.entities[floor][entity_idx]
    }

    /// The passenger at position `entity_idx` of the queue of `floor`, to be
    /// changed in place.
    pub fn get_mut(&mut self, floor: usize, entity_idx: usize) -> (e: &mut Entity)
        requires
            floor < old(self)@.floors.len(),
            entity_idx < old(self)@.floors[floor as int].len(),
        ensures
            (*e)@ == old(self)@.floors[floor as int][entity_idx as int],
            final(self)@ == (QueueView {
                floors: old(self)@.floors.update(
                    floor as int,
                    old(self)@.floors[floor as int].update(entity_idx as int, (*final(e))@),
                ),
                ..old(self)@
            }),
    {
        assert(old(self)@.floors[floor as int][entity_idx as int] == old(self).entities@[floor as int]@[entity_idx as int]@);
        proof {
            lemma_entities_update(self.entities@, floor as int, entity_idx as int);
        }
        &mut self.entities[floor][entity_idx]
    }

    /// Takes the passenger at position `entity_idx` out of the queue of
    /// `floor` and records how long they waited; nothing happens on an empty
    /// floor.
    pub fn remove(&mut self, floor: usize, entity_idx: usize) -> (r: Option<Entity>)
        requires
            floor < old(self)@.floors.len(),
            old(self)@.floors[floor as int].len() > 0 ==> entity_idx < old(self)@.floors[
                floor as int].len(),
        ensures
            old(self)@.floors[floor as int].len() == 0 ==> r is None && final(self)@ == old(self)@,
            old(self)@.floors[floor as int].len() > 0 ==> {
                let e = old(self)@.floors[floor as int][entity_idx as int];
                &&& r matches Some(x) && x@ == e
                &&& final(self)@.floors == old(self)@.floors.update(
                    floor as int,
                    old(self)@.floors[floor as int].remove(entity_idx as int),
                )
                &&& final(self)@.wait_times == old(self)@.wait_times.push(e.queue_wait() as u64)
            },
    {
        if self.entities[floor].is_empty() {
            return None;
        }
        let ghost before = self.entities@;
        let entity = self.entities[floor].remove(entity_idx);
        let w = entity.get_queue_wait();
        self.wait_times.push(w);
        proof {
            assert(self.entities@ =~= before.update(floor as int, self.entities@[floor as int]));
            assert(entity_views(self.entities@[floor as int]@) =~= entity_views(
                before[floor as int]@,
            ).remove(entity_idx as int));
            assert(self@.floors =~= old(self)@.floors.update(
                floor as int,
                old(self)@.floors[floor as int].remove(entity_idx as int),
            ));
        }
        Some(entity)
    }

    /// Puts a passenger at the end of the queue of `floor`.
    pub fn add(&mut self, floor: usize, entity: Entity)
        requires
            floor < old(self)@.floors.len(),
        ensures
            final(self)@.floors == old(self)@.floors.update(
                floor as int,
                old(self)@.floors[floor as int].push(entity@),
            ),
            final(self)@.wait_times == old(self)@.wait_times,
    {
        let ghost before = self.entities@;
        self.entities[floor].push(entity);
        proof {
            assert(self.entities@ =~= before.update(floor as int, self.entities@[floor as int]));
            assert(entity_views(self.entities@[floor as int]@) =~= entity_views(
                before[floor as int]@,
            ).push(entity@));
            assert(self@.floors =~= old(self)@.floors.update(
                floor as int,
                old(self)@.floors[floor as int].push(entity@),
            ));
        }
    }

    /// Number of floors.
    pub fn len(&self) -> (r: usize)
        ensures
            r == self@.floors.len(),
    {
        self.entities.len()
    }

    /// The queue of `floor`, front first.
    pub fn get_floor_queue(&self, floor: usize) -> (r: &Vec<Entity>)
        requires
            floor < self@.floors.len(),
        ensures
            entity_views(r@) == self@.floors[floor as int],
    {
        &self.entities[floor]
    }

    /// The queue of `floor`, front first, to be changed in place.
    pub fn get_floor_queue_mut(&mut self, floor: usize) -> (r: &mut Vec<Entity>)
        requires
            floor < old(self)@.floors.len(),
        ensures
            entity_views(r@) == old(self)@.floors[floor as int],
            final(self)@ == (QueueView {
                floors: old(self)@.floors.update(floor as int, entity_views(final(r)@)),
                ..old(self)@
            }),
    {
        proof {
            lemma_row_update(self.entities@, floor as int);
        }
        &mut self.entities[floor]
    }

    /// Number of passengers waiting on `floor`.
    pub fn floor_len(&self, floor: usize) -> (r: usize)
        requires
            floor < self@.floors.len(),
        ensures
            r == self@.floors[floor as int].len(),
    {
        self.entities[floor].len()
    }

    /// Number of floors.
    pub fn get_floor_count(&self) -> (r: usize)
        ensures
            r == self@.floors.len(),
    {
        self.entities.len()
    }

    /// Queue waiting times of the passengers who left the queues.
    pub fn wait_times(&self) -> (r: &Vec<u64>)
        ensures
            r@ == self@.wait_times,
    {
        &self.wait_times
    }

    /// Every waiting passenger waits `delta_time` milliseconds more.
    pub fn update_wait_time(&mut self, delta_time: u64)
        ensures
            final(self)@.floors == floors_waited(old(self)@.floors, delta_time as nat),
            final(self)@.wait_times == old(self)@.wait_times,
    {
        let ghost start = self@.floors;
        let n = self.entities.len();
        let mut f: usize = 0;
        while f < n
            invariant
                n == self.entities@.len(),
                n == start.len(),
                0 <= f <= n,
                self@.wait_times == old(self)@.wait_times,
                forall|g: int|
                    0 <= g < f ==> #[trigger] self@.floors[g] == start[g].map_values(
                        |e: EntityView| e.waited(delta_time as nat),
                    ),
                forall|g: int| f <= g < n ==> #[trigger] self@.floors[g] == start[g],
            decreases n - f,
        {
            let m = self.entities[f].len();
            let mut i: usize = 0;
            while i < m
                invariant
                    n == self.entities@.len(),
                    n == start.len(),
                    0 <= f < n,
                    m == self.entities@[f as int]@.len(),
                    m == start[f as int].len(),
                    0 <= i <= m,
                    self@.wait_times == old(self)@.wait_times,
                    forall|g: int|
                        0 <= g < f ==> #[trigger] self@.floors[g] == start[g].map_values(
                            |e: EntityView| e.waited(delta_time as nat),
                        ),
                    forall|g: int| f < g < n ==> #[trigger] self@.floors[g] == start[g],
                    forall|j: int|
                        0 <= j < i ==> #[trigger] self@.floors[f as int][j] == start[f as int][j].waited(
                            delta_time as nat,
                        ),
                    forall|j: int| i <= j < m ==> #[trigger] self@.floors[f as int][j] == start[f as int][j],
                decreases m - i,
            {
                let ghost before = self.entities@;
                let ghost prev = self@.floors;
                self.entities[f][i].increase_wait_time(delta_time);
                proof {
                    assert(self.entities@ =~= before.update(f as int, self.entities@[f as int]));
                    assert forall|g: int| 0 <= g < n && g != f implies #[trigger] self@.floors[g]
                        == prev[g] by {
                        assert(self@.floors[g] == entity_views(self.entities@[g]@));
                        assert(prev[g] == entity_views(before[g]@));
                    }
                    assert(self@.floors[f as int] == entity_views(self.entities@[f as int]@));
                    assert(prev[f as int] == entity_views(before[f as int]@));
                    assert(self.entities@[f as int]@ =~= before[f as int]@.update(
                        i as int,
                        self.entities@[f as int]@[i as int],
                    ));
                    assert(prev[f as int][i as int] == start[f as int][i as int]);
                    assert(before[f as int]@[i as int]@ == prev[f as int][i as int]);
                    assert(self.entities@[f as int]@[i as int]@ == before[f as int]@[i as int]@.waited(
                        delta_time as nat,
                    ));
                    assert(self@.floors[f as int] =~= prev[f as int].update(
                        i as int,
                        start[f as int][i as int].waited(delta_time as nat),
                    ));
                }
                i = i + 1;
            }
            assert(self@.floors[f as int] =~= start[f as int].map_values(
                |e: EntityView| e.waited(delta_time as nat),
            ));
            f = f + 1;
        }
        assert(self@.floors =~= floors_waited(start, delta_time as nat));
    }

    /// The call of every floor: for each floor, the direction that its first
    /// passenger who is not already at their destination wants to go.
    pub fn call_buttons(&self) -> (r: Vec<Direction>)
        ensures
            r@.len() == self@.floors.len(),
            forall|f: int|
                0 <= f < r@.len() ==> #[trigger] r@[f] == floor_call(self@.floors[f], f as nat),
    {
        let n = self.len();
        let mut call_buttons: Vec<Direction> = Vec::new();
        let mut f: usize = 0;
        while f < n
            invariant
                n == self@.floors.len(),
                0 <= f <= n,
                call_buttons@.len() == f,
                forall|g: int|
                    0 <= g < f ==> #[trigger] call_buttons@[g] == floor_call(
                        self@.floors[g],
                        g as nat,
                    ),
            decreases n - f,
        {
            let floor_queue = self.get_floor_queue(f);
            let ghost q = self@.floors[f as int];
            let m = floor_queue.len();
            let mut call = Direction::NoCall;
            let mut i: usize = 0;
            assert(q.skip(0) =~= q);
            while i < m
                invariant_except_break
                    0 <= i <= m,
                    m == q.len(),
                    entity_views(floor_queue@) == q,
                    call == Direction::NoCall,
                    floor_call(q, f as nat) == floor_call(q.skip(i as int), f as nat),
                ensures
                    call == floor_call(q, f as nat),
                decreases m - i,
            {
                let destination = floor_queue[i].get_destination();
                proof {
                    assert(q.skip(i as int)[0] == q[i as int]);
                    assert(q.skip(i as int).drop_first() =~= q.skip(i + 1));
                }
                if destination > f {
                    call = Direction::Up;
                    break;
                }
                if destination < f {
                    call = Direction::Down;
                    break;
                }
                i = i + 1;
            }
            call_buttons.push(call);
            f = f + 1;
        }
        call_buttons
    }
}

} // verus!
