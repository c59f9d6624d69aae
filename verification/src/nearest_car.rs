//! Nearest-car dispatching: each hall call goes to the closest elevator that
//! can take it, and every cabin that stands at its floor lets passengers off
//! and on.
use vstd::prelude::*;
use crate::boarding::{load_at_current_floor, load_at_floor};
use crate::direction::Direction;
use crate::elevator::{Elevator, ElevatorView};
use crate::queue::{Queue, QueueView};
use crate::simple_controller::views;

verus! {

/// Whether an elevator heading `d` can take a call `call`: it heads the
/// called way, or it stands at its floor.
pub open spec fn compatible(d: Option<Direction>, call: Direction, can_board: bool) -> bool {
    match call {
        Direction::Up => d == Some(Direction::Up) || can_board,
        Direction::Down => d == Some(Direction::Down) || can_board,
        Direction::Both => d == Some(Direction::Up) || d == Some(Direction::Down) || can_board,
        Direction::NoCall => false,
    }
}

pub open spec fn abs(x: int) -> nat {
    if x < 0 {
        (-x) as nat
    } else {
        x as nat
    }
}

/// Distance between the cabin and the height of `floor`, in millimetres.
pub open spec fn distance(e: ElevatorView, floor: int) -> nat {
    abs(e.floors[floor] - e.height)
}

/// Among the first `n` elevators, the first one of least distance to
/// `floor` among those that can take the call.
pub open spec fn best_elevator(
    es: Seq<ElevatorView>,
    dirs: Seq<Option<Direction>>,
    floor: int,
    call: Direction,
    n: int,
) -> Option<usize>
    decreases n,
{
    if n <= 0 {
        None
    } else {
        let prev = best_elevator(es, dirs, floor, call, n - 1);
        let i = n - 1;
        if compatible(dirs[i], call, es[i].can_board()) && (prev is None || distance(es[i], floor)
            < distance(es[prev->0 as int], floor)) {
            Some(i as usize)
        } else {
            prev
        }
    }
}

/// The heading of a cabin after a step: none once it stands at its floor,
/// unchanged while it moves.
pub open spec fn direction_after(d: Option<Direction>, e: ElevatorView) -> Option<Direction> {
    if e.can_board() {
        None
    } else {
        d
    }
}

/// The elevators and headings after the calls of the first `n` floors were
/// dispatched, floor by floor.
pub open spec fn dispatch(
    es: Seq<ElevatorView>,
    dirs: Seq<Option<Direction>>,
    calls: Seq<Direction>,
    n: int,
) -> (Seq<ElevatorView>, Seq<Option<Direction>>)
    decreases n,
{
    if n <= 0 {
        (es, dirs)
    } else {
        let prev = dispatch(es, dirs, calls, n - 1);
        let f = n - 1;
        if calls[f] == Direction::NoCall {
            prev
        } else {
            match best_elevator(prev.0, prev.1, f, calls[f], prev.0.len() as int) {
                Some(b) => {
                    let e = prev.0[b as int].with_target(f as nat);
                    (prev.0.update(b as int, e), prev.1.update(b as int, direction_after(prev.1[b as int], e)))
                },
                None => prev,
            }
        }
    }
}

/// The elevators, headings and queues after the first `n` elevators were
/// served in order: each lets off who arrived, updates its heading, and
/// takes on passengers.
pub open spec fn serve(
    es: Seq<ElevatorView>,
    dirs: Seq<Option<Direction>>,
    q: QueueView,
    n: int,
) -> (Seq<ElevatorView>, Seq<Option<Direction>>, QueueView)
    decreases n,
{
    if n <= 0 {
        (es, dirs, q)
    } else {
        let prev = serve(es, dirs, q, n - 1);
        let i = n - 1;
        let e1 = if prev.0[i].entities.len() > 0 {
            prev.0[i].unloaded()
        } else {
            prev.0[i]
        };
        let d = direction_after(prev.1[i], e1);
        let l = load_at_floor(e1, true, d, prev.2);
        (prev.0.update(i, l.0), prev.1.update(i, d), l.1)
    }
}

/// The controller as a mathematical value.
pub struct NearestView {
    pub initialized: bool,
    /// Heading of each elevator.
    pub directions: Seq<Option<Direction>>,
}

pub struct NearestCarDispatchController {
    is_initialized: bool,
    directions: Vec<Option<Direction>>,
}

impl View for NearestCarDispatchController {
    type V = NearestView;

    closed spec fn view(&self) -> NearestView {
        NearestView { initialized: self.is_initialized, directions: self.directions@ }
    }
}

/// Every cabin is consistent, has floors up to the last call, and serves a
/// floor that has a queue.
pub open spec fn cabins_ready(es: Seq<ElevatorView>, calls_len: nat, floors_len: nat) -> bool {
    forall|i: int|
        0 <= i < es.len() ==> {
            &&& (#[trigger] es[i]).wf()
            &&& calls_len <= es[i].floors.len()
            &&& es[i].target < floors_len
        }
}

impl NearestCarDispatchController {
    pub fn new() -> (c: Self)
        ensures
            c@ == (NearestView { initialized: false, directions: Seq::empty() }),
    {
        NearestCarDispatchController { is_initialized: false, directions: Vec::new() }
    }

    /// Distance between the cabin and the height of `target_floor`.
    pub fn calculate_distance(elevator: &Elevator, target_floor: usize) -> (r: u64)
        requires
            target_floor < elevator@.floors.len(),
        ensures
            r == distance(elevator@, target_floor as int),
            r < u64::MAX,
    {
        let target_height = elevator.get_floor_height(target_floor) as i64;
        let height = elevator.get_current_height() as i64;
        let d = target_height - height;
        if d < 0 {
            (-d) as u64
        } else {
            d as u64
        }
    }

    /// Records the heading of an elevator: none once it stands at its floor.
    fn update_direction(&mut self, elevator_idx: usize, elevator: &Elevator)
        requires
            elevator_idx < old(self)@.directions.len(),
        ensures
            final(self)@ == (NearestView {
                directions: old(self)@.directions.update(
                    elevator_idx as int,
                    direction_after(old(self)@.directions[elevator_idx as int], elevator@),
                ),
                ..old(self)@
            }),
    {
        if let Some(current_floor) = elevator.get_current_floor() {
            let target_floor = elevator.get_target_floor();
            let d = if target_floor > current_floor {
                Some(Direction::Up)
            } else if target_floor < current_floor {
                Some(Direction::Down)
            } else {
                None
            };
            self.directions.set(elevator_idx, d);
        } else {
            assert(self.directions@ =~= self.directions@.update(
                elevator_idx as int,
                self.directions@[elevator_idx as int],
            ));
        }
    }

    /// Lets off who arrived, if anybody is on board.
    fn unload_elevator(&self, elevator: &mut Elevator)
        requires
            old(elevator)@.wf(),
        ensures
            final(elevator)@ == (if old(elevator)@.entities.len() > 0 {
                old(elevator)@.unloaded()
            } else {
                old(elevator)@
            }),
            final(elevator)@.wf(),
    {
        if elevator.get_entity_count() > 0 {
            elevator.unload();
        }
    }

    /// Takes on who waits at the floor where the cabin stands and wants to
    /// go its way.
    fn load_elevator(&self, elevator_idx: usize, elevator: &mut Elevator, queue: &mut Queue)
        requires
            elevator_idx < self@.directions.len(),
            old(elevator)@.wf(),
            old(elevator)@.target < old(queue)@.floors.len(),
        ensures
            ({
                let r = load_at_floor(
                    old(elevator)@,
                    true,
                    self@.directions[elevator_idx as int],
                    old(queue)@,
                );
                final(elevator)@ == r.0 && final(queue)@ == r.1
            }),
            final(elevator)@.wf(),
            final(elevator)@.floors == old(elevator)@.floors,
            final(elevator)@.target == old(elevator)@.target,
            final(queue)@.floors.len() == old(queue)@.floors.len(),
    {
        let heading = self.directions[elevator_idx];
        load_at_current_floor(elevator, queue, true, heading);
    }

    /// The elevator that should take the call `direction` of `target_floor`.
    fn find_best_elevator_for_call(
        &self,
        elevators: &Vec<Elevator>,
        target_floor: usize,
        direction: Direction,
    ) -> (r: Option<usize>)
        requires
            elevators@.len() <= self@.directions.len(),
            forall|i: int|
                0 <= i < elevators@.len() ==> target_floor < (#[trigger] elevators@[i])@.floors.len(),
        ensures
            r == best_elevator(
                views(elevators@),
                self@.directions,
                target_floor as int,
                direction,
                elevators@.len() as int,
            ),
            r matches Some(b) ==> b < elevators@.len(),
    {
        let ghost es = views(elevators@);
        let mut best_elevator_idx: Option<usize> = None;
        let mut min_distance: u64 = u64::MAX;
        let n = elevators.len();
        let mut idx: usize = 0;
        while idx < n
            invariant
                n == elevators@.len(),
                n <= self@.directions.len(),
                es == views(elevators@),
                0 <= idx <= n,
                forall|i: int|
                    0 <= i < elevators@.len() ==> target_floor < (#[trigger] elevators@[i])@.floors.len(),
                best_elevator_idx == best_elevator(
                    es,
                    self@.directions,
                    target_floor as int,
                    direction,
                    idx as int,
                ),
                best_elevator_idx matches Some(b) ==> b < idx && min_distance == distance(
                    es[b as int],
                    target_floor as int,
                ),
                best_elevator_idx is None ==> min_distance == u64::MAX,
            decreases n - idx,
        {
            let current_direction = self.directions[idx];
            let can_board = elevators[idx].can_board();
            let is_compatible_direction = match direction {
                Direction::Up => current_direction == Some(Direction::Up) || can_board,
                Direction::Down => current_direction == Some(Direction::Down) || can_board,
                Direction::Both => current_direction == Some(Direction::Up) || current_direction
                    == Some(Direction::Down) || can_board,
                Direction::NoCall => false,
            };
            if is_compatible_direction {
                let distance = Self::calculate_distance(&elevators[idx], target_floor);
                if distance < min_distance {
                    min_distance = distance;
                    best_elevator_idx = Some(idx);
                }
            }
            idx = idx + 1;
        }
        best_elevator_idx
    }

    pub fn is_initialized(&self) -> (r: bool)
        ensures
            r == self@.initialized,
    {
        self.is_initialized
    }

    /// Number of elevators that the controller keeps a heading for.
    pub fn get_direction_count(&self) -> (r: usize)
        ensures
            r == self@.directions.len(),
    {
        self.directions.len()
    }

    /// Sets the controller up for `elevator_count` elevators: a heading for
    /// each, none at first; the floor count is not needed.
    pub fn init(&mut self, elevator_count: usize, floor_count: usize)
        ensures
            final(self)@ == (NearestView {
                initialized: true,
                directions: Seq::new(elevator_count as nat, |i: int| None::<Direction>),
            }),
    {
        let mut directions: Vec<Option<Direction>> = Vec::new();
        let mut i: usize = 0;
        while i < elevator_count
            invariant
                0 <= i <= elevator_count,
                directions@ == Seq::new(i as nat, |j: int| None::<Direction>),
            decreases elevator_count - i,
        {
            directions.push(None);
            i = i + 1;
            assert(directions@ =~= Seq::new(i as nat, |j: int| None::<Direction>));
        }
        self.directions = directions;
        self.is_initialized = true;
    }

    /// One control step: dispatches every hall call to the best elevator,
    /// then lets each cabin unload and load.
    pub fn update(&mut self, elevators: &mut Vec<Elevator>, queue: &mut Queue, calls: Vec<Direction>)
        requires
            old(self)@.initialized,
            old(elevators)@.len() == old(self)@.directions.len(),
            calls@.len() <= old(queue)@.floors.len(),
            cabins_ready(views(old(elevators)@), calls@.len(), old(queue)@.floors.len()),
        ensures
            ({
                let d = dispatch(
                    views(old(elevators)@),
                    old(self)@.directions,
                    calls@,
                    calls@.len() as int,
                );
                let s = serve(d.0, d.1, old(queue)@, d.0.len() as int);
                &&& views(final(elevators)@) == s.0
                &&& final(self)@.directions == s.1
                &&& final(queue)@ == s.2
            }),
            final(self)@.initialized,
            cabins_ready(views(final(elevators)@), calls@.len(), final(queue)@.floors.len()),
            final(queue)@.floors.len() == old(queue)@.floors.len(),
            final(elevators)@.len() == old(elevators)@.len(),
            forall|i: int|
                0 <= i < final(elevators)@.len() ==> (#[trigger] views(final(elevators)@)[i]).floors
                    == views(old(elevators)@)[i].floors,
    {
        let ghost es0 = views(elevators@);
        let ghost dirs0 = self@.directions;
        let ghost q0 = queue@;
        let ghost nq = queue@.floors.len();
        let n = elevators.len();
        let nc = calls.len();
        let mut floor: usize = 0;
        while floor < nc
            invariant
                nc == calls@.len(),
                n == elevators@.len(),
                n == self@.directions.len(),
                0 <= floor <= nc,
                self@.initialized,
                queue@ == q0,
                nc <= nq,
                nq == queue@.floors.len(),
                cabins_ready(views(elevators@), nc as nat, nq),
                (views(elevators@), self@.directions) == dispatch(es0, dirs0, calls@, floor as int),
                forall|i: int| 0 <= i < n ==> (#[trigger] views(elevators@)[i]).floors == es0[i].floors,
            decreases nc - floor,
        {
            let direction = calls[floor];
            if direction != Direction::NoCall {
                assert forall|i: int| 0 <= i < elevators@.len() implies floor < (
                #[trigger] elevators@[i])@.floors.len() by {
                    assert(views(elevators@)[i] == elevators@[i]@);
                }
                let best = self.find_best_elevator_for_call(elevators, floor, direction);
                if let Some(best_elevator_idx) = best {
                    let ghost before = elevators@;
                    elevators[best_elevator_idx].set_target(floor);
                    self.update_direction(best_elevator_idx, &elevators[best_elevator_idx]);
                    proof {
                        assert(elevators@ =~= before.update(
                            best_elevator_idx as int,
                            elevators@[best_elevator_idx as int],
                        ));
                        assert(views(elevators@) =~= views(before).update(
                            best_elevator_idx as int,
                            views(before)[best_elevator_idx as int].with_target(floor as nat),
                        ));
                        assert forall|i: int| 0 <= i < views(elevators@).len() implies {
                            &&& (#[trigger] views(elevators@)[i]).wf()
                            &&& nc <= views(elevators@)[i].floors.len()
                            &&& views(elevators@)[i].target < nq
                        } by {
                            assert(views(before)[i] == before[i]@);
                        }
                    }
                }
            }
            floor = floor + 1;
        }
        let ghost d = (views(elevators@), self@.directions);
        let mut idx: usize = 0;
        while idx < n
            invariant
                n == elevators@.len(),
                n == self@.directions.len(),
                n == d.0.len(),
                0 <= idx <= n,
                self@.initialized,
                nq == queue@.floors.len(),
                nc <= nq,
                cabins_ready(views(elevators@), nc as nat, nq),
                (views(elevators@), self@.directions, queue@) == serve(d.0, d.1, q0, idx as int),
                forall|i: int| 0 <= i < n ==> (#[trigger] views(elevators@)[i]).floors == es0[i].floors,
            decreases n - idx,
        {
            let ghost before = elevators@;
            proof {
                assert(views(elevators@)[idx as int] == elevators@[idx as int]@);
            }
            self.unload_elevator(&mut elevators[idx]);
            self.update_direction(idx, &elevators[idx]);
            self.load_elevator(idx, &mut elevators[idx], queue);
            proof {
                assert(elevators@ =~= before.update(idx as int, elevators@[idx as int]));
                assert(views(elevators@) =~= views(before).update(
                    idx as int,
                    elevators@[idx as int]@,
                ));
                assert forall|i: int| 0 <= i < views(elevators@).len() implies {
                    &&& (#[trigger] views(elevators@)[i]).wf()
                    &&& nc <= views(elevators@)[i].floors.len()
                    &&& views(elevators@)[i].target < nq
                } by {
                    assert(views(before)[i] == before[i]@);
                }
            }
            idx = idx + 1;
        }
    }
}

} // verus!
