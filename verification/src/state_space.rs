//! The state that the learning controller observes: per elevator its floor,
//! target, speed, load, area and the destinations on board, and per floor
//! whether up and down are called.
use vstd::prelude::*;
use crate::direction::{Direction, calls_down, calls_up};
use crate::elevator::{Elevator, ElevatorView};
use crate::simple_controller::views;

verus! {

/// What one elevator looks like to the learning controller.
pub struct ElevatorState {
    current_floor: i32,
    target_floor: usize,
    speed: i32,
    current_load: u64,
    area: u64,
    inner_target_floors: Vec<bool>,
}

/// Every passenger on board goes to a floor of the building.
pub open spec fn destinations_in_range(e: ElevatorView) -> bool {
    forall|i: int| 0 <= i < e.entities.len() ==> (#[trigger] e.entities[i]).destination() < e.floors.len()
}

/// Whether some passenger on board goes to `floor`.
pub open spec fn someone_bound_for(e: ElevatorView, floor: int) -> bool {
    exists|i: int| 0 <= i < e.entities.len() && (#[trigger] e.entities[i]).destination() == floor
}

impl ElevatorState {
    /// The observation of `elevator`: its floor (or `-1` while it moves), its
    /// target, speed, load and area measure, and for each floor whether a
    /// passenger on board goes there.
    pub fn new(elevator: &Elevator) -> (s: Self)
        requires
            destinations_in_range(elevator@),
        ensures
            s.observes(elevator@),
    {
        let current_floor = match elevator.get_current_floor() {
            Some(floor) => floor as i32,
            None => -1i32,
        };
        Self {
            current_floor,
            speed: elevator.get_current_speed(),
            target_floor: elevator.get_target_floor(),
            current_load: elevator.get_current_load(),
            area: elevator.get_available_area(),
            inner_target_floors: Self::calc_inner_target_floors(elevator),
        }
    }

    /// Whether this is the observation of the cabin `e`: its floor (or `-1`
    /// while it cannot board), its target, speed, load and area measure, and
    /// for each floor whether a passenger on board goes there.
    pub open spec fn observes(&self, e: ElevatorView) -> bool {
        &&& self.current_floor() == (match e.current_floor() {
            Some(f) => f as i32,
            None => -1i32,
        })
        &&& self.target_floor() == e.target
        &&& self.speed() == e.speed
        &&& self.current_load() == e.load
        &&& self.area() == e.area
        &&& self.inner_target_floors().len() == e.floors.len()
        &&& forall|f: int|
            0 <= f < e.floors.len() ==> #[trigger] self.inner_target_floors()[f]
                == someone_bound_for(e, f)
    }

    pub closed spec fn current_floor(&self) -> i32 {
        self.current_floor
    }

    pub closed spec fn target_floor(&self) -> nat {
        self.target_floor as nat
    }

    pub closed spec fn speed(&self) -> int {
        self.speed as int
    }

    pub closed spec fn current_load(&self) -> nat {
        self.current_load as nat
    }

    pub closed spec fn area(&self) -> nat {
        self.area as nat
    }

    pub closed spec fn inner_target_floors(&self) -> Seq<bool> {
        self.inner_target_floors@
    }

    pub fn get_current_floor(&self) -> (r: i32)
        ensures
            r == self.current_floor(),
    {
        self.current_floor
    }

    pub fn get_target_floor(&self) -> (r: usize)
        ensures
            r == self.target_floor(),
    {
        self.target_floor
    }

    pub fn get_speed(&self) -> (r: i32)
        ensures
            r == self.speed(),
    {
        self.speed
    }

    pub fn get_current_load(&self) -> (r: u64)
        ensures
            r == self.current_load(),
    {
        self.current_load
    }

    pub fn get_area(&self) -> (r: u64)
        ensures
            r == self.area(),
    {
        self.area
    }

    pub fn get_inner_target_floors(&self) -> (r: &Vec<bool>)
        ensures
            r@ == self.inner_target_floors(),
    {
        &self.inner_target_floors
    }

    /// Number of values an elevator contributes to the observation: floor,
    /// speed, target, load, area, and one per floor.
    pub fn var_count(floor_count: usize) -> (r: usize)
        requires
            floor_count + 5 <= usize::MAX,
        ensures
            r == 5 + floor_count,
    {
        2 + 1 + 1 + 1 + floor_count
    }

    /// Whether every passenger on board of `elevator` goes to a floor of the
    /// building, so that the elevator can be observed.
    pub fn can_observe(elevator: &Elevator) -> (r: bool)
        ensures
            r == destinations_in_range(elevator@),
    {
        let targets = elevator.get_target_floors();
        let floor_count = elevator.get_floor_count();
        let n = targets.len();
        let mut i: usize = 0;
        while i < n
            invariant
                n == targets@.len(),
                n == elevator@.entities.len(),
                floor_count == elevator@.floors.len(),
                forall|j: int|
                    0 <= j < n ==> #[trigger] targets@[j] == elevator@.entities[j].destination(),
                0 <= i <= n,
                forall|j: int| 0 <= j < i ==> (#[trigger] elevator@.entities[j]).destination() < floor_count,
            decreases n - i,
        {
            if targets[i] >= floor_count {
                assert(targets@[i as int] == elevator@.entities[i as int].destination());
                return false;
            }
            i = i + 1;
        }
        true
    }

    /// For each floor, whether a passenger on board goes there.
    pub fn calc_inner_target_floors(elevator: &Elevator) -> (r: Vec<bool>)
        requires
            destinations_in_range(elevator@),
        ensures
            r@.len() == elevator@.floors.len(),
            forall|f: int|
                0 <= f < elevator@.floors.len() ==> #[trigger] r@[f] == someone_bound_for(
                    elevator@,
                    f,
                ),
    {
        let mut inner_target_floors: Vec<bool> = Vec::new();
        let floor_count = elevator.get_floor_count();
        let mut f: usize = 0;
        while f < floor_count
            invariant
                floor_count == elevator@.floors.len(),
                0 <= f <= floor_count,
                inner_target_floors@.len() == f,
                forall|j: int| 0 <= j < f ==> !(#[trigger] inner_target_floors@[j]),
            decreases floor_count - f,
        {
            inner_target_floors.push(false);
            f = f + 1;
        }
        let targets = elevator.get_target_floors();
        let n = targets.len();
        let mut i: usize = 0;
        while i < n
            invariant
                n == targets@.len(),
                n == elevator@.entities.len(),
                floor_count == elevator@.floors.len(),
                inner_target_floors@.len() == floor_count,
                destinations_in_range(elevator@),
                forall|j: int|
                    0 <= j < n ==> #[trigger] targets@[j] == elevator@.entities[j].destination(),
                0 <= i <= n,
                forall|g: int|
                    0 <= g < floor_count ==> #[trigger] inner_target_floors@[g] == exists|j: int|
                        0 <= j < i && elevator@.entities[j].destination() == g,
            decreases n - i,
        {
            let target_floor = targets[i];
            assert(elevator@.entities[i as int].destination() < floor_count);
            inner_target_floors.set(target_floor, true);
            proof {
                assert forall|g: int| 0 <= g < floor_count implies #[trigger] inner_target_floors@[g]
                    == exists|j: int| 0 <= j < i + 1 && elevator@.entities[j].destination() == g by {
                    if g == target_floor {
                        assert(elevator@.entities[i as int].destination() == g);
                    } else {
                        if exists|j: int| 0 <= j < i + 1 && elevator@.entities[j].destination() == g {
                            let j = choose|j: int| 0 <= j < i + 1 && elevator@.entities[j].destination() == g;
                            assert(j != i);
                        }
                    }
                }
            }
            i = i + 1;
        }
        inner_target_floors
    }
}

/// What the whole system looks like to the learning controller.
pub struct SystemState {
    elevator_states: Vec<ElevatorState>,
    upwards_calls: Vec<bool>,
    downwards_calls: Vec<bool>,
}

impl SystemState {
    /// The observation of the system: each elevator's observation, the
    /// floors calling up and the floors calling down.
    pub fn new(elevators: &Vec<Elevator>, calls: Vec<Direction>) -> (s: Self)
        requires
            forall|i: int| 0 <= i < elevators@.len() ==> destinations_in_range(#[trigger] elevators@[i]@),
        ensures
            s.elevator_states().len() == elevators@.len(),
            forall|i: int|
                0 <= i < elevators@.len() ==> (#[trigger] s.elevator_states()[i]).observes(
                    elevators@[i]@,
                ),
            s.upwards_calls() == calls@.map_values(|d: Direction| calls_up(d)),
            s.downwards_calls() == calls@.map_values(|d: Direction| calls_down(d)),
    {
        let (upwards_calls, downwards_calls) = Self::parse_calls(calls);
        let mut elevator_states: Vec<ElevatorState> = Vec::new();
        let n = elevators.len();
        let mut i: usize = 0;
        while i < n
            invariant
                n == elevators@.len(),
                0 <= i <= n,
                forall|j: int| 0 <= j < n ==> destinations_in_range(#[trigger] elevators@[j]@),
                elevator_states@.len() == i,
                forall|j: int|
                    0 <= j < i ==> (#[trigger] elevator_states@[j]).observes(elevators@[j]@),
            decreases n - i,
        {
            elevator_states.push(ElevatorState::new(&elevators[i]));
            i = i + 1;
        }
        SystemState { elevator_states, upwards_calls, downwards_calls }
    }

    pub closed spec fn elevator_states(&self) -> Seq<ElevatorState> {
        self.elevator_states@
    }

    pub closed spec fn upwards_calls(&self) -> Seq<bool> {
        self.upwards_calls@
    }

    pub closed spec fn downwards_calls(&self) -> Seq<bool> {
        self.downwards_calls@
    }

    pub fn get_elevator_states(&self) -> (r: &Vec<ElevatorState>)
        ensures
            r@ == self.elevator_states(),
    {
        &self.elevator_states
    }

    pub fn get_upwards_calls(&self) -> (r: &Vec<bool>)
        ensures
            r@ == self.upwards_calls(),
    {
        &self.upwards_calls
    }

    pub fn get_downwards_calls(&self) -> (r: &Vec<bool>)
        ensures
            r@ == self.downwards_calls(),
    {
        &self.downwards_calls
    }

    /// Number of values in the observation of a system: those of each
    /// elevator and two per floor.
    pub fn var_count(elevator_count: usize, floor_count: usize) -> (r: usize)
        requires
            (5 + floor_count) * elevator_count + 2 * floor_count <= usize::MAX,
        ensures
            r == (5 + floor_count) * elevator_count + 2 * floor_count,
    {
        proof {
            assert((5 + floor_count) * elevator_count <= usize::MAX) by (nonlinear_arith)
                requires
                    (5 + floor_count) * elevator_count + 2 * floor_count <= usize::MAX,
                    floor_count >= 0,
            ;
        }
        ElevatorState::var_count(floor_count) * elevator_count + 2 * floor_count
    }

    /// Splits the calls into the floors calling up and those calling down.
    pub fn parse_calls(calls: Vec<Direction>) -> (r: (Vec<bool>, Vec<bool>))
        ensures
            r.0@ == calls@.map_values(|d: Direction| calls_up(d)),
            r.1@ == calls@.map_values(|d: Direction| calls_down(d)),
    {
        let mut upwards_calls: Vec<bool> = Vec::new();
        let mut downwards_calls: Vec<bool> = Vec::new();
        let n = calls.len();
        let mut i: usize = 0;
        while i < n
            invariant
                n == calls@.len(),
                0 <= i <= n,
                upwards_calls@ == calls@.take(i as int).map_values(|d: Direction| calls_up(d)),
                downwards_calls@ == calls@.take(i as int).map_values(|d: Direction| calls_down(d)),
            decreases n - i,
        {
            match calls[i] {
                Direction::Up => {
                    upwards_calls.push(true);
                    downwards_calls.push(false);
                },
                Direction::Down => {
                    upwards_calls.push(false);
                    downwards_calls.push(true);
                },
                Direction::Both => {
                    upwards_calls.push(true);
                    downwards_calls.push(true);
                },
                Direction::NoCall => {
                    upwards_calls.push(false);
                    downwards_calls.push(false);
                },
            }
            proof {
                assert(calls@.take(i + 1) =~= calls@.take(i as int).push(calls@[i as int]));
            }
            i = i + 1;
            assert(upwards_calls@ =~= calls@.take(i as int).map_values(|d: Direction| calls_up(d)));
            assert(downwards_calls@ =~= calls@.take(i as int).map_values(
                |d: Direction| calls_down(d),
            ));
        }
        assert(calls@.take(n as int) =~= calls@);
        (upwards_calls, downwards_calls)
    }
}

} // verus!
