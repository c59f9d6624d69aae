//! A controller for exactly two elevators that shuttle in opposite
//! directions: one climbs floor by floor while the other descends, and they
//! swap roles when the climbing one reaches the top floor.
use vstd::prelude::*;
use crate::elevator::{Elevator, ElevatorView};

verus! {

/// The controller as a mathematical value.
pub struct SimpleView {
    /// Index of the elevator that climbs.
    pub up: nat,
    /// The floor the climbing elevator serves next.
    pub target: nat,
    pub initialized: bool,
    /// The top floor.
    pub max_floor: nat,
}

/// Index of the elevator that descends.
pub open spec fn down_of(up: nat) -> nat {
    (1 - up) as nat
}

impl SimpleView {
    pub open spec fn wf(self) -> bool {
        &&& self.up <= 1
        &&& !self.initialized ==> self.target == 0
        &&& self.initialized ==> 1 <= self.max_floor && self.target <= self.max_floor
    }

    /// The controller after the two elevators swapped roles: the shuttle
    /// starts again from the bottom.
    pub open spec fn switched(self) -> SimpleView {
        SimpleView { up: down_of(self.up), target: 0, ..self }
    }

    /// Both elevators stand at the floors they were sent to.
    pub open spec fn both_reached(self, e: Seq<ElevatorView>) -> bool {
        &&& e[self.up as int].current_floor() == Some(self.target as usize)
        &&& e[down_of(self.up) as int].current_floor() == Some(
            (self.max_floor - self.target) as usize,
        )
    }

    /// Whether a step sends the elevators new floors.
    pub open spec fn sends_targets(self, e: Seq<ElevatorView>) -> bool {
        !self.initialized || self.both_reached(e)
    }

    /// The controller after one step with the elevators `e`.
    ///
    /// Until it is set up, the controller sends the descending elevator to
    /// the top floor and the climbing one to the ground floor; once the
    /// descending one stands at the top floor it is set up and the shuttle
    /// starts at floor one.  Afterwards, whenever both elevators stand at
    /// their floors, the climbing one goes a floor up and the other a floor
    /// down; at the top floor they swap roles.
    pub open spec fn next(self, e: Seq<ElevatorView>) -> SimpleView {
        if !self.initialized {
            let max_floor = (e[0].floors.len() - 1) as nat;
            if e[down_of(self.up) as int].docked_floor == Some(max_floor as usize) {
                SimpleView { initialized: true, target: 1, max_floor, ..self }
            } else {
                SimpleView { target: 0, max_floor, ..self }
            }
        } else if self.both_reached(e) {
            if self.target == self.max_floor {
                SimpleView { up: down_of(self.up), target: 1, ..self }
            } else {
                SimpleView { target: self.target + 1, ..self }
            }
        } else {
            self
        }
    }
}

pub struct SimpleElevatorController {
    up_elevator_idx: usize,
    up_current_target: usize,
    initialized: bool,
    max_floor: usize,
}

impl View for SimpleElevatorController {
    type V = SimpleView;

    closed spec fn view(&self) -> SimpleView {
        SimpleView {
            up: self.up_elevator_idx as nat,
            target: self.up_current_target as nat,
            initialized: self.initialized,
            max_floor: self.max_floor as nat,
        }
    }
}

/// The views of the elevators of `v`.
pub open spec fn views(v: Seq<Elevator>) -> Seq<ElevatorView> {
    v.map_values(|e: Elevator| e@)
}

impl SimpleElevatorController {
    pub fn new() -> (c: Self)
        ensures
            c@ == (SimpleView { up: 0, target: 0, initialized: false, max_floor: 0 }),
            c@.wf(),
    {
        Self { up_elevator_idx: 0, up_current_target: 0, initialized: false, max_floor: 0 }
    }

    pub fn get_up_idx(&self) -> (r: usize)
        ensures
            r == self@.up,
    {
        self.up_elevator_idx
    }

    pub fn get_down_idx(&self) -> (r: usize)
        requires
            self@.up <= 1,
        ensures
            r == down_of(self@.up),
    {
        1 - self.up_elevator_idx
    }

    pub fn is_initialized(&self) -> (r: bool)
        ensures
            r == self@.initialized,
    {
        self.initialized
    }

    /// The floor the climbing elevator serves next.
    pub fn get_up_target(&self) -> (r: usize)
        ensures
            r == self@.target,
    {
        self.up_current_target
    }

    pub fn get_max_floor(&self) -> (r: usize)
        ensures
            r == self@.max_floor,
    {
        self.max_floor
    }

    /// The two elevators swap roles and the shuttle starts from the bottom.
    pub fn switch_elevators(&mut self)
        requires
            old(self)@.up <= 1,
        ensures
            final(self)@ == old(self)@.switched(),
    {
        self.up_elevator_idx = 1 - self.up_elevator_idx;
        self.up_current_target = 0;
    }

    /// Sends the climbing elevator to the current target and the descending
    /// one to the mirrored floor.
    fn send_target(&self, elevators: &mut Vec<Elevator>)
        requires
            self@.up <= 1,
            self@.target <= self@.max_floor,
            old(elevators)@.len() == 2,
            self@.max_floor < old(elevators)@[0]@.floors.len(),
            self@.max_floor < old(elevators)@[1]@.floors.len(),
        ensures
            final(elevators)@.len() == 2,
            final(elevators)@[self@.up as int]@ == old(elevators)@[self@.up as int]@.with_target(
                self@.target,
            ),
            final(elevators)@[down_of(self@.up) as int]@ == old(elevators)@[down_of(self@.up) as int]@.with_target((self@.max_floor - self@.target) as nat),
    {
        let up = self.up_elevator_idx;
        let down = 1 - self.up_elevator_idx;
        elevators[up].set_target(self.up_current_target);
        elevators[down].set_target(self.max_floor - self.up_current_target);
    }

    fn are_both_targets_reached(&self, elevators: &Vec<Elevator>) -> (r: bool)
        requires
            self@.up <= 1,
            self@.target <= self@.max_floor,
            elevators@.len() == 2,
        ensures
            r == self@.both_reached(views(elevators@)),
    {
        let up = self.up_elevator_idx;
        let down = 1 - self.up_elevator_idx;
        if elevators[up].get_current_floor() == Some(self.up_current_target) {
            if elevators[down].get_current_floor() == Some(self.max_floor - self.up_current_target) {
                return true;
            }
        }
        false
    }

    /// Sets the controller up: the descending elevator goes to the top
    /// floor; once it stands there the shuttle starts.
    fn init(&mut self, elevators: &mut Vec<Elevator>)
        requires
            old(self)@.wf(),
            !old(self)@.initialized,
            old(elevators)@.len() == 2,
            2 <= old(elevators)@[0]@.floors.len() <= old(elevators)@[1]@.floors.len(),
        ensures
            final(self)@ == old(self)@.next(views(old(elevators)@)),
            final(self)@.wf(),
            final(elevators)@.len() == 2,
            final(elevators)@[final(self)@.up as int]@ == old(elevators)@[final(self)@.up as int]@.with_target(final(self)@.target),
            final(elevators)@[down_of(final(self)@.up) as int]@ == old(elevators)@[down_of(final(self)@.up) as int]@.with_target((final(self)@.max_floor - final(self)@.target) as nat),
    {
        self.max_floor = elevators[0].get_floor_count() - 1;
        self.up_current_target = 0;
        self.send_target(elevators);
        let down = self.get_down_idx();
        if let Some(floor) = elevators[down].get_current_floor() {
            if floor == self.max_floor {
                self.initialized = true;
                self.up_current_target = 1;
                self.send_target(elevators);
            }
        }
    }

    /// One control step for two elevators.
    pub fn update(&mut self, elevators: &mut Vec<Elevator>)
        requires
            old(self)@.wf(),
            old(elevators)@.len() == 2,
            !old(self)@.initialized ==> 2 <= old(elevators)@[0]@.floors.len() <= old(elevators)@[1]@.floors.len(),
            old(self)@.initialized ==> old(self)@.max_floor < old(elevators)@[0]@.floors.len(),
            old(self)@.initialized ==> old(self)@.max_floor < old(elevators)@[1]@.floors.len(),
        ensures
            final(self)@ == old(self)@.next(views(old(elevators)@)),
            final(self)@.wf(),
            final(elevators)@.len() == 2,
            old(self)@.sends_targets(views(old(elevators)@)) ==> {
                &&& final(elevators)@[final(self)@.up as int]@ == old(elevators)@[final(self)@.up as int]@.with_target(final(self)@.target)
                &&& final(elevators)@[down_of(final(self)@.up) as int]@ == old(elevators)@[down_of(final(self)@.up) as int]@.with_target(
                    (final(self)@.max_floor - final(self)@.target) as nat,
                )
            },
            !old(self)@.sends_targets(views(old(elevators)@)) ==> final(elevators)@ == old(elevators)@,
    {
        if !self.initialized {
            self.init(elevators);
            return;
        }
        if self.are_both_targets_reached(elevators) {
            if self.up_current_target == self.max_floor {
                self.switch_elevators();
            }
            self.up_current_target = self.up_current_target + 1;
            self.send_target(elevators);
        }
    }
}

} // verus!
