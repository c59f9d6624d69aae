//! The elevator system: floors, hall queues, cabins, a population
//! generator and a controller, advanced one time step at a time.
//!
//! How cabins move is computed outside the system by a motion model, which
//! reports back through `set_elevator_motion`.
use vstd::prelude::*;
use crate::boarding::{load_at_current_floor, load_at_floor};
use crate::direction::{Direction, call_code_spec, call_codes};
use crate::elevator::{Elevator, ElevatorParameters, ElevatorView, new_cabin};
use crate::entity::{Entity, EntityView};
use crate::generator::{
    AttemptDraws,
    GeneratorView,
    attempts_for,
    draws_ok,
    PopulationGenerator,
    PopulationTables,
    gen_views,
    group_people,
    saturating_u32,
};
use crate::nearest_car::{
    NearestCarDispatchController,
    NearestView,
    cabins_ready,
    dispatch,
    serve,
};
use crate::queue::{Queue, QueueView, floor_call, floors_waited};
use crate::simple_controller::{SimpleElevatorController, SimpleView, down_of, views};
use crate::population::MILLION;

verus! {

/// The parameters of a system.
pub struct ElevatorSystemParameters {
    /// Heights of the floors, in millimetres.
    pub floors: Vec<u32>,
    /// The parameters of each elevator.
    pub elevators: Vec<ElevatorParameters>,
    /// Gravitational acceleration, in millimetres per second squared.
    pub gravity: u32,
    /// Hour of day at the start.
    pub time_of_day: u32,
    /// Length of a time step, in milliseconds.
    pub time_step: u64,
    /// Length of a simulated hour, in milliseconds.
    pub hour_length: u64,
    /// The simulation ends once this many people were generated and all
    /// were carried.
    pub max_human_count: u32,
}

/// Who decides where the cabins go.
pub enum Controller {
    Simple(SimpleElevatorController),
    NearestCar(NearestCarDispatchController),
    /// The caller sends the cabins and boards passengers after each step,
    /// through `set_elevator_target`, `unload_elevator` and
    /// `load_elevator_all`.
    Delegated,
}

pub enum ControllerView {
    Simple(SimpleView),
    NearestCar(NearestView),
    Delegated,
}

impl View for Controller {
    type V = ControllerView;

    open spec fn view(&self) -> ControllerView {
        match self {
            Controller::Simple(c) => ControllerView::Simple(c@),
            Controller::NearestCar(c) => ControllerView::NearestCar(c@),
            Controller::Delegated => ControllerView::Delegated,
        }
    }
}

/// The cabins after the simple controller's step.
pub open spec fn simple_cabins(c: SimpleView, es: Seq<ElevatorView>) -> Seq<ElevatorView> {
    if c.sends_targets(es) {
        let n = c.next(es);
        es.update(n.up as int, es[n.up as int].with_target(n.target)).update(
            down_of(n.up) as int,
            es[down_of(n.up) as int].with_target((n.max_floor - n.target) as nat),
        )
    } else {
        es
    }
}

/// Whether the controller can take a step with the cabins `es` and queues
/// of `floor_count` floors without failing.
pub open spec fn controller_ready(c: ControllerView, es: Seq<ElevatorView>, floor_count: nat) -> bool {
    match c {
        ControllerView::Simple(s) => {
            &&& s.wf()
            &&& es.len() == 2
            &&& !s.initialized ==> 2 <= es[0].floors.len() <= es[1].floors.len()
            &&& s.initialized ==> s.max_floor < es[0].floors.len() && s.max_floor < es[1].floors.len()
        },
        ControllerView::NearestCar(n) => {
            &&& n.initialized
            &&& es.len() == n.directions.len()
            &&& cabins_ready(es, floor_count, floor_count)
        },
        ControllerView::Delegated => true,
    }
}

/// The controller, cabins and queues after the controller's step with the
/// hall calls `calls`.
pub open spec fn controller_step(
    c: ControllerView,
    es: Seq<ElevatorView>,
    q: QueueView,
    calls: Seq<Direction>,
) -> (ControllerView, Seq<ElevatorView>, QueueView) {
    match c {
        ControllerView::Simple(s) => (ControllerView::Simple(s.next(es)), simple_cabins(s, es), q),
        ControllerView::NearestCar(n) => {
            let d = dispatch(es, n.directions, calls, calls.len() as int);
            let r = serve(d.0, d.1, q, d.0.len() as int);
            (ControllerView::NearestCar(NearestView { directions: r.1, ..n }), r.0, r.2)
        },
        ControllerView::Delegated => (c, es, q),
    }
}

/// The hall calls of queues `floors`.
pub open spec fn calls_of(floors: Seq<Seq<EntityView>>) -> Seq<Direction> {
    Seq::new(floors.len(), |f: int| floor_call(floors[f], f as nat))
}

/// The queues after the passengers `arrivals` joined them, in order.
pub open spec fn arrive(floors: Seq<Seq<EntityView>>, arrivals: Seq<(usize, EntityView)>) -> Seq<
    Seq<EntityView>,
>
    decreases arrivals.len(),
{
    if arrivals.len() == 0 {
        floors
    } else {
        let before = arrive(floors, arrivals.drop_last());
        let (f, e) = arrivals.last();
        before.update(f as int, before[f as int].push(e))
    }
}

/// What the generator's `generate` promises: `g1` and `arrivals` are a
/// possible outcome of generating from `g0` at hour `time` over `delta_time`
/// milliseconds of an hour of `hour_length` milliseconds: the arrivals are
/// what one attempt per whole owed passenger yields for some random draws
/// within their ranges.
pub open spec fn generated(
    g0: GeneratorView,
    g1: GeneratorView,
    arrivals: Seq<(usize, EntityView)>,
    time: nat,
    delta_time: nat,
    hour_length: nat,
) -> bool {
    let acc = g0.accumulated_after(time, delta_time, hour_length);
    &&& acc < MILLION ==> arrivals.len() == 0
    &&& arrivals.len() * MILLION <= acc
    &&& g1 == (GeneratorView {
        accumulated: (acc - arrivals.len() * MILLION) as nat,
        remainder: g0.remainder_after(time, delta_time, hour_length),
        total_entity_generated: saturating_u32(g0.total_entity_generated + arrivals.len()),
        total_human_generated: saturating_u32(g0.total_human_generated + group_people(arrivals)),
        ..g0
    })
    &&& forall|i: int| 0 <= i < arrivals.len() ==> g0.entity_ok((#[trigger] arrivals[i]).0 as nat, arrivals[i].1)
    &&& exists|ds: Seq<AttemptDraws>|
        {
            &&& ds.len() == (if acc < MILLION { 0 } else { attempts_for(acc) })
            &&& forall|i: int| 0 <= i < ds.len() ==> draws_ok(#[trigger] ds[i], g0.floor_count)
            &&& arrivals == g0.outcomes(ds, time)
        }
}

pub proof fn lemma_arrive_len(floors: Seq<Seq<EntityView>>, arrivals: Seq<(usize, EntityView)>)
    requires
        forall|i: int| 0 <= i < arrivals.len() ==> ((#[trigger] arrivals[i]).0 as nat) < floors.len(),
    ensures
        arrive(floors, arrivals).len() == floors.len(),
    decreases arrivals.len(),
{
    if arrivals.len() > 0 {
        let a = arrivals.drop_last();
        assert forall|i: int| 0 <= i < a.len() implies ((#[trigger] a[i]).0 as nat) < floors.len() by {
            assert(a[i] == arrivals[i]);
        }
        lemma_arrive_len(floors, a);
        assert(arrivals.last() == arrivals[arrivals.len() - 1]);
    }
}

/// The system as a mathematical value.
pub struct SystemView {
    pub floor_heights: Seq<u32>,
    pub controller: ControllerView,
    pub queue: QueueView,
    pub generator: GeneratorView,
    pub elevators: Seq<ElevatorView>,
    pub time_of_day: nat,
    pub time_step: nat,
    pub hour_length: nat,
    pub total_time: nat,
    pub max_human_count: nat,
}

impl SystemView {
    pub open spec fn wf(self) -> bool {
        &&& self.queue.floors.len() == self.floor_heights.len()
        &&& self.generator.floor_count == self.floor_heights.len()
        &&& forall|i: int| 0 <= i < self.elevators.len() ==> (#[trigger] self.elevators[i]).wf()
        &&& forall|i: int|
            0 <= i < self.elevators.len() ==> (#[trigger] self.elevators[i]).target
                < self.floor_heights.len()
        &&& forall|i: int|
            0 <= i < self.elevators.len() ==> (#[trigger] self.elevators[i]).floors.len()
                == self.floor_heights.len()
    }

    /// The simulation is over: enough people were generated, no cabin
    /// carries anyone and no queue holds anyone.
    pub open spec fn finished(self) -> bool {
        &&& self.generator.total_human_generated >= self.max_human_count
        &&& forall|i: int| 0 <= i < self.elevators.len() ==> (#[trigger] self.elevators[i]).entities.len() == 0
        &&& forall|f: int| 0 <= f < self.queue.floors.len() ==> (#[trigger] self.queue.floors[f]).len() == 0
    }

    /// Total time after the next step.
    pub open spec fn next_total_time(self) -> nat {
        self.total_time + self.time_step
    }

    /// Hour of day after the next step: it grows by the number of whole
    /// hours passed, modulo a day.
    pub open spec fn next_time_of_day(self) -> nat {
        self.time_of_day + (self.next_total_time() / self.hour_length) % 24
    }

    /// The system after the clock of the next step.
    pub open spec fn clocked(self) -> SystemView {
        SystemView {
            total_time: self.next_total_time(),
            time_of_day: self.next_time_of_day(),
            ..self
        }
    }

    /// The system after a step, given who arrived and the generator after
    /// generating them: the arrivals join their queues, every waiting
    /// passenger waits one time step more, and the controller takes its step
    /// with the hall calls of the queues.
    pub open spec fn stepped(self, arrivals: Seq<(usize, EntityView)>, g1: GeneratorView) -> SystemView {
        let c = self.clocked();
        let q1 = QueueView {
            floors: floors_waited(arrive(c.queue.floors, arrivals), c.time_step),
            wait_times: c.queue.wait_times,
        };
        let st = controller_step(c.controller, c.elevators, q1, calls_of(q1.floors));
        SystemView { controller: st.0, elevators: st.1, queue: st.2, generator: g1, ..c }
    }

    /// Whether a step can run without failing: the hour has a length, the
    /// clock fits its counters, and unless the simulation is over, the
    /// generator can create people if it has to and the controller can take
    /// its step.
    pub open spec fn step_ready(self) -> bool {
        &&& self.wf()
        &&& self.hour_length > 0
        &&& self.next_total_time() <= u64::MAX
        &&& self.next_time_of_day() <= u32::MAX
        &&& !self.finished() ==> {
            &&& (self.generator.total_human_generated < self.max_human_count
                ==> self.generator.can_generate() || self.generator.accumulated_after(
                self.next_time_of_day(),
                self.time_step,
                self.hour_length,
            ) < MILLION)
            &&& controller_ready(self.controller, self.elevators, self.floor_heights.len())
        }
    }
}

pub struct ElevatorSystem {
    floor_heights: Vec<u32>,
    controller: Controller,
    queue: Queue,
    pop_gen: PopulationGenerator,
    elevators: Vec<Elevator>,
    time_of_day: u32,
    time_step: u64,
    hour_length: u64,
    total_time_passed: u64,
    max_human_count: u32,
}

impl View for ElevatorSystem {
    type V = SystemView;

    closed spec fn view(&self) -> SystemView {
        SystemView {
            floor_heights: self.floor_heights@,
            controller: self.controller@,
            queue: self.queue@,
            generator: self.pop_gen@,
            elevators: views(self.elevators@),
            time_of_day: self.time_of_day as nat,
            time_step: self.time_step as nat,
            hour_length: self.hour_length as nat,
            total_time: self.total_time_passed as nat,
            max_human_count: self.max_human_count as nat,
        }
    }
}

impl ElevatorSystem {
    /// A system with one cabin per elevator parameter set, all serving the
    /// system's floors, empty queues, a population generator built from
    /// `population`, and the controller set up for the elevators and floors.
    pub fn new(
        controller: Controller,
        parameters: ElevatorSystemParameters,
        population: PopulationTables,
    ) -> (s: Self)
        requires
            forall|i: int|
                0 <= i < parameters.elevators@.len() ==> (#[trigger] parameters.elevators@[i]).elevator_mass
                    + parameters.elevators@[i].elevator_counter_mass
                    + parameters.elevators@[i].max_load <= u64::MAX,
        ensures
            s@.wf() || parameters.floors@.len() == 0,
            s@.floor_heights == parameters.floors@,
            s@.elevators.len() == parameters.elevators@.len(),
            forall|i: int|
                0 <= i < s@.elevators.len() ==> #[trigger] s@.elevators[i] == new_cabin(
                    parameters.floors@,
                    parameters.gravity,
                    parameters.elevators@[i],
                ) && s@.elevators[i].wf(),
            s@.queue.floors == Seq::new(
                parameters.floors@.len(),
                |i: int| Seq::<EntityView>::empty(),
            ),
            s@.queue.wait_times.len() == 0,
            s@.generator == (GeneratorView {
                avg_passenger_by_time: population.avg_passenger_by_time@,
                floor_count: parameters.floors@.len(),
                female_weights: population.avg_female_weight.entries(),
                male_weights: population.avg_male_weight.entries(),
                commute: population.commute_by_age.entries(),
                accumulated: 0,
                remainder: 0,
                total_entity_generated: 0,
                total_human_generated: 0,
            }),
            s@.time_of_day == parameters.time_of_day,
            s@.time_step == parameters.time_step,
            s@.hour_length == parameters.hour_length,
            s@.total_time == 0,
            s@.max_human_count == parameters.max_human_count,
            s@.controller == match controller@ {
                ControllerView::NearestCar(_) => ControllerView::NearestCar(
                    NearestView {
                        initialized: true,
                        directions: Seq::new(
                            parameters.elevators@.len(),
                            |i: int| None::<Direction>,
                        ),
                    },
                ),
                c => c,
            },
    {
        let ElevatorSystemParameters {
            floors,
            elevators: elevator_parameters,
            gravity,
            time_of_day,
            time_step,
            hour_length,
            max_human_count,
        } = parameters;
        let ghost eps = elevator_parameters@;
        let mut elevators: Vec<Elevator> = Vec::new();
        let mut params = elevator_parameters;
        let mut reversed: Vec<ElevatorParameters> = Vec::new();
        while params.len() > 0
            invariant
                reversed@.len() + params@.len() == eps.len(),
                forall|i: int| 0 <= i < params@.len() ==> #[trigger] params@[i] == eps[i],
                forall|i: int|
                    0 <= i < reversed@.len() ==> #[trigger] reversed@[i] == eps[eps.len() - 1 - i],
            decreases params@.len(),
        {
            let p = params.pop().unwrap();
            reversed.push(p);
        }
        while reversed.len() > 0
            invariant
                elevators@.len() + reversed@.len() == eps.len(),
                forall|j: int|
                    0 <= j < reversed@.len() ==> #[trigger] reversed@[j] == eps[eps.len() - 1 - j],
                forall|j: int|
                    0 <= j < eps.len() ==> (#[trigger] eps[j]).elevator_mass
                        + eps[j].elevator_counter_mass + eps[j].max_load <= u64::MAX,
                forall|j: int|
                    0 <= j < elevators@.len() ==> (#[trigger] elevators@[j])@ == new_cabin(
                        floors@,
                        gravity,
                        eps[j],
                    ) && elevators@[j]@.wf(),
            decreases reversed@.len(),
        {
            let ghost k = reversed@.len() - 1;
            let p = reversed.pop().unwrap();
            assert(p == eps[eps.len() - 1 - k]);
            elevators.push(Elevator::new(floors.clone(), gravity, p));
        }
        let floor_count = floors.len();
        let mut controller = controller;
        match &mut controller {
            Controller::NearestCar(c) => {
                c.init(elevators.len(), floor_count);
            },
            _ => {},
        }
        let pop_gen = PopulationGenerator::new(
            floor_count,
            population.avg_passenger_by_time,
            population.commute_by_age,
            population.avg_female_weight,
            population.avg_male_weight,
        );
        let s = ElevatorSystem {
            floor_heights: floors,
            controller,
            queue: Queue::new(floor_count),
            pop_gen,
            elevators,
            time_of_day,
            time_step,
            hour_length,
            total_time_passed: 0,
            max_human_count,
        };
        proof {
            assert forall|j: int| 0 <= j < s@.elevators.len() implies #[trigger] s@.elevators[j]
                == new_cabin(floors@, gravity, eps[j]) && s@.elevators[j].wf() by {
                assert(s@.elevators[j] == s.elevators@[j]@);
            }
        }
        s
    }

    /// Simulated time so far, in milliseconds.
    pub fn get_total_time(&self) -> (r: u64)
        ensures
            r == self@.total_time,
    {
        self.total_time_passed
    }

    pub fn get_time_of_day(&self) -> (r: u32)
        ensures
            r == self@.time_of_day,
    {
        self.time_of_day
    }

    /// Length of a time step, in milliseconds.
    pub fn get_delta_time(&self) -> (r: u64)
        ensures
            r == self@.time_step,
    {
        self.time_step
    }

    /// Sum of the queue waiting times of everyone who left a queue, in
    /// milliseconds.
    pub fn get_total_wait_time(&self) -> (r: u128)
        ensures
            r == sum_u64(self@.queue.wait_times),
    {
        let waits = self.queue.wait_times();
        let n = waits.len();
        let mut total: u128 = 0;
        let mut i: usize = 0;
        while i < n
            invariant
                n == waits@.len(),
                waits@ == self@.queue.wait_times,
                0 <= i <= n,
                total == sum_u64(waits@.take(i as int)),
                total <= i * (u64::MAX as nat),
            decreases n - i,
        {
            proof {
                assert(waits@.take(i + 1).drop_last() =~= waits@.take(i as int));
                assert(i * (u64::MAX as nat) + u64::MAX <= u128::MAX) by (nonlinear_arith)
                    requires
                        i < n,
                        n <= usize::MAX,
                ;
            }
            total = total + waits[i] as u128;
            i = i + 1;
        }
        assert(waits@.take(n as int) =~= waits@);
        total
    }

    /// Whether the simulation is over.
    pub fn is_finished(&self) -> (r: bool)
        ensures
            r == self@.finished(),
    {
        if self.pop_gen.get_human_generated() < self.max_human_count {
            return false;
        }
        let n = self.elevators.len();
        let mut i: usize = 0;
        while i < n
            invariant
                n == self.elevators@.len(),
                0 <= i <= n,
                forall|j: int| 0 <= j < i ==> (#[trigger] self@.elevators[j]).entities.len() == 0,
            decreases n - i,
        {
            assert(self@.elevators[i as int] == self.elevators@[i as int]@);
            if self.elevators[i].get_entity_count() > 0 {
                return false;
            }
            i = i + 1;
        }
        if !self.queue.is_empty() {
            proof {
                let f = choose|f: int|
                    0 <= f < self.queue@.floors.len() && !(self.queue@.floors[f].len() == 0);
                assert(self@.queue.floors[f].len() != 0);
            }
            return false;
        }
        true
    }

    /// The hall call of every floor.
    pub fn get_call_buttons(&self) -> (r: Vec<Direction>)
        ensures
            r@ == calls_of(self@.queue.floors),
    {
        let r = self.queue.call_buttons();
        assert(r@ =~= calls_of(self@.queue.floors));
        r
    }

    /// Copies of the cabins.
    pub fn get_elevators(&self) -> (r: Vec<Elevator>)
        ensures
            views(r@) == self@.elevators,
    {
        let mut result: Vec<Elevator> = Vec::new();
        let n = self.elevators.len();
        let mut i: usize = 0;
        while i < n
            invariant
                n == self.elevators@.len(),
                0 <= i <= n,
                result@.len() == i,
                forall|j: int| 0 <= j < i ==> #[trigger] result@[j]@ == self.elevators@[j]@,
            decreases n - i,
        {
            result.push(self.elevators[i].clone_elevator());
            i = i + 1;
        }
        assert(views(result@) =~= self@.elevators);
        result
    }

    pub fn get_elevator_count(&self) -> (r: usize)
        ensures
            r == self@.elevators.len(),
    {
        self.elevators.len()
    }

    pub fn get_elevator(&self, idx: usize) -> (r: &Elevator)
        requires
            idx < self@.elevators.len(),
        ensures
            r@ == self@.elevators[idx as int],
    {
        &self.elevators[idx]
    }

    pub fn get_queue(&self) -> (r: &Queue)
        ensures
            r@ == self@.queue,
    {
        &self.queue
    }

    pub fn get_controller(&self) -> (r: &Controller)
        ensures
            r@ == self@.controller,
    {
        &self.controller
    }

    pub fn get_generator(&self) -> (r: &PopulationGenerator)
        ensures
            r@ == self@.generator,
    {
        &self.pop_gen
    }

    /// Whether `update` can run: the system is consistent, the clock fits
    /// its counters, passengers can be generated if any are owed, and the
    /// controller can take its step.
    pub fn can_update(&self) -> (r: bool)
        ensures
            r == self@.step_ready(),
    {
        let fc = self.floor_heights.len();
        if self.queue.get_floor_count() != fc || self.pop_gen.get_floor_count() != fc
            || self.hour_length == 0 {
            return false;
        }
        let n = self.elevators.len();
        let mut i: usize = 0;
        while i < n
            invariant
                n == self.elevators@.len(),
                fc == self.floor_heights@.len(),
                0 <= i <= n,
                forall|j: int|
                    0 <= j < i ==> {
                        &&& (#[trigger] self@.elevators[j]).wf()
                        &&& self@.elevators[j].target < fc
                        &&& self@.elevators[j].floors.len() == fc
                    },
            decreases n - i,
        {
            assert(self@.elevators[i as int] == self.elevators@[i as int]@);
            let e = &self.elevators[i];
            if !e.is_consistent() || e.get_target_floor() >= fc || e.get_floor_count() != fc {
                return false;
            }
            i = i + 1;
        }
        assert(self@.wf());
        if self.total_time_passed > u64::MAX - self.time_step {
            return false;
        }
        let total = self.total_time_passed + self.time_step;
        let hours = (total / self.hour_length) % 24;
        if self.time_of_day as u64 + hours > u32::MAX as u64 {
            return false;
        }
        let next_time_of_day = (self.time_of_day as u64 + hours) as u32;
        if self.is_finished() {
            return true;
        }
        if self.pop_gen.get_human_generated() < self.max_human_count {
            if !self.pop_gen.can_generate() && self.pop_gen.accumulated_after(
                next_time_of_day,
                self.time_step,
                self.hour_length,
            ) >= MILLION {
                return false;
            }
        }
        match &self.controller {
            Controller::Simple(c) => {
                let up = c.get_up_idx();
                let target = c.get_up_target();
                let max_floor = c.get_max_floor();
                let initialized = c.is_initialized();
                if up > 1 || (!initialized && target != 0) || (initialized && (max_floor < 1
                    || target > max_floor)) {
                    return false;
                }
                if n != 2 {
                    return false;
                }
                assert(self@.elevators[0] == self.elevators@[0]@);
                assert(self@.elevators[1] == self.elevators@[1]@);
                let f0 = self.elevators[0].get_floor_count();
                let f1 = self.elevators[1].get_floor_count();
                if initialized {
                    max_floor < f0 && max_floor < f1
                } else {
                    2 <= f0 && f0 <= f1
                }
            },
            Controller::NearestCar(c) => { c.is_initialized() && n == c.get_direction_count() },
            Controller::Delegated => true,
        }
    }

    /// Records what the motion model computed for cabin `idx`.
    pub fn set_elevator_motion(&mut self, idx: usize, height: i32, speed: i32, docked_floor: Option<usize>)
        requires
            idx < old(self)@.elevators.len(),
        ensures
            final(self)@ == (SystemView {
                elevators: old(self)@.elevators.update(
                    idx as int,
                    ElevatorView {
                        height: height as int,
                        speed: speed as int,
                        docked_floor,
                        ..old(self)@.elevators[idx as int]
                    },
                ),
                ..old(self)@
            }),
    {
        let ghost before = self.elevators@;
        self.elevators[idx].set_motion(height, speed, docked_floor);
        proof {
            assert(self.elevators@ =~= before.update(idx as int, self.elevators@[idx as int]));
            assert(views(self.elevators@) =~= views(before).update(
                idx as int,
                self.elevators@[idx as int]@,
            ));
        }
    }

    /// Sends cabin `idx` to `floor`.
    pub fn set_elevator_target(&mut self, idx: usize, floor: usize)
        requires
            idx < old(self)@.elevators.len(),
            floor < old(self)@.elevators[idx as int].floors.len(),
        ensures
            final(self)@ == (SystemView {
                elevators: old(self)@.elevators.update(
                    idx as int,
                    old(self)@.elevators[idx as int].with_target(floor as nat),
                ),
                ..old(self)@
            }),
    {
        let ghost before = self.elevators@;
        self.elevators[idx].set_target(floor);
        proof {
            assert(self.elevators@ =~= before.update(idx as int, self.elevators@[idx as int]));
            assert(views(self.elevators@) =~= views(before).update(
                idx as int,
                self.elevators@[idx as int]@,
            ));
        }
    }

    /// Everyone in cabin `idx` bound for the floor it serves leaves it.
    pub fn unload_elevator(&mut self, idx: usize)
        requires
            idx < old(self)@.elevators.len(),
            old(self)@.elevators[idx as int].wf(),
        ensures
            final(self)@ == (SystemView {
                elevators: old(self)@.elevators.update(
                    idx as int,
                    old(self)@.elevators[idx as int].unloaded(),
                ),
                ..old(self)@
            }),
    {
        let ghost before = self.elevators@;
        assert(before[idx as int]@ == old(self)@.elevators[idx as int]);
        self.elevators[idx].unload();
        proof {
            assert(self.elevators@ =~= before.update(idx as int, self.elevators@[idx as int]));
            assert(views(self.elevators@) =~= views(before).update(
                idx as int,
                self.elevators@[idx as int]@,
            ));
        }
    }

    /// Everyone waiting at the floor where cabin `idx` stands who fits
    /// boards it, front of the queue first.
    pub fn load_elevator_all(&mut self, idx: usize)
        requires
            idx < old(self)@.elevators.len(),
            old(self)@.elevators[idx as int].wf(),
            old(self)@.elevators[idx as int].target < old(self)@.queue.floors.len(),
        ensures
            ({
                let r = load_at_floor(
                    old(self)@.elevators[idx as int],
                    false,
                    None,
                    old(self)@.queue,
                );
                final(self)@ == (SystemView {
                    elevators: old(self)@.elevators.update(idx as int, r.0),
                    queue: r.1,
                    ..old(self)@
                })
            }),
    {
        let ghost before = self.elevators@;
        assert(before[idx as int]@ == old(self)@.elevators[idx as int]);
        load_at_current_floor(&mut self.elevators[idx], &mut self.queue, false, None);
        proof {
            assert(self.elevators@ =~= before.update(idx as int, self.elevators@[idx as int]));
            assert(views(self.elevators@) =~= views(before).update(
                idx as int,
                self.elevators@[idx as int]@,
            ));
        }
    }
}

impl ElevatorSystem {
    /// Adds the generated passengers to their queues, in order.
    fn generate_population(&mut self, delta_time: u64) -> (arrivals: Ghost<Seq<(usize, EntityView)>>)
        requires
            old(self)@.wf(),
            old(self)@.hour_length > 0,
            old(self)@.generator.can_generate() || old(self)@.generator.accumulated_after(
                old(self)@.time_of_day,
                delta_time as nat,
                old(self)@.hour_length,
            ) < MILLION,
        ensures
            generated(
                old(self)@.generator,
                final(self)@.generator,
                arrivals@,
                old(self)@.time_of_day,
                delta_time as nat,
                old(self)@.hour_length,
            ),
            final(self)@ == (SystemView {
                generator: final(self)@.generator,
                queue: QueueView {
                    floors: arrive(old(self)@.queue.floors, arrivals@),
                    wait_times: old(self)@.queue.wait_times,
                },
                ..old(self)@
            }),
    {
        let mut generated = self.pop_gen.generate(self.time_of_day, delta_time, self.hour_length);
        let ghost all = gen_views(generated@);
        let ghost s1 = self@;
        let ghost q0 = self.queue@;
        let ghost mut k: int = 0;
        assert(all.take(0) =~= Seq::<(usize, EntityView)>::empty());
        while generated.len() > 0
            invariant
                0 <= k <= all.len(),
                generated@.len() == all.len() - k,
                forall|j: int|
                    0 <= j < generated@.len() ==> ((#[trigger] generated@[j]).0, generated@[j].1@)
                        == all[k + j],
                forall|j: int|
                    0 <= j < all.len() ==> ((#[trigger] all[j]).0 as nat) < q0.floors.len(),
                self.queue@.floors == arrive(q0.floors, all.take(k)),
                self.queue@.floors.len() == q0.floors.len(),
                self.queue@.wait_times == q0.wait_times,
                self@ == (SystemView { queue: self@.queue, ..s1 }),
            decreases generated@.len(),
        {
            let (floor, entity) = generated.remove(0);
            proof {
                assert(all.take(k + 1).drop_last() =~= all.take(k));
                assert(all.take(k + 1).last() == all[k]);
                assert((floor, entity@) == all[k]);
            }
            self.queue.add(floor, entity);
            proof {
                k = k + 1;
                assert forall|i: int| 0 <= i < all.take(k).len() implies ((#[trigger] all.take(k)[i]).0 as nat) < q0.floors.len() by {
                    assert(all.take(k)[i] == all[i]);
                }
                lemma_arrive_len(q0.floors, all.take(k));
            }
        }
        assert(all.take(k) =~= all);
        Ghost(all)
    }

    /// Advances the simulation by one time step: the clock moves on; unless
    /// the simulation is over, new passengers are generated while fewer
    /// people than wanted were, everyone waiting waits one step more, and
    /// the controller takes its step.  Returns whether the simulation was
    /// still running.
    pub fn update(&mut self) -> (r: bool)
        requires
            old(self)@.step_ready(),
        ensures
            r == !old(self)@.clocked().finished(),
            !r ==> final(self)@ == old(self)@.clocked(),
            r ==> exists|arrivals: Seq<(usize, EntityView)>, g1: GeneratorView|
                {
                    &&& #[trigger] final(self)@ == old(self)@.stepped(arrivals, g1)
                    &&& if old(self)@.generator.total_human_generated < old(self)@.max_human_count {
                        generated(
                            old(self)@.generator,
                            g1,
                            arrivals,
                            old(self)@.next_time_of_day(),
                            old(self)@.time_step,
                            old(self)@.hour_length,
                        )
                    } else {
                        arrivals.len() == 0 && g1 == old(self)@.generator
                    }
                },
            final(self)@.wf(),
    {
        let delta_time = self.time_step;
        self.total_time_passed = self.total_time_passed + delta_time;
        self.time_of_day = self.time_of_day + ((self.total_time_passed / self.hour_length) % 24) as u32;
        assert(self@ == old(self)@.clocked());
        if self.is_finished() {
            return false;
        }
        let ghost c = self@;
        let ghost mut arrivals: Seq<(usize, EntityView)> = Seq::empty();
        if self.pop_gen.get_human_generated() < self.max_human_count {
            let a = self.generate_population(delta_time);
            proof {
                arrivals = a@;
            }
        } else {
            assert(arrive(c.queue.floors, arrivals) =~= c.queue.floors);
        }
        let ghost g1 = self@.generator;
        proof {
            if c.generator.total_human_generated < c.max_human_count {
                assert forall|i: int| 0 <= i < arrivals.len() implies ((#[trigger] arrivals[i]).0 as nat) < c.queue.floors.len() by {
                    assert(c.generator.entity_ok(arrivals[i].0 as nat, arrivals[i].1));
                }
            }
            lemma_arrive_len(c.queue.floors, arrivals);
        }
        self.queue.update_wait_time(delta_time);
        let called_buttons = self.get_call_buttons();
        let ghost q1 = self@.queue;
        let ghost es = self@.elevators;
        assert(es == c.elevators);
        assert(self@.controller == c.controller);
        assert(q1.floors.len() == c.floor_heights.len());
        assert(called_buttons@.len() == c.floor_heights.len());
        match &mut self.controller {
            Controller::Simple(controller) => {
                let ghost s0 = controller@;
                controller.update(&mut self.elevators);
                proof {
                    let n = s0.next(es);
                    if s0.sends_targets(es) {
                        assert(views(self.elevators@) =~= simple_cabins(s0, es)) by {
                            assert(self@.elevators[n.up as int] == self.elevators@[n.up as int]@);
                            assert(self@.elevators[down_of(n.up) as int]
                                == self.elevators@[down_of(n.up) as int]@);
                        }
                    }
                }
            },
            Controller::NearestCar(controller) => {
                controller.update(&mut self.elevators, &mut self.queue, called_buttons);
            },
            Controller::Delegated => {},
        }
        proof {
            let cc = old(self)@.clocked();
            assert(cc == c);
            let qq = QueueView {
                floors: floors_waited(arrive(cc.queue.floors, arrivals), cc.time_step),
                wait_times: cc.queue.wait_times,
            };
            assert(q1 == qq);
            assert(self@.generator == g1);
            assert(self@.controller == controller_step(cc.controller, cc.elevators, qq, calls_of(qq.floors)).0);
            assert(self@.elevators == controller_step(cc.controller, cc.elevators, qq, calls_of(qq.floors)).1);
            assert(self@.queue == controller_step(cc.controller, cc.elevators, qq, calls_of(qq.floors)).2);
            assert(self@ == old(self)@.stepped(arrivals, g1));
            assert(self@.wf()) by {
                match c.controller {
                    ControllerView::Simple(s0) => {
                        let n = s0.next(es);
                        assert forall|i: int| 0 <= i < self@.elevators.len() implies {
                            &&& (#[trigger] self@.elevators[i]).wf()
                            &&& self@.elevators[i].target < self@.floor_heights.len()
                            &&& self@.elevators[i].floors.len() == self@.floor_heights.len()
                        } by {
                            assert(es[i].wf());
                        }
                    },
                    ControllerView::NearestCar(n0) => {
                        assert forall|i: int| 0 <= i < self@.elevators.len() implies {
                            &&& (#[trigger] self@.elevators[i]).wf()
                            &&& self@.elevators[i].target < self@.floor_heights.len()
                            &&& self@.elevators[i].floors.len() == self@.floor_heights.len()
                        } by {
                            assert(es[i].floors.len() == c.floor_heights.len());
                        }
                    },
                    ControllerView::Delegated => {},
                }
            }
        }
        true
    }
}

/// Sum of a sequence of numbers.
pub open spec fn sum_u64(s: Seq<u64>) -> nat
    decreases s.len(),
{
    if s.len() == 0 {
        0
    } else {
        sum_u64(s.drop_last()) + s.last() as nat
    }
}

/// The hall calls of `system` as reported to Python: up is `1`, down `-1`,
/// both `0` and no call is no number.
pub fn get_calls(system: &ElevatorSystem) -> (r: Vec<Option<i32>>)
    ensures
        r@ == calls_of(system@.queue.floors).map_values(|d: Direction| call_code_spec(d)),
{
    let calls = system.get_call_buttons();
    call_codes(&calls)
}

} // verus!
