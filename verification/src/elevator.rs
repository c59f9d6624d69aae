//! An elevator cabin: the floor it serves next, whether it stands at that
//! floor, and the passengers, load and floor area on board.
//!
//! Lengths are in millimetres, speeds in millimetres per second, masses in
//! grams and floor areas in square centimetres.  How the cabin moves
//! between floors is computed by a motion model outside this module, which
//! reports its height, its speed and the floor at which it stands still.
use vstd::prelude::*;
use crate::entity::{Entity, EntityView};
use crate::plotter::LinePlotter;

verus! {

/// The plotting default of the elevator parameters: no plotting.
pub fn default_enable_debug_plotting() -> (r: bool)
    ensures
        r == false,
{
    false
}

/// The default file of the motion plot.
pub fn default_plot_path() -> (r: String)
    ensures
        r@ == "motor_plot.png"@,
{
    "motor_plot.png".to_owned()
}

/// The parameters of one elevator.
pub struct ElevatorParameters {
    /// Heights of the floors, in millimetres.
    pub floors: Vec<u32>,
    /// Top speed, in millimetres per second.
    pub max_speed: u32,
    /// Top acceleration, in millimetres per second squared.
    pub max_accel: u32,
    /// Most load that the cabin may carry, in grams.
    pub max_load: u64,
    /// Mass of the empty cabin, in grams.
    pub elevator_mass: u64,
    /// Mass of the counterweight, in grams.
    pub elevator_counter_mass: u64,
    /// Floor area of the cabin, in square centimetres.
    pub area: u64,
    pub enable_debug_plotting: bool,
    pub plot_path: String,
}

/// Sum of `f` over the passengers of `s`.
pub open spec fn total(s: Seq<EntityView>, f: spec_fn(EntityView) -> nat) -> nat
    decreases s.len(),
{
    if s.len() == 0 {
        0
    } else {
        total(s.drop_last(), f) + f(s.last())
    }
}

pub open spec fn weight_of() -> spec_fn(EntityView) -> nat {
    |e: EntityView| e.weight()
}

pub open spec fn area_of() -> spec_fn(EntityView) -> nat {
    |e: EntityView| e.area()
}

/// Sum of the weights of the passengers of `s`.
pub open spec fn total_weight(s: Seq<EntityView>) -> nat {
    total(s, weight_of())
}

/// Sum of the floor areas of the passengers of `s`.
pub open spec fn total_area(s: Seq<EntityView>) -> nat {
    total(s, area_of())
}

pub proof fn lemma_total_concat(a: Seq<EntityView>, b: Seq<EntityView>, f: spec_fn(EntityView) -> nat)
    ensures
        total(a + b, f) == total(a, f) + total(b, f),
    decreases b.len(),
{
    if b.len() > 0 {
        lemma_total_concat(a, b.drop_last(), f);
        assert((a + b).drop_last() =~= a + b.drop_last());
    } else {
        assert(a + b =~= a);
    }
}

pub proof fn lemma_total_remove(s: Seq<EntityView>, i: int, f: spec_fn(EntityView) -> nat)
    requires
        0 <= i < s.len(),
    ensures
        total(s, f) == total(s.remove(i), f) + f(s[i]),
{
    let a = s.take(i);
    let b = s.skip(i + 1);
    let x = seq![s[i]];
    assert(s =~= a + (x + b));
    assert(s.remove(i) =~= a + b);
    lemma_total_concat(a, x + b, f);
    lemma_total_concat(x, b, f);
    lemma_total_concat(a, b, f);
    assert(x.drop_last() =~= Seq::<EntityView>::empty());
    assert(total(x.drop_last(), f) == 0);
    assert(x.last() == s[i]);
    assert(total(x, f) == f(s[i]));
}

/// Whether a passenger stays on board when the cabin stops at `target`.
pub open spec fn stays_on_board(target: nat) -> spec_fn(EntityView) -> bool {
    |e: EntityView| e.destination() != target
}

/// A cabin as a mathematical value.
pub struct ElevatorView {
    /// Heights of the floors, in millimetres.
    pub floors: Seq<u32>,
    /// Height of the cabin, in millimetres.
    pub height: int,
    /// Speed of the cabin, in millimetres per second.
    pub speed: int,
    /// The floor at which the cabin stands still, if it does.
    pub docked_floor: Option<usize>,
    /// The floor the cabin serves next.
    pub target: nat,
    pub max_speed: nat,
    pub max_accel: nat,
    pub elevator_mass: nat,
    pub counter_mass: nat,
    pub max_load: nat,
    /// Weight on board.
    pub load: nat,
    /// The area measure that loading reduces and unloading restores.
    pub area: nat,
    /// The area measure that `can_fit` adds a passenger's area to.
    pub current_area: nat,
    /// Passengers on board, in boarding order.
    pub entities: Seq<EntityView>,
    /// Gravitational acceleration, in millimetres per second squared.
    pub gravity: nat,
    /// Whether the motion plotter plots, if the cabin has one.
    pub plotter: Option<bool>,
}

pub struct Elevator {
    floors: Vec<u32>,
    current_height: i32,
    current_speed: i32,
    docked_floor: Option<usize>,
    max_speed: u32,
    max_accel: u32,
    elevator_mass: u64,
    elevator_counter_mass: u64,
    max_load: u64,
    current_load: u64,
    entities: Vec<Entity>,
    target_idx: usize,
    area: u64,
    current_area: u64,
    gravity: u32,
    line_plotter: Option<LinePlotter>,
}

impl View for Elevator {
    type V = ElevatorView;

    closed spec fn view(&self) -> ElevatorView {
        ElevatorView {
            floors: self.floors@,
            height: self.current_height as int,
            speed: self.current_speed as int,
            docked_floor: self.docked_floor,
            target: self.target_idx as nat,
            max_speed: self.max_speed as nat,
            max_accel: self.max_accel as nat,
            elevator_mass: self.elevator_mass as nat,
            counter_mass: self.elevator_counter_mass as nat,
            max_load: self.max_load as nat,
            load: self.current_load as nat,
            area: self.area as nat,
            current_area: self.current_area as nat,
            entities: self.entities@.map_values(|e: Entity| e@),
            gravity: self.gravity as nat,
            plotter: match self.line_plotter {
                Some(p) => Some(p.enable_plotting),
                None => None,
            },
        }
    }
}

impl ElevatorView {
    /// The bookkeeping of the cabin is consistent: the load is the weight
    /// of the passengers on board and stays within the most load allowed,
    /// and the free area plus the passengers' areas is the area that
    /// `can_fit` measures against.
    pub open spec fn wf(self) -> bool {
        &&& self.load == total_weight(self.entities)
        &&& self.load <= self.max_load
        &&& self.area + total_area(self.entities) == self.current_area
        &&& self.elevator_mass + self.counter_mass + self.max_load <= u64::MAX
        &&& self.current_area <= u64::MAX
    }

    /// Passengers can board or leave: the cabin stands still at the floor
    /// it serves.
    pub open spec fn can_board(self) -> bool {
        self.docked_floor == Some(self.target as usize)
    }

    /// The floor at which the cabin stands, as far as passengers care.
    pub open spec fn current_floor(self) -> Option<usize> {
        if self.can_board() {
            Some(self.target as usize)
        } else {
            None
        }
    }

    /// Whether a passenger fits: the load stays within the most load
    /// allowed, and the area measure plus the passenger's area stays within
    /// the free area.
    pub open spec fn fits(self, e: EntityView) -> bool {
        &&& self.load + e.weight() <= self.max_load
        &&& self.current_area + e.area() <= self.area
    }

    /// The cabin with a new floor to serve.
    pub open spec fn with_target(self, floor: nat) -> ElevatorView {
        ElevatorView { target: floor, ..self }
    }

    /// The cabin after `e` boarded.
    pub open spec fn loaded(self, e: EntityView) -> ElevatorView {
        ElevatorView {
            load: self.load + e.weight(),
            area: (self.area - e.area()) as nat,
            entities: self.entities.push(e),
            ..self
        }
    }

    /// The cabin after everyone bound for the served floor left.
    pub open spec fn unloaded(self) -> ElevatorView {
        let stay = self.entities.filter(stays_on_board(self.target));
        ElevatorView {
            entities: stay,
            load: total_weight(stay),
            area: (self.current_area - total_area(stay)) as nat,
            ..self
        }
    }
}

/// A new cabin serving the floors `floors` under gravity `gravity`, made
/// from `p`: at height zero, standing still at no floor, serving floor zero,
/// with nobody on board, and with a plotter that plots exactly when `p` asks
/// for plotting.
pub open spec fn new_cabin(floors: Seq<u32>, gravity: u32, p: ElevatorParameters) -> ElevatorView {
    ElevatorView {
        floors,
        height: 0,
        speed: 0,
        docked_floor: None,
        target: 0,
        max_speed: p.max_speed as nat,
        max_accel: p.max_accel as nat,
        elevator_mass: p.elevator_mass as nat,
        counter_mass: p.elevator_counter_mass as nat,
        max_load: p.max_load as nat,
        load: 0,
        area: p.area as nat,
        current_area: p.area as nat,
        entities: Seq::empty(),
        gravity: gravity as nat,
        plotter: if p.enable_debug_plotting {
            Some(true)
        } else {
            None
        },
    }
}

impl Elevator {
    /// A cabin at height zero, standing still at no floor, serving floor
    /// zero, with nobody on board, under gravity `gravity`.
    pub fn new(floors: Vec<u32>, gravity: u32, parameters: ElevatorParameters) -> (e: Self)
        requires
            parameters.elevator_mass + parameters.elevator_counter_mass + parameters.max_load
                <= u64::MAX,
        ensures
            e@ == new_cabin(floors@, gravity, parameters),
            e@.wf(),
    {
        let line_plotter = if parameters.enable_debug_plotting {
            let plotter = LinePlotter::new(true);
            plotter.create_plot();
            Some(plotter)
        } else {
            None
        };
        let e = Elevator {
            floors,
            current_height: 0,
            current_speed: 0,
            docked_floor: None,
            max_speed: parameters.max_speed,
            max_accel: parameters.max_accel,
            elevator_mass: parameters.elevator_mass,
            elevator_counter_mass: parameters.elevator_counter_mass,
            max_load: parameters.max_load,
            current_load: 0,
            entities: Vec::new(),
            target_idx: 0,
            area: parameters.area,
            current_area: parameters.area,
            gravity,
            line_plotter,
        };
        assert(e@.entities =~= Seq::<EntityView>::empty());
        e
    }

    pub fn clone_elevator(&self) -> (e: Self)
        ensures
            e@ == self@,
    {
        let mut entities: Vec<Entity> = Vec::new();
        let n = self.entities.len();
        let mut i: usize = 0;
        while i < n
            invariant
                n == self.entities@.len(),
                0 <= i <= n,
                entities@.len() == i,
                forall|j: int| 0 <= j < i ==> #[trigger] entities@[j]@ == self.entities@[j]@,
            decreases n - i,
        {
            entities.push(self.entities[i].clone_box());
            i = i + 1;
        }
        let line_plotter = match &self.line_plotter {
            Some(p) => Some(LinePlotter::new(p.enable_plotting)),
            None => None,
        };
        let e = Elevator {
            floors: self.floors.clone(),
            current_height: self.current_height,
            current_speed: self.current_speed,
            docked_floor: self.docked_floor,
            max_speed: self.max_speed,
            max_accel: self.max_accel,
            elevator_mass: self.elevator_mass,
            elevator_counter_mass: self.elevator_counter_mass,
            max_load: self.max_load,
            current_load: self.current_load,
            entities,
            target_idx: self.target_idx,
            area: self.area,
            current_area: self.current_area,
            gravity: self.gravity,
            line_plotter,
        };
        assert(e@.entities =~= self@.entities);
        assert(e@.floors =~= self@.floors);
        e
    }

    /// Records what the motion model computed: the cabin's height and speed,
    /// and the floor at which it stands still, if any.
    pub fn set_motion(&mut self, height: i32, speed: i32, docked_floor: Option<usize>)
        ensures
            final(self)@ == (ElevatorView {
                height: height as int,
                speed: speed as int,
                docked_floor,
                ..old(self)@
            }),
    {
        self.current_height = height;
        self.current_speed = speed;
        self.docked_floor = docked_floor;
    }

    /// Mass moved by the motor: cabin, load and counterweight.
    pub fn get_total_mass(&self) -> (r: u64)
        requires
            self@.wf(),
        ensures
            r == self@.elevator_mass + self@.load + self@.counter_mass,
    {
        self.elevator_mass + self.current_load + self.elevator_counter_mass
    }

    pub fn get_entity_count(&self) -> (r: usize)
        ensures
            r == self@.entities.len(),
    {
        self.entities.len()
    }

    pub fn get_floor_count(&self) -> (r: usize)
        ensures
            r == self@.floors.len(),
    {
        self.floors.len()
    }

    pub fn get_floor_height(&self, floor_idx: usize) -> (r: u32)
        requires
            floor_idx < self@.floors.len(),
        ensures
            r == self@.floors[floor_idx as int],
    {
        self.floors[floor_idx]
    }

    pub fn get_target_floor(&self) -> (r: usize)
        ensures
            r == self@.target,
    {
        self.target_idx
    }

    pub fn get_current_load(&self) -> (r: u64)
        ensures
            r == self@.load,
    {
        self.current_load
    }

    pub fn get_max_load(&self) -> (r: u64)
        ensures
            r == self@.max_load,
    {
        self.max_load
    }

    /// The area measure that loading reduces.
    pub fn get_available_area(&self) -> (r: u64)
        ensures
            r == self@.area,
    {
        self.area
    }

    pub fn get_max_speed(&self) -> (r: u32)
        ensures
            r == self@.max_speed,
    {
        self.max_speed
    }

    /// Gravitational acceleration, in millimetres per second squared.
    pub fn get_gravity(&self) -> (r: u32)
        ensures
            r == self@.gravity,
    {
        self.gravity
    }

    pub fn get_max_accel(&self) -> (r: u32)
        ensures
            r == self@.max_accel,
    {
        self.max_accel
    }

    pub fn get_entity(&self, i: usize) -> (e: &Entity)
        requires
            i < self@.entities.len(),
        ensures
            e@ == self@.entities[i as int],
    {
        &self.entities[i]
    }

    /// Whether the bookkeeping of the cabin is consistent.
    pub fn is_consistent(&self) -> (r: bool)
        ensures
            r == self@.wf(),
    {
        let ghost es = self@.entities;
        let n = self.entities.len();
        let mut weight: u128 = 0;
        let mut area: u128 = 0;
        let mut i: usize = 0;
        while i < n
            invariant
                n == es.len(),
                es == self@.entities,
                0 <= i <= n,
                weight == total_weight(es.take(i as int)),
                area == total_area(es.take(i as int)),
                weight <= i * (u64::MAX as nat),
                area <= i * (u64::MAX as nat),
            decreases n - i,
        {
            proof {
                assert(es.take(i + 1).drop_last() =~= es.take(i as int));
                assert(es.take(i + 1).last() == es[i as int]);
                assert(es[i as int] == self.entities@[i as int]@);
                assert(i * (u64::MAX as nat) + u64::MAX <= u128::MAX) by (nonlinear_arith)
                    requires
                        i < n,
                        n <= usize::MAX,
                ;
                assert((i + 1) * (u64::MAX as nat) == i * (u64::MAX as nat) + u64::MAX) by (nonlinear_arith);
            }
            weight = weight + self.entities[i].get_weight() as u128;
            area = area + self.entities[i].get_area() as u128;
            i = i + 1;
        }
        assert(es.take(n as int) =~= es);
        proof {
            assert(n * (u64::MAX as nat) + u64::MAX <= u128::MAX) by (nonlinear_arith)
                requires
                    n <= usize::MAX,
            ;
        }
        weight == self.current_load as u128 && self.current_load <= self.max_load && self.area as u128
            + area == self.current_area as u128 && self.elevator_mass as u128
            + self.elevator_counter_mass as u128 + self.max_load as u128 <= u64::MAX as u128
    }

    /// Whether the passenger fits on board.
    pub fn can_fit(&self, entity: &Entity) -> (r: bool)
        ensures
            r == self@.fits(entity@),
    {
        let weight = entity.get_weight();
        let area = entity.get_area();
        if self.current_load as u128 + weight as u128 > self.max_load as u128 {
            return false;
        }
        if self.current_area as u128 + area as u128 > self.area as u128 {
            return false;
        }
        true
    }

    /// Takes a passenger on board.
    pub fn load(&mut self, entity: Entity)
        requires
            old(self)@.wf(),
            old(self)@.fits(entity@),
        ensures
            final(self)@ == old(self)@.loaded(entity@),
            final(self)@.wf(),
    {
        let ghost before = self@.entities;
        let weight = entity.get_weight();
        let area = entity.get_area();
        self.current_load = self.current_load + weight;
        self.area = self.area - area;
        self.entities.push(entity);
        proof {
            assert(self@.entities =~= before.push(entity@));
            assert(self@.entities.drop_last() =~= before);
        }
    }

    /// Everyone bound for the floor that the cabin serves leaves it; the
    /// others stay in their order.
    pub fn unload(&mut self)
        requires
            old(self)@.wf(),
        ensures
            final(self)@ == old(self)@.unloaded(),
            final(self)@.wf(),
    {
        let ghost s0 = self@.entities;
        let ghost keep = stays_on_board(self.target_idx as nat);
        let mut idx: usize = 0;
        let ghost mut k: int = 0;
        proof {
            assert(s0.take(0).filter(keep) =~= Seq::<EntityView>::empty()) by {
                reveal(Seq::filter);
            }
            assert(s0.skip(0) =~= s0);
            assert(self@.entities =~= s0.take(0).filter(keep) + s0.skip(0));
        }
        while idx < self.entities.len()
            invariant
                0 <= k <= s0.len(),
                keep == stays_on_board(self.target_idx as nat),
                self@.entities == s0.take(k).filter(keep) + s0.skip(k),
                idx == s0.take(k).filter(keep).len(),
                self@.wf(),
                self@.target == old(self)@.target,
                self@ == (ElevatorView {
                    entities: self@.entities,
                    load: self@.load,
                    area: self@.area,
                    ..old(self)@
                }),
            decreases s0.len() - k,
        {
            proof {
                assert(self@.entities[idx as int] == s0[k]);
                assert(s0.take(k + 1) =~= s0.take(k).push(s0[k]));
                s0.take(k).lemma_filter_push(s0[k], keep);
            }
            let destination = self.entities[idx].get_destination();
            if destination == self.target_idx {
                let ghost before = self@.entities;
                proof {
                    lemma_total_remove(before, idx as int, weight_of());
                    lemma_total_remove(before, idx as int, area_of());
                }
                let entity = self.entities.remove(idx);
                let weight = entity.get_weight();
                let area = entity.get_area();
                self.current_load = self.current_load - weight;
                self.area = self.area + area;
                proof {
                    assert(self@.entities =~= before.remove(idx as int));
                    assert(before.remove(idx as int) =~= s0.take(k + 1).filter(keep) + s0.skip(
                        k + 1,
                    ));
                    k = k + 1;
                }
            } else {
                proof {
                    assert(self@.entities =~= s0.take(k + 1).filter(keep) + s0.skip(k + 1));
                    k = k + 1;
                }
                idx = idx + 1;
            }
        }
        proof {
            assert(s0.skip(k).len() == 0);
            assert(k == s0.len());
            assert(s0.take(k) =~= s0);
            assert(self@.entities =~= s0.filter(keep));
        }
    }

    /// Height of `floor_idx` above the cabin, in millimetres.
    pub fn distance_to_floor(&self, floor_idx: usize) -> (r: i64)
        requires
            floor_idx < self@.floors.len(),
        ensures
            r == self@.floors[floor_idx as int] - self@.height,
    {
        self.floors[floor_idx] as i64 - self.current_height as i64
    }

    /// Whether passengers can board or leave: the cabin stands still at the
    /// floor it serves.
    pub fn can_board(&self) -> (r: bool)
        ensures
            r == self@.can_board(),
    {
        match self.docked_floor {
            Some(floor) => floor == self.target_idx,
            None => false,
        }
    }

    pub fn get_current_height(&self) -> (r: i32)
        ensures
            r == self@.height,
    {
        self.current_height
    }

    pub fn get_current_speed(&self) -> (r: i32)
        ensures
            r == self@.speed,
    {
        self.current_speed
    }

    /// The floor served, when the cabin stands still there.
    pub fn get_current_floor(&self) -> (r: Option<usize>)
        ensures
            r == self@.current_floor(),
            r matches Some(f) ==> f == self@.target,
    {
        if self.can_board() {
            Some(self.target_idx)
        } else {
            None
        }
    }

    /// Makes `floor_idx` the floor that the cabin serves next.
    pub fn set_target(&mut self, floor_idx: usize)
        requires
            floor_idx < old(self)@.floors.len(),
        ensures
            final(self)@ == old(self)@.with_target(floor_idx as nat),
    {
        self.target_idx = floor_idx;
    }

    /// The destinations of the passengers on board, in boarding order.
    pub fn get_target_floors(&self) -> (r: Vec<usize>)
        ensures
            r@.len() == self@.entities.len(),
            forall|i: int| 0 <= i < r@.len() ==> #[trigger] r@[i] == self@.entities[i].destination(),
    {
        let mut result: Vec<usize> = Vec::new();
        let n = self.entities.len();
        let mut i: usize = 0;
        while i < n
            invariant
                n == self@.entities.len(),
                0 <= i <= n,
                result@.len() == i,
                forall|j: int| 0 <= j < i ==> #[trigger] result@[j] == self@.entities[j].destination(),
            decreases n - i,
        {
            result.push(self.entities[i].get_destination());
            i = i + 1;
        }
        result
    }
}

} // verus!
