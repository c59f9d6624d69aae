//! Properties of the simulation that hold for every input: of unloading and
//! loading cabins, of hall calls, of queues, of boarding, of nearest-car
//! dispatching and of the server's requests.
use vstd::prelude::*;
use crate::boarding::{accepts, boarding, load_at_floor};
use crate::direction::Direction;
use crate::elevator::{
    ElevatorView,
    area_of,
    lemma_total_concat,
    stays_on_board,
    total,
    total_area,
    total_weight,
    weight_of,
};
use crate::entity::{EntityView, human_waited};
use crate::human::{HumanView, sum_queue_wait};
use crate::queue::floors_waited;
use crate::system::{ControllerView, SystemView, arrive, lemma_arrive_len};
use crate::nearest_car::{best_elevator, compatible, dispatch, distance};
use crate::queue::{QueueView, floor_call};
use crate::simple_controller::{SimpleView, down_of};
use crate::server::{ElevatorRecord, SimView, Settings, after_settings, with_moving};

verus! {

proof fn lemma_total_push(s: Seq<EntityView>, x: EntityView, f: spec_fn(EntityView) -> nat)
    ensures
        total(s.push(x), f) == total(s, f) + f(x),
{
    assert(s.push(x).drop_last() =~= s);
}

/// Unloading twice lets off no one more than unloading once.
pub proof fn law_unload_idempotent(e: ElevatorView)
    ensures
        e.unloaded().unloaded() == e.unloaded(),
{
    let keep = stays_on_board(e.target);
    let s = e.entities.filter(keep);
    assert forall|i: int| 0 <= i < s.len() implies keep(#[trigger] s[i]) by {
        e.entities.lemma_filter_pred(keep, i);
    }
    lemma_filter_all(s, keep);
    assert(e.unloaded().entities.filter(keep) == s);
}

proof fn lemma_filter_all<A>(s: Seq<A>, p: spec_fn(A) -> bool)
    requires
        forall|i: int| 0 <= i < s.len() ==> p(#[trigger] s[i]),
    ensures
        s.filter(p) == s,
    decreases s.len(),
{
    reveal(Seq::filter);
    if s.len() > 0 {
        lemma_filter_all(s.drop_last(), p);
        assert(s.drop_last().push(s.last()) =~= s);
    }
}

/// After unloading, nobody on board is bound for the floor the cabin serves.
pub proof fn law_unload_leaves_no_arrivals(e: ElevatorView)
    ensures
        forall|i: int|
            0 <= i < e.unloaded().entities.len() ==> (#[trigger] e.unloaded().entities[i]).destination()
                != e.target,
{
    let keep = stays_on_board(e.target);
    assert forall|i: int| 0 <= i < e.unloaded().entities.len() implies (
    #[trigger] e.unloaded().entities[i]).destination() != e.target by {
        e.entities.lemma_filter_pred(keep, i);
    }
}

/// A passenger who boards a cabin serving their destination leaves it at
/// the next unloading, and the cabin is as if they had never boarded.
pub proof fn law_load_then_unload(e: ElevatorView, x: EntityView)
    requires
        x.destination() == e.target,
    ensures
        e.loaded(x).unloaded() == e.unloaded(),
{
    let keep = stays_on_board(e.target);
    e.entities.lemma_filter_push(x, keep);
    assert(e.loaded(x).entities.filter(keep) == e.entities.filter(keep));
}

/// Loading a passenger who fits keeps the cabin's bookkeeping consistent:
/// the load stays the weight on board and within the most load allowed.
pub proof fn law_load_keeps_wf(e: ElevatorView, x: EntityView)
    requires
        e.wf(),
        e.fits(x),
    ensures
        e.loaded(x).wf(),
        e.loaded(x).load <= e.max_load,
{
    lemma_total_push(e.entities, x, weight_of());
    lemma_total_push(e.entities, x, area_of());
}

/// Unloading keeps the cabin's bookkeeping consistent.
pub proof fn law_unload_keeps_wf(e: ElevatorView)
    requires
        e.wf(),
    ensures
        e.unloaded().wf(),
{
    let keep = stays_on_board(e.target);
    lemma_filter_totals(e.entities, keep);
}

proof fn lemma_filter_totals(s: Seq<EntityView>, p: spec_fn(EntityView) -> bool)
    ensures
        total_weight(s.filter(p)) <= total_weight(s),
        total_area(s.filter(p)) <= total_area(s),
    decreases s.len(),
{
    reveal(Seq::filter);
    if s.len() > 0 {
        lemma_filter_totals(s.drop_last(), p);
        if p(s.last()) {
            lemma_total_push(s.drop_last().filter(p), s.last(), weight_of());
            lemma_total_push(s.drop_last().filter(p), s.last(), area_of());
        }
    }
}

/// A cabin fits only passengers who take up no floor area: the area that
/// `can_fit` adds the passenger's area to is at least the free area.
pub proof fn law_fits_only_without_area(e: ElevatorView, x: EntityView)
    requires
        e.wf(),
        e.fits(x),
    ensures
        x.area() == 0,
        total_area(e.entities) == 0,
{
}

/// No floor ever calls both ways: the first passenger who leaves the floor
/// decides the call.
pub proof fn law_no_call_both_ways(q: Seq<EntityView>, floor: nat)
    ensures
        floor_call(q, floor) != Direction::Both,
    decreases q.len(),
{
    if q.len() > 0 {
        law_no_call_both_ways(q.drop_first(), floor);
    }
}

/// A floor calls exactly when someone waiting there is bound elsewhere.
pub proof fn law_call_iff_leaving(q: Seq<EntityView>, floor: nat)
    ensures
        floor_call(q, floor) == Direction::NoCall <==> forall|i: int|
            0 <= i < q.len() ==> (#[trigger] q[i]).destination() == floor,
    decreases q.len(),
{
    if q.len() > 0 {
        law_call_iff_leaving(q.drop_first(), floor);
        assert forall|i: int| 1 <= i < q.len() implies #[trigger] q[i] == q.drop_first()[i - 1] by {}
        if (forall|i: int| 0 <= i < q.len() ==> (#[trigger] q[i]).destination() == floor) {
            assert(q[0].destination() == floor);
            assert forall|i: int| 0 <= i < q.drop_first().len() implies (
            #[trigger] q.drop_first()[i]).destination() == floor by {
                assert(q.drop_first()[i] == q[i + 1]);
            }
        }
        if floor_call(q, floor) == Direction::NoCall {
            assert forall|i: int| 0 <= i < q.len() implies (#[trigger] q[i]).destination() == floor by {
                if i > 0 {
                    assert(q[i] == q.drop_first()[i - 1]);
                }
            }
        }
    }
}

/// A passenger put at the end of a floor queue and taken from there again
/// is the same passenger, and the queues are as before.
pub proof fn law_add_then_remove(floors: Seq<Seq<EntityView>>, floor: int, e: EntityView)
    requires
        0 <= floor < floors.len(),
    ensures
        ({
            let added = floors.update(floor, floors[floor].push(e));
            let i = floors[floor].len() as int;
            &&& added[floor][i] == e
            &&& added.update(floor, added[floor].remove(i)) == floors
        }),
{
    let added = floors.update(floor, floors[floor].push(e));
    let i = floors[floor].len() as int;
    assert(added[floor].remove(i) =~= floors[floor]);
    assert(added.update(floor, added[floor].remove(i)) =~= floors);
}

/// Boarding loses and creates no one: those who boarded and those who
/// stayed in the queue are as many as those offered, and those already on
/// board stay on board in their order.
pub proof fn law_boarding_conserves(
    e: ElevatorView,
    q: Seq<EntityView>,
    check_heading: bool,
    floor: nat,
    max_floor: int,
    heading: Option<Direction>,
)
    ensures
        ({
            let r = boarding(e, q, check_heading, floor, max_floor, heading);
            &&& r.0.entities.len() + r.1.len() == e.entities.len() + q.len()
            &&& r.0.entities.len() >= e.entities.len()
            &&& r.0.entities.take(e.entities.len() as int) == e.entities
            &&& r.0.target == e.target
            &&& r.0.floors == e.floors
        }),
    decreases q.len(),
{
    if q.len() > 0 {
        let x = q[0];
        if accepts(check_heading, floor, max_floor, heading, x) && e.fits(x) {
            law_boarding_conserves(e.loaded(x), q.drop_first(), check_heading, floor, max_floor, heading);
            let r = boarding(e.loaded(x), q.drop_first(), check_heading, floor, max_floor, heading);
            assert(r.0.entities.take(e.entities.len() as int) =~= r.0.entities.take(
                e.entities.len() + 1int,
            ).take(e.entities.len() as int));
            assert(e.loaded(x).entities.take(e.entities.len() as int) =~= e.entities);
        } else {
            law_boarding_conserves(e, q.drop_first(), check_heading, floor, max_floor, heading);
        }
    } else {
        assert(e.entities.take(e.entities.len() as int) =~= e.entities);
    }
}

/// Boarding keeps the cabin's bookkeeping consistent, so the load never
/// exceeds the most load allowed.
pub proof fn law_boarding_keeps_wf(
    e: ElevatorView,
    q: Seq<EntityView>,
    check_heading: bool,
    floor: nat,
    max_floor: int,
    heading: Option<Direction>,
)
    requires
        e.wf(),
    ensures
        boarding(e, q, check_heading, floor, max_floor, heading).0.wf(),
    decreases q.len(),
{
    if q.len() > 0 {
        let x = q[0];
        if accepts(check_heading, floor, max_floor, heading, x) && e.fits(x) {
            law_load_keeps_wf(e, x);
            law_boarding_keeps_wf(e.loaded(x), q.drop_first(), check_heading, floor, max_floor, heading);
        } else {
            law_boarding_keeps_wf(e, q.drop_first(), check_heading, floor, max_floor, heading);
        }
    }
}

/// The elevator that nearest-car dispatching picks can take the call and is
/// nearest among those that can: no elevator that can take the call is
/// closer, and those before it are farther; when it picks none, no elevator
/// can take the call.
pub proof fn law_nearest_is_nearest(
    es: Seq<ElevatorView>,
    dirs: Seq<Option<Direction>>,
    floor: int,
    call: Direction,
    n: int,
)
    requires
        0 <= n <= es.len(),
        n <= dirs.len(),
        n <= usize::MAX,
    ensures
        match best_elevator(es, dirs, floor, call, n) {
            Some(b) => {
                &&& 0 <= b < n
                &&& compatible(dirs[b as int], call, es[b as int].can_board())
                &&& forall|i: int|
                    0 <= i < n && compatible(dirs[i], call, es[i].can_board()) ==> distance(
                        es[b as int],
                        floor,
                    ) <= distance(#[trigger] es[i], floor)
                &&& forall|i: int|
                    0 <= i < b && compatible(dirs[i], call, es[i].can_board()) ==> distance(
                        es[b as int],
                        floor,
                    ) < distance(#[trigger] es[i], floor)
            },
            None => forall|i: int|
                0 <= i < n ==> !compatible(#[trigger] dirs[i], call, es[i].can_board()),
        },
    decreases n,
{
    if n > 0 {
        law_nearest_is_nearest(es, dirs, floor, call, n - 1);
        let prev = best_elevator(es, dirs, floor, call, n - 1);
        let i = n - 1;
        if compatible(dirs[i], call, es[i].can_board()) && (prev is None || distance(es[i], floor)
            < distance(es[prev->0 as int], floor)) {
            assert(best_elevator(es, dirs, floor, call, n) == Some(i as usize));
            assert forall|j: int|
                0 <= j < n && compatible(dirs[j], call, es[j].can_board()) implies distance(
                es[i],
                floor,
            ) <= distance(#[trigger] es[j], floor) by {
                if j < i {
                    match prev {
                        Some(p) => {},
                        None => {},
                    }
                }
            }
        } else {
            assert(best_elevator(es, dirs, floor, call, n) == prev);
        }
    }
}

/// Swapping the elevators' roles twice gives each elevator its role back,
/// with the shuttle at the bottom; the rest of the controller is unchanged.
pub proof fn law_switch_twice(c: SimpleView)
    requires
        c.up <= 1,
    ensures
        c.switched().switched() == (SimpleView { target: 0, ..c }),
        c.switched().up == down_of(c.up),
{
}

/// A simple controller stays well formed, so the index of its climbing
/// elevator stays 0 or 1: a new controller is well formed (its `ensures`),
/// and swapping roles or taking a step keeps it well formed.
pub proof fn law_simple_up_index(c: SimpleView, es: Seq<ElevatorView>)
    requires
        c.wf(),
        es.len() == 2,
        !c.initialized ==> 2 <= es[0].floors.len(),
    ensures
        c.up == 0 || c.up == 1,
        c.switched().wf(),
        c.switched().up == 0 || c.switched().up == 1,
        c.next(es).wf(),
        c.next(es).up == 0 || c.next(es).up == 1,
{
}

/// Stopping after starting leaves every elevator stopped, as stopping
/// alone does.
pub proof fn law_start_then_stop(es: Seq<ElevatorRecord>)
    ensures
        with_moving(with_moving(es, true), false) == with_moving(es, false),
{
    assert(with_moving(with_moving(es, true), false) =~= with_moving(es, false));
}

/// Settings that name nothing change nothing.
pub proof fn law_empty_settings(v: SimView, s: Settings)
    requires
        s.floor_count is None,
        s.elevator_count is None,
        s.elevator_capacity is None,
        s.elevator_door_width is None,
        s.elevator_width is None,
        s.elevator_depth is None,
        s.floor_heights is None,
    ensures
        after_settings(v, s) == v,
{
}

/// Unloading lets off exactly the passengers bound for the floor the cabin
/// serves: those bound elsewhere stay on board, in their order, and the load
/// is their weight.
pub proof fn law_unload_keeps_others(e: EntityView, c: ElevatorView)
    ensures
        c.unloaded().entities == c.entities.filter(|x: EntityView| x.destination() != c.target),
        c.unloaded().load == total_weight(
            c.entities.filter(|x: EntityView| x.destination() != c.target),
        ),
        c.entities.contains(e) && e.destination() != c.target ==> c.unloaded().entities.contains(e),
        c.unloaded().entities.contains(e) ==> c.entities.contains(e) && e.destination() != c.target,
{
    let keep = |x: EntityView| x.destination() != c.target;
    assert(stays_on_board(c.target) =~= keep);
    if c.entities.contains(e) && e.destination() != c.target {
        let i = choose|i: int| 0 <= i < c.entities.len() && c.entities[i] == e;
        c.entities.filter_lemma(keep);
    }
    if c.unloaded().entities.contains(e) {
        c.entities.filter_lemma(keep);
        c.entities.lemma_filter_contains_rev(keep, e);
        let j = choose|j: int| 0 <= j < c.unloaded().entities.len() && c.unloaded().entities[j] == e;
        assert(keep(c.unloaded().entities[j]));
    }
}

/// A cabin that does not stand still at the floor it serves takes on
/// nobody: loading leaves the cabin and the queues as they were.
pub proof fn law_no_boarding_while_moving(
    e: ElevatorView,
    check_heading: bool,
    heading: Option<Direction>,
    q: QueueView,
)
    requires
        e.docked_floor != Some(e.target as usize),
    ensures
        load_at_floor(e, check_heading, heading, q) == (e, q),
{
}

/// An initialized shuttle waits for both elevators: while the climbing one
/// does not stand at its target floor, or the descending one not at the
/// mirrored floor, a step changes neither the controller nor sends a
/// target; once both stand there, the step sends new targets.
pub proof fn law_shuttle_waits_for_both(c: SimpleView, es: Seq<ElevatorView>)
    requires
        c.wf(),
        c.initialized,
        c.max_floor <= usize::MAX,
        es.len() == 2,
        es[0].target <= usize::MAX,
        es[1].target <= usize::MAX,
    ensures
        !(es[c.up as int].docked_floor == Some(c.target as usize) && es[c.up as int].target
            == c.target) ==> c.next(es) == c && !c.sends_targets(es),
        !(es[down_of(c.up) as int].docked_floor == Some((c.max_floor - c.target) as usize)
            && es[down_of(c.up) as int].target == c.max_floor - c.target) ==> c.next(es) == c
            && !c.sends_targets(es),
        (es[c.up as int].docked_floor == Some(c.target as usize) && es[c.up as int].target
            == c.target && es[down_of(c.up) as int].docked_floor == Some(
            (c.max_floor - c.target) as usize,
        ) && es[down_of(c.up) as int].target == c.max_floor - c.target) ==> c.sends_targets(es),
{
}

/// A cabin standing at its floor can take every call, and a cabin heading a
/// way can take calls that way; no cabin takes a floor without a call.
pub proof fn law_standing_cabin_takes_any_call(d: Option<Direction>, call: Direction, can_board: bool)
    ensures
        call != Direction::NoCall ==> compatible(d, call, true),
        call == Direction::Up && d == Some(Direction::Up) ==> compatible(d, call, can_board),
        call == Direction::Down && d == Some(Direction::Down) ==> compatible(d, call, can_board),
        !compatible(d, Direction::NoCall, can_board),
        !can_board && d is None ==> !compatible(d, call, can_board),
{
}

/// When some elevator stands at its floor, a call is given to some
/// elevator: the nearest-car choice finds one.
pub proof fn law_call_finds_a_standing_cabin(
    es: Seq<ElevatorView>,
    dirs: Seq<Option<Direction>>,
    floor: int,
    call: Direction,
    n: int,
    k: int,
)
    requires
        0 <= k < n <= es.len(),
        n <= dirs.len(),
        n <= usize::MAX,
        es[k].docked_floor == Some(es[k].target as usize),
        call != Direction::NoCall,
    ensures
        best_elevator(es, dirs, floor, call, n) is Some,
{
    law_nearest_is_nearest(es, dirs, floor, call, n);
    law_standing_cabin_takes_any_call(dirs[k], call, true);
}

/// The first floor that calls, while some elevator stands at its floor, is
/// served: after dispatching it, some elevator is sent to that floor.
pub proof fn law_first_call_dispatched(
    es: Seq<ElevatorView>,
    dirs: Seq<Option<Direction>>,
    calls: Seq<Direction>,
    f: int,
    k: int,
)
    requires
        0 <= f < calls.len(),
        forall|g: int| 0 <= g < f ==> calls[g] == Direction::NoCall,
        calls[f] != Direction::NoCall,
        0 <= k < es.len(),
        es.len() <= dirs.len(),
        es.len() <= usize::MAX,
        es[k].docked_floor == Some(es[k].target as usize),
    ensures
        exists|b: int| 0 <= b < es.len() && #[trigger] dispatch(es, dirs, calls, f + 1).0[b].target == f,
{
    lemma_dispatch_no_calls(es, dirs, calls, f);
    law_call_finds_a_standing_cabin(es, dirs, f, calls[f], es.len() as int, k);
    let b = best_elevator(es, dirs, f, calls[f], es.len() as int)->0;
    law_nearest_is_nearest(es, dirs, f, calls[f], es.len() as int);
    assert(dispatch(es, dirs, calls, f + 1).0[b as int].target == f);
}

proof fn lemma_dispatch_no_calls(
    es: Seq<ElevatorView>,
    dirs: Seq<Option<Direction>>,
    calls: Seq<Direction>,
    f: int,
)
    requires
        forall|g: int| 0 <= g < f ==> calls[g] == Direction::NoCall,
    ensures
        dispatch(es, dirs, calls, f) == (es, dirs),
    decreases f,
{
    if f > 0 {
        lemma_dispatch_no_calls(es, dirs, calls, f - 1);
    }
}

/// No member of a passenger would wait longer than `u64::MAX`
/// milliseconds after `increment` more.
pub open spec fn wait_fits(e: EntityView, increment: nat) -> bool {
    match e {
        EntityView::Person(h) => h.queue_wait + increment <= u64::MAX,
        EntityView::Group(s) => forall|m: int| 0 <= m < s.len() ==> #[trigger] s[m].queue_wait + increment <= u64::MAX,
    }
}

proof fn lemma_arrive_keeps_prefix(
    floors: Seq<Seq<EntityView>>,
    arrivals: Seq<(usize, EntityView)>,
    f: int,
    i: int,
)
    requires
        0 <= f < floors.len(),
        0 <= i < floors[f].len(),
        forall|k: int| 0 <= k < arrivals.len() ==> ((#[trigger] arrivals[k]).0 as nat) < floors.len(),
    ensures
        arrive(floors, arrivals).len() == floors.len(),
        i < arrive(floors, arrivals)[f].len(),
        arrive(floors, arrivals)[f][i] == floors[f][i],
    decreases arrivals.len(),
{
    lemma_arrive_len(floors, arrivals);
    if arrivals.len() > 0 {
        let a = arrivals.drop_last();
        assert forall|k: int| 0 <= k < a.len() implies ((#[trigger] a[k]).0 as nat) < floors.len() by {
            assert(a[k] == arrivals[k]);
        }
        lemma_arrive_keeps_prefix(floors, a, f, i);
        assert(arrivals.last() == arrivals[arrivals.len() - 1]);
    }
}

proof fn lemma_sum_waited(s: Seq<HumanView>, increment: nat)
    requires
        forall|m: int| 0 <= m < s.len() ==> #[trigger] s[m].queue_wait + increment <= u64::MAX,
    ensures
        sum_queue_wait(s.map_values(|h: HumanView| human_waited(h, increment))) == sum_queue_wait(s)
            + s.len() * increment,
    decreases s.len(),
{
    let t = s.map_values(|h: HumanView| human_waited(h, increment));
    if s.len() > 0 {
        let r = s.drop_last();
        assert forall|m: int| 0 <= m < r.len() implies #[trigger] r[m].queue_wait + increment <= u64::MAX by {
            assert(r[m] == s[m]);
        }
        lemma_sum_waited(r, increment);
        assert(t.drop_last() =~= r.map_values(|h: HumanView| human_waited(h, increment)));
        assert(s.last() == s[s.len() - 1]);
        assert(s.len() * increment == r.len() * increment + increment) by (nonlinear_arith)
            requires
                s.len() == r.len() + 1,
        ;
    }
}

/// Waiting `increment` milliseconds more adds exactly that to a passenger's
/// queue wait (for a group, to the mean of its members' waits), as long as
/// no wait passes `u64::MAX`, and changes nothing else a cabin cares about.
pub proof fn law_waiting_adds_the_time(e: EntityView, increment: nat)
    requires
        e.wf(),
        wait_fits(e, increment),
    ensures
        e.waited(increment).queue_wait() == e.queue_wait() + increment,
        e.waited(increment).weight() == e.weight(),
        e.waited(increment).area() == e.area(),
        e.waited(increment).destination() == e.destination(),
        e.waited(increment).people() == e.people(),
{
    crate::entity::lemma_waited_keeps(e, increment);
    match e {
        EntityView::Person(h) => {},
        EntityView::Group(s) => {
            lemma_sum_waited(s, increment);
            vstd::arithmetic::div_mod::lemma_hoist_over_denominator(
                sum_queue_wait(s) as int,
                increment as int,
                s.len(),
            );
            assert(increment * s.len() == s.len() * increment) by (nonlinear_arith);
        },
    }
}

/// A step keeps everyone who was waiting in the queues, at their places,
/// and each of them has waited one more time step: the queue wait grows by
/// exactly the step (as long as it fits), and nothing else of the passenger
/// changes.  This holds unless the controller is the nearest-car one, whose
/// cabins take passengers from the queues.
pub proof fn law_waiting_passengers_age(
    s: SystemView,
    arrivals: Seq<(usize, EntityView)>,
    g1: crate::generator::GeneratorView,
    f: int,
    i: int,
)
    requires
        !(s.controller is NearestCar),
        0 <= f < s.queue.floors.len(),
        0 <= i < s.queue.floors[f].len(),
        forall|k: int| 0 <= k < arrivals.len() ==> ((#[trigger] arrivals[k]).0 as nat) < s.queue.floors.len(),
    ensures
        ({
            let e0 = s.queue.floors[f][i];
            let q1 = s.stepped(arrivals, g1).queue;
            &&& q1.floors.len() == s.queue.floors.len()
            &&& i < q1.floors[f].len()
            &&& q1.wait_times == s.queue.wait_times
            &&& q1.floors[f][i].weight() == e0.weight()
            &&& q1.floors[f][i].area() == e0.area()
            &&& q1.floors[f][i].destination() == e0.destination()
            &&& q1.floors[f][i].people() == e0.people()
            &&& e0.wf() && wait_fits(e0, s.time_step) ==> q1.floors[f][i].queue_wait()
                == e0.queue_wait() + s.time_step
        }),
{
    let c = s.clocked();
    lemma_arrive_keeps_prefix(c.queue.floors, arrivals, f, i);
    let a = arrive(c.queue.floors, arrivals);
    let w = floors_waited(a, c.time_step);
    assert(w[f][i] == a[f][i].waited(c.time_step));
    crate::entity::lemma_waited_keeps(a[f][i], c.time_step);
    if s.queue.floors[f][i].wf() && wait_fits(s.queue.floors[f][i], s.time_step) {
        law_waiting_adds_the_time(s.queue.floors[f][i], s.time_step);
    }
}

} // verus!
