//! The plan of a generation in the evolutionary training of the learning
//! controller: which kept network each member of the next generation comes
//! from, and whether it is that network itself or a mutated copy.
use vstd::prelude::*;

verus! {

/// Number of members of the next generation: one per child of each kept
/// network, at most the population size.
pub open spec fn plan_len(count_to_keep: nat, child_count: nat, population_size: nat) -> nat {
    if count_to_keep * child_count < population_size {
        count_to_keep * child_count
    } else {
        population_size
    }
}

/// The plan of the next generation: the kept networks, best first, each
/// give `child_count` members in turn, first the network itself and then
/// mutated copies, until the population is full.  Member `m` comes from
/// kept network `m / child_count` and is a mutated copy unless it is the
/// first child of that network.
pub fn generation_plan(count_to_keep: usize, child_count: usize, population_size: usize) -> (plan:
    Vec<(usize, bool)>)
    ensures
        plan@.len() == plan_len(count_to_keep as nat, child_count as nat, population_size as nat),
        forall|m: int|
            0 <= m < plan@.len() ==> #[trigger] plan@[m] == ((m / (child_count as int)) as usize, m
                % (child_count as int) != 0),
{
    proof {
        assert(count_to_keep * child_count <= usize::MAX * usize::MAX) by (nonlinear_arith)
            requires
                count_to_keep <= usize::MAX,
                child_count <= usize::MAX,
        ;
    }
    let children = count_to_keep as u128 * child_count as u128;
    let limit: usize = if children < population_size as u128 {
        children as usize
    } else {
        population_size
    };
    let mut plan: Vec<(usize, bool)> = Vec::new();
    let mut m: usize = 0;
    while m < limit
        invariant
            limit == plan_len(count_to_keep as nat, child_count as nat, population_size as nat),
            limit <= count_to_keep * child_count,
            0 <= m <= limit,
            plan@.len() == m,
            forall|k: int|
                0 <= k < m ==> #[trigger] plan@[k] == ((k / (child_count as int)) as usize, k
                    % (child_count as int) != 0),
        decreases limit - m,
    {
        proof {
            assert(child_count > 0) by (nonlinear_arith)
                requires
                    m < limit,
                    limit <= count_to_keep * child_count,
            ;
            assert((m as int) / (child_count as int) <= m as int) by (nonlinear_arith)
                requires
                    child_count > 0,
                    m >= 0,
            ;
        }
        plan.push((m / child_count, m % child_count != 0));
        m = m + 1;
    }
    plan
}

} // verus!
