use elevator_lib::entity::Entity;
use elevator_lib::generator::{AttemptDraws, PopulationGenerator, PopulationTables};
use elevator_lib::human::Gender;
use elevator_lib::population::{CommuteByAge, EntityType, WeightDistribution};

const PERCENTILES: [u32; 9] = [50_000, 55_000, 58_000, 62_000, 70_000, 78_000, 84_000, 88_000, 95_000];

fn weights() -> WeightDistribution {
    let mut w = WeightDistribution::new();
    w.insert((18, 49), PERCENTILES);
    w.insert((50, 90), [1, 2, 3, 4, 5, 6, 7, 8, 9]);
    w
}

fn commute(p: u32) -> CommuteByAge {
    let mut c = CommuteByAge::new();
    c.insert("15-24".to_string(), [p, p, p]);
    c.insert("25-54".to_string(), [p, p, p]);
    c.insert("55+".to_string(), [p, p, p]);
    c
}

#[test]
fn commute_probability_by_age_and_hour() {
    let mut c = CommuteByAge::new();
    c.insert("15-24".to_string(), [100, 200, 300]);
    c.insert("25-54".to_string(), [400, 500, 600]);
    assert_eq!(c.get_probability(20, 7), 100);
    assert_eq!(c.get_probability(20, 12), 200);
    assert_eq!(c.get_probability(24, 19), 300);
    assert_eq!(c.get_probability(30, 6), 400);
    assert_eq!(c.get_probability(54, 14), 500);
    // outside the commuting periods
    assert_eq!(c.get_probability(30, 10), 0);
    assert_eq!(c.get_probability(30, 23), 0);
    // no entry for the age group
    assert_eq!(c.get_probability(70, 7), 0);
    assert_eq!(c.get_probability(10, 7), 0);
    // a later entry for a group replaces the earlier one
    c.insert("15-24".to_string(), [7, 8, 9]);
    assert_eq!(c.get_probability(20, 12), 8);
}

#[test]
fn weight_bands_follow_percentiles() {
    let w = weights();
    assert_eq!(w.weight_for_draw(30, 0), Ok(50_000));
    assert_eq!(w.weight_for_draw(30, 499), Ok(50_000));
    assert_eq!(w.weight_for_draw(30, 500), Ok(55_000));
    assert_eq!(w.weight_for_draw(30, 1499), Ok(58_000));
    assert_eq!(w.weight_for_draw(30, 2000), Ok(62_000));
    assert_eq!(w.weight_for_draw(30, 4999), Ok(70_000));
    assert_eq!(w.weight_for_draw(30, 7000), Ok(78_000));
    assert_eq!(w.weight_for_draw(30, 8000), Ok(84_000));
    assert_eq!(w.weight_for_draw(30, 8999), Ok(88_000));
    assert_eq!(w.weight_for_draw(30, 9999), Ok(95_000));
    assert_eq!(w.weight_for_draw(60, 9999), Ok(9));
    assert_eq!(w.weight_for_draw(10, 0), Err("No matching age range found"));
    assert!(w.randomly_generate(5).is_err());
}

#[test]
fn random_weights_are_percentiles_and_vary() {
    let w = weights();
    let mut seen = std::collections::HashSet::new();
    for _ in 0..2000 {
        let x = w.randomly_generate(30).unwrap();
        assert!(PERCENTILES.contains(&x));
        seen.insert(x);
    }
    assert!(seen.len() > 1);
}

#[test]
fn entity_types_are_distinct() {
    assert_ne!(EntityType::Human, EntityType::HumanGroup);
}

fn generator(rate: u64, commute_p: u32, floors: usize) -> PopulationGenerator {
    PopulationGenerator::new(floors, vec![(8, rate)], commute(commute_p), weights(), weights())
}

#[test]
fn no_passengers_until_one_is_owed() {
    // half a passenger per hour, half an hour: a quarter passenger owed
    let mut g = generator(500_000, 1_000_000, 5);
    let r = g.generate(8, 1_800_000, 3_600_000);
    assert!(r.is_empty());
    assert_eq!(g.get_accumulated(), 250_000);
    // another hour of a different time adds nothing
    let r = g.generate(9, 3_600_000, 3_600_000);
    assert!(r.is_empty());
    assert_eq!(g.get_accumulated(), 250_000);
}

#[test]
fn generated_passengers_go_elsewhere() {
    // forty passengers per hour, one hour, everybody commutes
    let mut g = generator(40_000_000, 1_000_000, 6);
    let r = g.generate(8, 3_600_000, 3_600_000);
    assert_eq!(r.len(), 40);
    assert_eq!(g.get_entity_generated(), 40);
    assert_eq!(g.get_accumulated(), 0);
    let mut group_people = 0;
    for (floor, e) in &r {
        assert!(*floor < 6);
        assert_ne!(e.get_destination(), *floor);
        assert!(e.get_destination() < 6);
        if let Entity::Group(grp) = e {
            assert_eq!(grp.len(), 2);
            group_people += 2;
        }
    }
    // only members of groups are counted as generated people
    assert_eq!(g.get_human_generated(), group_people);
}

#[test]
fn nobody_commutes_with_zero_probability() {
    let mut g = generator(10_000_000, 0, 4);
    let r = g.generate(8, 3_600_000, 3_600_000);
    assert!(r.is_empty());
    assert_eq!(g.get_entity_generated(), 0);
    // the owed passengers stay owed
    assert_eq!(g.get_accumulated(), 10_000_000);
}

#[test]
fn tables_for_a_system() {
    let t = PopulationTables {
        avg_passenger_by_time: vec![(8, 1)],
        commute_by_age: commute(1),
        avg_female_weight: weights(),
        avg_male_weight: weights(),
    };
    assert_eq!(t.avg_passenger_by_time.len(), 1);
}

#[test]
fn weight_table_coverage() {
    let mut w = WeightDistribution::new();
    w.insert((20, 29), [1, 2, 3, 4, 5, 6, 7, 8, 9]);
    assert!(w.covers_age(20));
    assert!(w.covers_age(29));
    assert!(!w.covers_age(30));
    assert!(!w.covers_age(19));
}

fn draws(floor: usize, kind: u64, destination: usize, commutes: [u64; 2]) -> AttemptDraws {
    AttemptDraws {
        floor,
        kind,
        destination,
        age: 30,
        genders: [0, 1],
        weights: [0, 9999],
        commutes,
    }
}

#[test]
fn a_drawn_person_is_exact() {
    // a commuting probability of one half
    let g = generator(0, 500_000, 5);
    // the destination draw skips the floor where the person appears
    let e = g.create_human(&draws(2, 100, 1, [499_999, 0]), 8).unwrap();
    assert_eq!(e.get_destination(), 1);
    assert_eq!(e.get_weight(), 50_000);
    assert_eq!(e.get_area(), 5000);
    let e = g.create_human(&draws(2, 100, 2, [0, 0]), 8).unwrap();
    assert_eq!(e.get_destination(), 3);
    if let Entity::Person(h) = &e {
        assert_eq!(h.get_gender(), Gender::Male);
        assert_eq!(h.get_age(), 30);
    } else {
        panic!("expected a person");
    }
    // a draw at the probability does not commute
    assert!(g.create_human(&draws(2, 100, 2, [500_000, 0]), 8).is_none());
    // outside the commuting hours nobody commutes
    assert!(g.create_human(&draws(2, 100, 2, [0, 0]), 10).is_none());
}

#[test]
fn a_drawn_pair_is_exact() {
    let mut g = generator(0, 500_000, 5);
    let e = g.create_human_group(&draws(0, 900, 3, [0, 0]), 8).unwrap();
    assert_eq!(e.people(), 2);
    assert_eq!(e.get_destination(), 4);
    // the male member weighs the lowest percentile, the female the highest
    assert_eq!(e.get_weight(), 50_000 + 95_000);
    assert_eq!(e.get_area(), 200_000);
    assert_eq!(g.get_human_generated(), 2);
    // only the second member commutes
    let e = g.create_human_group(&draws(0, 900, 3, [600_000, 0]), 8).unwrap();
    assert_eq!(e.people(), 1);
    assert_eq!(e.get_weight(), 95_000);
    assert_eq!(g.get_human_generated(), 3);
    // neither commutes
    assert!(g.create_human_group(&draws(0, 900, 3, [600_000, 600_000]), 8).is_none());
    assert_eq!(g.get_human_generated(), 3);
}

#[test]
fn fractions_of_passengers_are_carried() {
    // one passenger an hour, one second at a time, nobody commutes
    let mut g = generator(1_000_000, 0, 4);
    for _ in 0..3600 {
        assert!(g.generate(8, 1000, 3_600_000).is_empty());
    }
    assert_eq!(g.get_accumulated(), 1_000_000);
}

#[test]
fn an_attempt_follows_its_kind_draw() {
    let mut g = generator(0, 500_000, 5);
    // below 700 a single person
    let e = g.attempt(&draws(1, 699, 0, [0, 0]), 8).unwrap();
    assert!(matches!(e, Entity::Person(_)));
    assert_eq!(g.get_human_generated(), 0);
    // from 700 a pair, whose members are counted
    let e = g.attempt(&draws(1, 700, 0, [0, 0]), 8).unwrap();
    assert!(matches!(e, Entity::Group(_)));
    assert_eq!(g.get_human_generated(), 2);
}
