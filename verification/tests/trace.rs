use navigo::{Area, Elevation, Error, Location, Trace};

fn fixed(value: f64, scale: f64) -> i64 {
    (value * scale).round() as i64
}

fn sample(longitude: f64, latitude: f64, altitude: f64) -> Location {
    Location {
        longitude: fixed(longitude, 1_000_000.0),
        latitude: fixed(latitude, 1_000_000.0),
        altitude: fixed(altitude, 1_000.0),
    }
}

/// Seven samples of a walk in the mountains.
fn walk() -> Vec<Location> {
    vec![
        sample(0.32751, 42.830182, 790.0),
        sample(0.32802, 42.829719999999995, 792.0),
        sample(0.32839999999999997, 42.8296, 792.0),
        sample(0.32882, 42.829181, 792.0),
        sample(0.328684, 42.828782, 793.0),
        sample(0.328401, 42.828402, 795.0),
        sample(0.32799, 42.82803, 794.0),
    ]
}

/// The legs of the walk, in millimetres.
fn walk_legs() -> Vec<u64> {
    vec![66_097, 33_739, 57_825, 45_732, 48_146, 53_239]
}

#[test]
fn elevation_adds_rises_and_falls_apart() {
    let trace = Trace { locations: walk(), legs: walk_legs() };

    let elevation = trace.elevation();

    assert_eq!(elevation.positive, 5_000);
    assert_eq!(elevation.negative, 1_000);
}

#[test]
fn elevation_of_a_short_trace_is_zero() {
    let none = Trace { locations: vec![], legs: vec![] };
    let one = Trace { locations: vec![sample(1.0, 2.0, 300.0)], legs: vec![] };

    assert_eq!(none.elevation(), Elevation { positive: 0, negative: 0 });
    assert_eq!(one.elevation(), Elevation { positive: 0, negative: 0 });
}

#[test]
fn elevation_over_the_extreme_altitudes_does_not_wrap() {
    let low = Location { longitude: 0, latitude: 0, altitude: i64::MIN };
    let high = Location { longitude: 0, latitude: 0, altitude: i64::MAX };
    let trace = Trace { locations: vec![low, high, low, high], legs: vec![0, 0, 0] };

    let elevation = trace.elevation();

    assert_eq!(elevation.positive, 2 * (u64::MAX as u128));
    assert_eq!(elevation.negative, u64::MAX as u128);
}

#[test]
fn length_is_the_sum_of_the_legs() {
    let trace = Trace { locations: walk(), legs: walk_legs() };

    assert_eq!(trace.length(), 304_778);
}

#[test]
fn length_of_a_short_trace_is_zero() {
    let none = Trace { locations: vec![], legs: vec![] };
    let one = Trace { locations: vec![sample(1.0, 2.0, 300.0)], legs: vec![] };

    assert_eq!(none.length(), 0);
    assert_eq!(one.length(), 0);
}

#[test]
fn length_of_the_longest_legs_does_not_wrap() {
    let here = sample(0.0, 0.0, 0.0);
    let trace = Trace { locations: vec![here, here, here], legs: vec![u64::MAX, u64::MAX] };

    assert_eq!(trace.length(), 2 * (u64::MAX as u128));
}

#[test]
fn compute_area_for_trace() {
    let paris = sample(2.350987, 48.856667, 800.00);
    let moscow = sample(37.617634, 55.755787, 200.00);

    let locations = vec![paris, moscow];
    let trace = Trace { locations, legs: vec![2_486_340_993] };

    let computed_area = trace.area();
    assert_eq!(computed_area.is_ok(), true);

    let area = Area {
        min_longitude: fixed(2.350987, 1_000_000.0),
        max_longitude: fixed(37.617634, 1_000_000.0),
        min_latitude: fixed(48.856667, 1_000_000.0),
        max_latitude: fixed(55.755787, 1_000_000.0),
    };

    assert_eq!(computed_area.ok(), Some(area));
}

#[test]
fn area_takes_each_edge_from_the_sample_that_reaches_it() {
    let at = |longitude: i64, latitude: i64| Location { longitude, latitude, altitude: 0 };
    let trace = Trace {
        locations: vec![at(5, 5), at(-3, 7), at(9, -2), at(4, 12), at(5, 5)],
        legs: vec![1, 1, 1, 1],
    };

    assert_eq!(
        trace.area(),
        Ok(Area { min_longitude: -3, max_longitude: 9, min_latitude: -2, max_latitude: 12 })
    );
}

#[test]
fn area_of_one_sample_is_that_point() {
    let trace = Trace {
        locations: vec![Location { longitude: 7, latitude: -8, altitude: 9 }],
        legs: vec![],
    };

    assert_eq!(
        trace.area(),
        Ok(Area { min_longitude: 7, max_longitude: 7, min_latitude: -8, max_latitude: -8 })
    );
}

#[test]
fn should_return_error_while_computing_area_for_empty_trace() {
    let locations = vec![];
    let trace = Trace { locations, legs: vec![] };

    let computed_area = trace.area();

    assert_eq!(computed_area.is_ok(), false);
    assert_eq!(computed_area.err(), Some(Error::EmptyTrace));
}

#[test]
fn should_return_error_while_getting_trace_section_for_empty_trace() {
    let locations = vec![];
    let trace = Trace { locations, legs: vec![] };

    let computed_section = trace.get_section(0, 10);

    assert_eq!(computed_section.is_ok(), false);
    assert_eq!(computed_section.err(), Some(Error::EmptyTrace));
}

#[test]
fn should_retrieve_section() {
    let locations = walk();
    let trace = Trace { locations, legs: walk_legs() };

    let section = vec![
        sample(0.32882, 42.829181, 792.0),
        sample(0.328684, 42.828782, 793.0),
    ];

    let computed_section = trace.get_section(2, 5);

    assert_eq!(computed_section.is_ok(), true);
    assert_eq!(Some(section), computed_section.ok())
}

#[test]
fn section_leaves_out_both_ends() {
    let trace = Trace { locations: walk(), legs: walk_legs() };
    let all = walk();

    assert_eq!(trace.get_section(0, 6), Ok(all[1..6].to_vec()));
    assert_eq!(trace.get_section(0, 2), Ok(vec![all[1]]));
    assert_eq!(trace.get_section(0, 1), Ok(vec![]));
    assert_eq!(trace.get_section(3, 3), Ok(vec![]));
}

#[test]
fn section_takes_odd_indices_as_they_come() {
    let trace = Trace { locations: walk(), legs: walk_legs() };
    let all = walk();

    assert_eq!(trace.get_section(5, 2), Ok(vec![]));
    assert_eq!(trace.get_section(4, 100), Ok(all[5..].to_vec()));
    assert_eq!(trace.get_section(0, usize::MAX), Ok(all[1..].to_vec()));
    assert_eq!(trace.get_section(6, 100), Ok(vec![]));
    assert_eq!(trace.get_section(50, 100), Ok(vec![]));
    assert_eq!(trace.get_section(usize::MAX, usize::MAX), Ok(vec![]));
}
