use vmar::algorithms::k_means::{DataState, KMResult, KMeans};
use vmar::basic_data_structures::point::Point;

fn two_groups() -> Vec<Point> {
    let mut data: Vec<Point> = vec![];
    for _ in 0..10 {
        data.push(Point::new(3, 2));
    }
    for _ in 0..10 {
        data.push(Point::new(10, 17));
    }
    data
}

fn build(data: Vec<Point>, centers: Vec<Point>) -> KMeans<Point> {
    match KMeans::new(data, centers) {
        DataState::Created(val) => val,
        _ => panic!("KMeans was not created"),
    }
}

#[test]
fn algorithm_validity() {
    let data = two_groups();
    let centers = vec![Point::new(0, 0), Point::new(20, 20)];
    let mut algo = build(data, centers);
    match algo.find_possible_centers(5) {
        Some(err) => panic!("{}", err),
        None => (),
    };
    match algo.show_centers_with_data() {
        KMResult::NotCalculated => panic!("K means is not calculated"),
        KMResult::Calculated(centers_and_data) => {
            assert_eq!(centers_and_data[0].0, Point::new(3, 2));
            assert_eq!(centers_and_data[1].0, Point::new(10, 17));
            assert_eq!(centers_and_data[0].1, vec![Point::new(3, 2); 10]);
            assert_eq!(centers_and_data[1].1, vec![Point::new(10, 17); 10]);
        }
    }
}

#[test]
#[should_panic(expected = "No data points supplied")]
fn no_data_points_supplied() {
    let data: Vec<Point> = vec![];
    let centers = vec![Point::new(0, 0), Point::new(20, 20)];
    match KMeans::new(data, centers) {
        DataState::Created(_) => panic!("Expected NoPoints panic, got Ok"),
        DataState::NoPoints => panic!("No data points supplied"),
        DataState::NoCenters | DataState::MoreCentersThanPoints | DataState::NotEqualDimensions => {
            panic!("Expected NoPoints panic, got other")
        }
    };
}

#[test]
#[should_panic(expected = "No center points supplied")]
fn no_center_points_supplied() {
    let data = two_groups();
    let centers: Vec<Point> = vec![];
    match KMeans::new(data, centers) {
        DataState::Created(_) => panic!("Expected NoCenters panic, got Ok"),
        DataState::NoCenters => panic!("No center points supplied"),
        DataState::NoPoints | DataState::MoreCentersThanPoints | DataState::NotEqualDimensions => {
            panic!("Expected NoCenters panic, got other")
        }
    };
}

#[test]
#[should_panic(expected = "More centers than points supplied")]
fn more_centers_than_points_supplied() {
    let mut data: Vec<Point> = vec![];
    for _ in 0..2 {
        data.push(Point::new(3, 2));
    }
    let centers = vec![Point::new(0, 0), Point::new(20, 20), Point::new(30, 30)];
    match KMeans::new(data, centers) {
        DataState::Created(_) => panic!("Expected MoreCentersThanPoints panic, got Ok"),
        DataState::MoreCentersThanPoints => panic!("More centers than points supplied"),
        DataState::NoPoints | DataState::NoCenters | DataState::NotEqualDimensions => {
            panic!("Expected MoreCentersThanPoints panic, got other")
        }
    };
}

#[test]
fn empty_data_and_empty_centers_give_no_points() {
    assert!(matches!(KMeans::<Point>::new(vec![], vec![]), DataState::NoPoints));
}

#[test]
fn zero_iterations_leave_result_not_calculated() {
    let mut algo = build(two_groups(), vec![Point::new(0, 0), Point::new(20, 20)]);
    assert!(algo.find_possible_centers(0).is_none());
    assert!(matches!(algo.show_centers_with_data(), KMResult::NotCalculated));
}

#[test]
fn single_center_takes_all_points() {
    let data = vec![Point::new(0, 0), Point::new(4, 0), Point::new(2, 6)];
    let mut algo = build(data.clone(), vec![Point::new(100, 100)]);
    assert!(algo.find_possible_centers(1).is_none());
    match algo.show_centers_with_data() {
        KMResult::NotCalculated => panic!("K means is not calculated"),
        KMResult::Calculated(r) => {
            assert_eq!(r.len(), 1);
            assert_eq!(r[0].0, Point::new(2, 2));
            assert_eq!(r[0].1, data);
        }
    }
}

#[test]
fn run_zero_after_run_keeps_result() {
    let mut algo = build(two_groups(), vec![Point::new(0, 0), Point::new(20, 20)]);
    assert!(algo.find_possible_centers(3).is_none());
    let before = match algo.show_centers_with_data() {
        KMResult::Calculated(r) => r,
        KMResult::NotCalculated => panic!("K means is not calculated"),
    };
    assert!(algo.find_possible_centers(0).is_none());
    match algo.show_centers_with_data() {
        KMResult::Calculated(r) => assert_eq!(r, before),
        KMResult::NotCalculated => panic!("K means is not calculated"),
    }
}

#[test]
fn equidistant_point_goes_to_first_center() {
    let data = vec![Point::new(5, 0), Point::new(5, 7)];
    let algo = build(data, vec![Point::new(0, 0), Point::new(10, 0)]);
    let r = algo.assign_all_points_to_nearest_current_center().unwrap();
    assert_eq!(r[0].0, Point::new(0, 0));
    assert_eq!(r[0].1, vec![Point::new(5, 0), Point::new(5, 7)]);
    assert_eq!(r[1].0, Point::new(10, 0));
    assert!(r[1].1.is_empty());
}

#[test]
fn empty_cluster_keeps_its_center() {
    let data = vec![Point::new(1, 1), Point::new(3, 3)];
    let mut algo = build(data, vec![Point::new(2, 2), Point::new(50, 50)]);
    assert!(algo.find_possible_centers(2).is_none());
    match algo.show_centers_with_data() {
        KMResult::Calculated(r) => {
            assert_eq!(r[0].0, Point::new(2, 2));
            assert_eq!(r[1].0, Point::new(50, 50));
            assert!(r[1].1.is_empty());
        }
        KMResult::NotCalculated => panic!("K means is not calculated"),
    }
}

#[test]
fn assignment_does_not_advance_the_algorithm() {
    let algo = build(two_groups(), vec![Point::new(0, 0), Point::new(20, 20)]);
    let r = algo.assign_all_points_to_nearest_current_center().unwrap();
    assert_eq!(r[0].0, Point::new(0, 0));
    assert_eq!(r[0].1, vec![Point::new(3, 2); 10]);
    assert_eq!(r[1].0, Point::new(20, 20));
    assert_eq!(r[1].1, vec![Point::new(10, 17); 10]);
    assert!(matches!(algo.show_centers_with_data(), KMResult::NotCalculated));
}

#[test]
fn replacing_inputs_resets_the_result() {
    let mut algo = build(two_groups(), vec![Point::new(0, 0), Point::new(20, 20)]);
    assert!(algo.find_possible_centers(1).is_none());
    assert!(algo.change_center_points(vec![Point::new(1, 1)]).is_none());
    assert!(matches!(algo.show_centers_with_data(), KMResult::NotCalculated));
    assert!(algo.find_possible_centers(1).is_none());
    assert!(algo.change_data_points(vec![Point::new(9, 9)]).is_none());
    assert!(matches!(algo.show_centers_with_data(), KMResult::NotCalculated));
    assert!(algo
        .change_data_and_center_points(vec![Point::new(4, 4), Point::new(6, 6)], vec![Point::new(0, 0)])
        .is_none());
    assert!(algo.find_possible_centers(1).is_none());
    match algo.show_centers_with_data() {
        KMResult::Calculated(r) => assert_eq!(r[0].0, Point::new(5, 5)),
        KMResult::NotCalculated => panic!("K means is not calculated"),
    }
}

#[test]
fn rejected_replacement_leaves_engine_unchanged() {
    let mut algo = build(two_groups(), vec![Point::new(0, 0), Point::new(20, 20)]);
    assert!(algo.find_possible_centers(1).is_none());
    assert!(matches!(algo.change_data_points(vec![]), Some(DataState::NoPoints)));
    assert!(matches!(algo.change_center_points(vec![]), Some(DataState::NoCenters)));
    assert!(matches!(
        algo.change_data_and_center_points(vec![Point::new(1, 1)], vec![Point::new(0, 0), Point::new(2, 2)]),
        Some(DataState::MoreCentersThanPoints)
    ));
    match algo.show_centers_with_data() {
        KMResult::Calculated(r) => {
            assert_eq!(r[0].0, Point::new(3, 2));
            assert_eq!(r[1].0, Point::new(10, 17));
        }
        KMResult::NotCalculated => panic!("K means is not calculated"),
    }
}
