use iracing_stats::sof_calculator::{mean_rating, normalize_rating, SofCalculator, SofCalculators};

#[test]
fn unrated_solo_driver_counts_at_baseline() {
    let mut c = SofCalculator::new();
    c.add_solo_driver(-1);
    assert_eq!(c.ratings(), vec![1350]);
    assert_eq!(c.get_team_count(), 1);
}

#[test]
fn unrated_team_driver_counts_at_baseline() {
    let mut c = SofCalculator::new();
    c.begin_team();
    c.add_team_driver(-1);
    c.add_team_driver(1550);
    c.end_team();
    assert_eq!(c.ratings(), vec![1450]);
}

#[test]
fn normalize_keeps_real_ratings() {
    assert_eq!(normalize_rating(-1), 1350);
    assert_eq!(normalize_rating(0), 0);
    assert_eq!(normalize_rating(2500), 2500);
}

#[test]
fn team_contributes_one_averaged_participant() {
    let mut c = SofCalculator::new();
    c.begin_team();
    c.add_team_driver(1000);
    c.add_team_driver(2000);
    c.end_team();
    assert_eq!(c.ratings(), vec![1500]);
    assert_eq!(c.get_team_count(), 1);
}

#[test]
fn team_mean_rounds_down() {
    assert_eq!(mean_rating(&vec![1000, 1001]), 1000);
    assert_eq!(mean_rating(&vec![-3, -4]), -4);
    assert_eq!(mean_rating(&vec![i64::MAX, i64::MAX]), i64::MAX);
    assert_eq!(mean_rating(&vec![i64::MIN, i64::MIN, i64::MIN]), i64::MIN);
}

#[test]
fn empty_team_counts_without_rating() {
    let mut c = SofCalculator::new();
    c.begin_team();
    c.end_team();
    assert_eq!(c.get_team_count(), 1);
    assert!(c.ratings().is_empty());
}

#[test]
fn classes_and_total_see_the_same_participants() {
    let mut s = SofCalculators::new();
    s.add_solo_driver(7, 2000);
    s.add_solo_driver(9, -1);
    s.begin_team(7);
    s.add_team_driver(1000);
    s.add_team_driver(2000);
    s.end_team();
    assert_eq!(s.total().ratings(), vec![2000, 1350, 1500]);
    assert_eq!(s.total().get_team_count(), 3);
    assert_eq!(s.class_count(), 2);
    let (id0, c0) = s.class_at(0);
    assert_eq!(id0, 7);
    assert_eq!(c0.ratings(), vec![2000, 1500]);
    assert_eq!(c0.get_team_count(), 2);
    let (id1, c1) = s.class_at(1);
    assert_eq!(id1, 9);
    assert_eq!(c1.ratings(), vec![1350]);
}

#[test]
fn no_participants_no_ratings() {
    let s = SofCalculators::new();
    assert_eq!(s.class_count(), 0);
    assert_eq!(s.total().get_team_count(), 0);
    assert!(s.total().ratings().is_empty());
}
