use ray_tracer::{nearest, Action, Path};

#[test]
fn nearest_of_no_spheres_is_none() {
    assert_eq!(nearest(&vec![]), None);
}

#[test]
fn nearest_when_every_sphere_is_missed_is_none() {
    assert_eq!(nearest(&vec![None, None, None]), None);
}

#[test]
fn nearest_picks_smallest_key() {
    assert_eq!(nearest(&vec![Some(5), None, Some(3), Some(4)]), Some(2));
}

#[test]
fn nearest_breaks_ties_by_first() {
    assert_eq!(nearest(&vec![None, Some(3), Some(3)]), Some(1));
}

#[test]
fn nearest_of_float_distances_orders_by_distance() {
    let near = 1.0f64.to_bits();
    let far = 5.0f64.to_bits();
    assert_eq!(nearest(&vec![Some(near), Some(far)]), Some(0));
    assert_eq!(nearest(&vec![Some(far), Some(near)]), Some(1));
    let tiny = 0.25f64.to_bits();
    let huge = 1.0e300f64.to_bits();
    assert_eq!(nearest(&vec![Some(huge), Some(tiny), Some(far)]), Some(1));
}

#[test]
fn path_in_empty_scene_escapes_at_once() {
    for budget in [0u32, 1, 10, u32::MAX] {
        let mut path = Path::new(budget);
        assert_eq!(path.step(None), Action::Escape);
        assert_eq!(path.bounces(), 0);
        assert_eq!(path.max_bounces(), budget);
    }
}

#[test]
fn path_with_one_sphere_in_the_way_bounces_then_escapes() {
    let mut path = Path::new(1);
    assert_eq!(path.step(Some(0)), Action::Bounce(0));
    assert_eq!(path.bounces(), 1);
    assert_eq!(path.step(None), Action::Escape);
    assert_eq!(path.bounces(), 1);
}

#[test]
fn path_that_keeps_hitting_is_absorbed() {
    let mut path = Path::new(2);
    assert_eq!(path.step(Some(3)), Action::Bounce(3));
    assert_eq!(path.step(Some(1)), Action::Bounce(1));
    assert_eq!(path.step(Some(3)), Action::Absorb);
    assert_eq!(path.bounces(), 2);
}

#[test]
fn path_without_budget_is_absorbed_on_first_hit() {
    let mut path = Path::new(0);
    assert_eq!(path.step(Some(0)), Action::Absorb);
    assert_eq!(path.bounces(), 0);
}

#[test]
fn path_with_largest_budget_counts_bounces() {
    let mut path = Path::new(u32::MAX);
    for n in 1..=100u32 {
        assert_eq!(path.step(Some(7)), Action::Bounce(7));
        assert_eq!(path.bounces(), n);
    }
    assert_eq!(path.step(None), Action::Escape);
}
