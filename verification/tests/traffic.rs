use r_flightsim::traffic::{next_waypoint, NavPlan, NavState};
use rand::rngs::StdRng;
use rand::SeedableRng;

#[test]
fn next_waypoint_skips_the_current_one() {
    assert_eq!(next_waypoint(0, 0), 1);
    assert_eq!(next_waypoint(0, 1), 2);
    assert_eq!(next_waypoint(1, 0), 0);
    assert_eq!(next_waypoint(1, 1), 2);
    assert_eq!(next_waypoint(2, 0), 0);
    assert_eq!(next_waypoint(2, 1), 1);
}

#[test]
fn planes_loiter_then_fly_elsewhere() {
    let mut rng = StdRng::seed_from_u64(42);
    let mut plan = NavPlan::new(&mut rng);
    assert_eq!(plan.nav_state, NavState::Loiter);
    assert!(plan.current_wp < 3);
    for _ in 0..20 {
        let start = plan.current_wp;
        plan.begin_transit(&mut rng);
        assert_eq!(plan.nav_state, NavState::Transit);
        assert_ne!(plan.target_wp, start);
        assert!(plan.target_wp < 3);
        plan.arrive();
        assert_eq!(plan.nav_state, NavState::Loiter);
        assert_eq!(plan.current_wp, plan.target_wp);
    }
}
