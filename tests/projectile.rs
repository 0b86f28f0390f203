use artificer::projectile::{
    plan_shot, Lifetime, PlayerLookup, ShotOrigin, ShotPlan, ShotTarget, NANOS_PER_SECOND,
    PROJECTILE_LIFETIME_NANOS,
};

#[test]
fn new_projectiles_live_one_second() {
    assert_eq!(PROJECTILE_LIFETIME_NANOS, NANOS_PER_SECOND);
    assert_eq!(Lifetime::default().remaining, 1_000_000_000);
}

#[test]
fn lifetime_counts_down_by_elapsed_time() {
    let mut l = Lifetime::from_nanos(1_000);
    assert!(!l.tick(300));
    assert_eq!(l.remaining, 700);
    assert!(!l.tick(699));
    assert_eq!(l.remaining, 1);
}

#[test]
fn lifetime_expires_when_elapsed_reaches_it_exactly() {
    let mut l = Lifetime::from_nanos(500);
    assert!(l.tick(500));
    assert_eq!(l.remaining, 0);
}

#[test]
fn lifetime_stops_at_zero_when_overshot() {
    let mut l = Lifetime::from_nanos(500);
    assert!(l.tick(u64::MAX));
    assert_eq!(l.remaining, 0);
}

#[test]
fn projectile_is_removed_on_first_frame_reaching_its_lifetime() {
    let mut l = Lifetime::default();
    let frames = [400_000_000u64, 400_000_000, 400_000_000, 400_000_000];
    let mut removed_at = Vec::new();
    let mut alive = true;
    for (i, dt) in frames.iter().enumerate() {
        if alive && l.tick(*dt) {
            removed_at.push(i);
            alive = false;
        }
    }
    assert_eq!(removed_at, vec![2]);
}

#[test]
fn no_shot_without_fire_input() {
    assert_eq!(plan_shot(false, PlayerLookup::Found, true), None);
    assert_eq!(plan_shot(false, PlayerLookup::Missing, false), None);
}

#[test]
fn shot_from_player_at_nearest_hit() {
    assert_eq!(
        plan_shot(true, PlayerLookup::Found, true),
        Some(ShotPlan { origin: ShotOrigin::Player, target: ShotTarget::NearestHit })
    );
}

#[test]
fn shot_without_hit_aims_at_far_point() {
    assert_eq!(
        plan_shot(true, PlayerLookup::Found, false),
        Some(ShotPlan { origin: ShotOrigin::Player, target: ShotTarget::FarPoint })
    );
}

#[test]
fn shot_without_single_player_starts_at_origin() {
    assert_eq!(
        plan_shot(true, PlayerLookup::Missing, true),
        Some(ShotPlan { origin: ShotOrigin::WorldOrigin, target: ShotTarget::NearestHit })
    );
    assert_eq!(
        plan_shot(true, PlayerLookup::Several, false),
        Some(ShotPlan { origin: ShotOrigin::WorldOrigin, target: ShotTarget::FarPoint })
    );
}
