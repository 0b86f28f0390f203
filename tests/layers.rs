use artificer::layers::{player_layers, projectile_layers, GameLayer, LayerMasks};

#[test]
fn each_layer_owns_one_bit_in_declaration_order() {
    assert_eq!(GameLayer::Default.to_bits(), 1);
    assert_eq!(GameLayer::Player.to_bits(), 2);
    assert_eq!(GameLayer::Enemy.to_bits(), 4);
    assert_eq!(GameLayer::Ground.to_bits(), 8);
    assert_eq!(GameLayer::Projectile.to_bits(), 16);
}

#[test]
fn masks_combine_the_filter_bits() {
    let m = LayerMasks::new(GameLayer::Enemy, &[GameLayer::Player, GameLayer::Projectile]);
    assert_eq!(m.memberships, 4);
    assert_eq!(m.filters, 2 | 16);
}

#[test]
fn masks_with_no_filters_collide_with_nothing() {
    let m = LayerMasks::new(GameLayer::Ground, &[]);
    assert_eq!(m.memberships, 8);
    assert_eq!(m.filters, 0);
}

#[test]
fn repeated_filters_set_their_bit_once() {
    let m = LayerMasks::new(GameLayer::Default, &[GameLayer::Ground, GameLayer::Ground]);
    assert_eq!(m.filters, 8);
}

#[test]
fn player_collides_with_enemies_ground_and_default() {
    let m = player_layers();
    assert_eq!(m.memberships, 2);
    assert_eq!(m.filters, 4 | 8 | 1);
}

#[test]
fn projectile_collides_with_enemies_ground_and_default() {
    let m = projectile_layers();
    assert_eq!(m.memberships, 16);
    assert_eq!(m.filters, 13);
    assert_eq!(m.filters & player_layers().memberships, 0);
}
