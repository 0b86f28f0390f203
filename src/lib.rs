//! Gameplay rules of a small physics-driven 3D game: collision categories,
//! the bridge between authored and live rigid-body types, and projectiles.

pub mod body;
pub mod layers;
pub mod projectile;
