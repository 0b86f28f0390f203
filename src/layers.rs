//! Collision categories of the game and the bitmasks built from them.
use vstd::prelude::*;

verus! {

/// A collision category. Each category owns one bit of a 32-bit layer mask,
/// in the order of declaration.
#[derive(Clone, Copy, PartialEq, Eq, Debug, Structural)]
pub enum GameLayer {
    Default,
    Player,
    Enemy,
    Ground,
    Projectile,
}

impl GameLayer {
    /// Position of the category's bit in a layer mask.
    pub open spec fn index(self) -> u32 {
        match self {
            GameLayer::Default => 0,
            GameLayer::Player => 1,
            GameLayer::Enemy => 2,
            GameLayer::Ground => 3,
            GameLayer::Projectile => 4,
        }
    }

    /// The single-bit mask of the category.
    pub open spec fn bit(self) -> u32 {
        1u32 << self.index()
    }

    /// The single-bit mask of this category.
    pub fn to_bits(&self) -> (r: u32)
        ensures
            r == self.bit(),
    {
        let i: u32 = match self {
            GameLayer::Default => 0,
            GameLayer::Player => 1,
            GameLayer::Enemy => 2,
            GameLayer::Ground => 3,
            GameLayer::Projectile => 4,
        };
        1u32 << i
    }
}

/// The union of the bits of every category in `layers`.
pub open spec fn mask_of(layers: Seq<GameLayer>) -> u32
    decreases layers.len(),
{
    if layers.len() == 0 {
        0
    } else {
        mask_of(layers.drop_last()) | layers.last().bit()
    }
}

proof fn lemma_or_meets(a: u32, b: u32, c: u32)
    by (bit_vector)
    ensures
        ((a | b) & c) != 0 <==> ((a & c) != 0 || (b & c) != 0),
{
}

proof fn lemma_single_bits_meet(i: u32, j: u32)
    by (bit_vector)
    requires
        i < 32,
        j < 32,
    ensures
        ((1u32 << i) & (1u32 << j)) != 0 <==> i == j,
{
}

/// A category's bit is set in the mask of a list exactly when the list names it.
proof fn lemma_mask_of_contains(layers: Seq<GameLayer>, l: GameLayer)
    ensures
        (mask_of(layers) & l.bit()) != 0 <==> layers.contains(l),
    decreases layers.len(),
{
    if layers.len() == 0 {
        assert((0u32 & l.bit()) == 0) by (bit_vector);
    } else {
        let init = layers.drop_last();
        let last = layers.last();
        lemma_mask_of_contains(init, l);
        lemma_or_meets(mask_of(init), last.bit(), l.bit());
        lemma_single_bits_meet(last.index(), l.index());
        if layers.contains(l) {
            let k = choose|k: int| 0 <= k < layers.len() && layers[k] == l;
            if k < layers.len() - 1 {
                assert(init[k] == l);
            }
        }
        if init.contains(l) {
            let k = choose|k: int| 0 <= k < init.len() && init[k] == l;
            assert(layers[k] == l);
        }
        if last == l {
            assert(layers[layers.len() - 1] == l);
        }
    }
}

/// The two masks that decide which pairs of bodies the physics engine tests
/// for contact: the categories a body belongs to, and those it collides with.
#[derive(Clone, Copy, PartialEq, Eq, Debug, Structural)]
pub struct LayerMasks {
    pub memberships: u32,
    pub filters: u32,
}

impl LayerMasks {
    /// Masks for a body in category `membership` that collides with each
    /// category of `filters`.
    pub fn new(membership: GameLayer, filters: &[GameLayer]) -> (r: LayerMasks)
        ensures
            r.memberships == membership.bit(),
            r.filters == mask_of(filters@),
            forall|l: GameLayer| (#[trigger] (r.filters & l.bit())) != 0 <==> filters@.contains(l),
    {
        let mut acc: u32 = 0;
        let mut i: usize = 0;
        while i < filters.len()
            invariant
                i <= filters@.len(),
                acc == mask_of(filters@.take(i as int)),
            decreases filters@.len() - i,
        {
            let bit = filters[i].to_bits();
            proof {
                let next = filters@.take(i as int + 1);
                assert(next.drop_last() =~= filters@.take(i as int));
                assert(next.last() == filters@[i as int]);
            }
            acc = acc | bit;
            i = i + 1;
        }
        assert(filters@.take(filters@.len() as int) =~= filters@);
        proof {
            assert forall|l: GameLayer| (#[trigger] (acc & l.bit())) != 0 <==> filters@.contains(l) by {
                lemma_mask_of_contains(filters@, l);
            }
        }
        LayerMasks { memberships: membership.to_bits(), filters: acc }
    }
}

/// Layers of the player body: it collides with enemies, the ground and the
/// default category.
pub fn player_layers() -> (r: LayerMasks)
    ensures
        r.memberships == GameLayer::Player.bit(),
        r.filters == mask_of(seq![GameLayer::Enemy, GameLayer::Ground, GameLayer::Default]),
{
    let filters = [GameLayer::Enemy, GameLayer::Ground, GameLayer::Default];
    let r = LayerMasks::new(GameLayer::Player, &filters);
    assert(filters@ =~= seq![GameLayer::Enemy, GameLayer::Ground, GameLayer::Default]);
    r
}

/// Layers of a projectile: like the player, it collides with enemies, the
/// ground and the default category.
pub fn projectile_layers() -> (r: LayerMasks)
    ensures
        r.memberships == GameLayer::Projectile.bit(),
        r.filters == mask_of(seq![GameLayer::Enemy, GameLayer::Ground, GameLayer::Default]),
{
    let filters = [GameLayer::Enemy, GameLayer::Ground, GameLayer::Default];
    let r = LayerMasks::new(GameLayer::Projectile, &filters);
    assert(filters@ =~= seq![GameLayer::Enemy, GameLayer::Ground, GameLayer::Default]);
    r
}

} // verus!
