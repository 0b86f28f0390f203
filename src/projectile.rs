//! Projectiles: the decision taken when the player fires, and the countdown
//! after which a projectile leaves the world.
//!
//! Time is counted in whole nanoseconds, as the engine's frame clock gives it.
use vstd::prelude::*;

verus! {

/// Nanoseconds in one second.
pub const NANOS_PER_SECOND: u64 = 1_000_000_000;

/// How long a newly fired projectile lives: one second.
pub const PROJECTILE_LIFETIME_NANOS: u64 = NANOS_PER_SECOND;

/// The time a projectile has left before it is removed.
#[derive(Clone, Copy, PartialEq, Eq, Debug, Structural)]
pub struct Lifetime {
    /// Remaining time, in nanoseconds.
    pub remaining: u64,
}

impl Default for Lifetime {
    fn default() -> (r: Self)
        ensures
            r.remaining == PROJECTILE_LIFETIME_NANOS,
    {
        Lifetime { remaining: PROJECTILE_LIFETIME_NANOS }
    }
}

impl Lifetime {
    /// Whether a frame of `elapsed` nanoseconds uses up the remaining time.
    pub open spec fn expires_after(self, elapsed: u64) -> bool {
        elapsed >= self.remaining
    }

    /// The lifetime after a frame of `elapsed` nanoseconds; it stops at zero.
    pub open spec fn after(self, elapsed: u64) -> Lifetime {
        if self.expires_after(elapsed) {
            Lifetime { remaining: 0 }
        } else {
            Lifetime { remaining: (self.remaining - elapsed) as u64 }
        }
    }

    /// A lifetime of `nanos` nanoseconds.
    pub fn from_nanos(nanos: u64) -> (r: Lifetime)
        ensures
            r.remaining == nanos,
    {
        Lifetime { remaining: nanos }
    }

    /// Counts a frame of `elapsed` nanoseconds off the remaining time, and
    /// tells whether the projectile is to be removed: whether the time has
    /// now reached zero.
    pub fn tick(&mut self, elapsed: u64) -> (expired: bool)
        ensures
            expired == old(self).expires_after(elapsed),
            *final(self) == old(self).after(elapsed),
    {
        if elapsed >= self.remaining {
            self.remaining = 0;
            true
        } else {
            self.remaining = self.remaining - elapsed;
            false
        }
    }
}

/// The sum of the frame times `dts`.
pub open spec fn total(dts: Seq<u64>) -> nat
    decreases dts.len(),
{
    if dts.len() == 0 {
        0
    } else {
        dts[0] as nat + total(dts.drop_first())
    }
}

/// For each frame of `dts`, whether the projectile is removed on it. A
/// projectile that has been removed (`None`) is not counted down again.
pub open spec fn removals(life: Option<Lifetime>, dts: Seq<u64>) -> Seq<bool>
    decreases dts.len(),
{
    if dts.len() == 0 {
        Seq::empty()
    } else {
        match life {
            None => seq![false] + removals(None, dts.drop_first()),
            Some(l) => if l.expires_after(dts[0]) {
                seq![true] + removals(None, dts.drop_first())
            } else {
                seq![false] + removals(Some(l.after(dts[0])), dts.drop_first())
            },
        }
    }
}

proof fn lemma_removed_stays_removed(dts: Seq<u64>)
    ensures
        removals(None, dts).len() == dts.len(),
        forall|i: int| 0 <= i < dts.len() ==> !#[trigger] removals(None, dts)[i],
    decreases dts.len(),
{
    if dts.len() > 0 {
        lemma_removed_stays_removed(dts.drop_first());
        let r = removals(None, dts);
        assert forall|i: int| 0 <= i < dts.len() implies !#[trigger] r[i] by {
            if i > 0 {
                assert(r[i] == removals(None, dts.drop_first())[i - 1]);
            }
        }
    }
}

proof fn lemma_total_of_prefix(dts: Seq<u64>, i: int)
    requires
        1 <= i <= dts.len(),
    ensures
        total(dts.take(i)) == dts[0] + total(dts.drop_first().take(i - 1)),
{
    let p = dts.take(i);
    assert(p.drop_first() =~= dts.drop_first().take(i - 1));
    assert(p[0] == dts[0]);
}

proof fn lemma_removals(life: Lifetime, dts: Seq<u64>)
    requires
        life.remaining > 0,
    ensures
        removals(Some(life), dts).len() == dts.len(),
        forall|i: int|
            0 <= i < dts.len() ==> (#[trigger] removals(Some(life), dts)[i] <==> (total(dts.take(i))
                < life.remaining && life.remaining <= total(dts.take(i + 1)))),
        forall|i: int, j: int|
            0 <= i < dts.len() && 0 <= j < dts.len() && #[trigger] removals(Some(life), dts)[i]
                && #[trigger] removals(Some(life), dts)[j] ==> i == j,
        total(dts) >= life.remaining ==> exists|i: int|
            0 <= i < dts.len() && #[trigger] removals(Some(life), dts)[i],
    decreases dts.len(),
{
    if dts.len() > 0 {
        let d0 = dts[0];
        let rest = dts.drop_first();
        let r = removals(Some(life), dts);
        assert(dts.take(0) =~= Seq::<u64>::empty());
        lemma_total_of_prefix(dts, 1);
        assert(rest.take(0) =~= Seq::<u64>::empty());
        if life.expires_after(d0) {
            lemma_removed_stays_removed(rest);
            assert forall|i: int|
                0 <= i < dts.len() implies (#[trigger] r[i] <==> (total(dts.take(i)) < life.remaining
                    && life.remaining <= total(dts.take(i + 1)))) by {
                if i > 0 {
                    assert(r[i] == removals(None, rest)[i - 1]);
                    lemma_total_of_prefix(dts, i);
                }
            }
            assert forall|i: int, j: int|
                0 <= i < dts.len() && 0 <= j < dts.len() && #[trigger] r[i] && #[trigger] r[j] implies i
                    == j by {
                if i > 0 {
                    assert(r[i] == removals(None, rest)[i - 1]);
                }
                if j > 0 {
                    assert(r[j] == removals(None, rest)[j - 1]);
                }
            }
            assert(r[0]);
        } else {
            let next = life.after(d0);
            lemma_removals(next, rest);
            let r1 = removals(Some(next), rest);
            assert forall|i: int|
                0 <= i < dts.len() implies (#[trigger] r[i] <==> (total(dts.take(i)) < life.remaining
                    && life.remaining <= total(dts.take(i + 1)))) by {
                if i > 0 {
                    assert(r[i] == r1[i - 1]);
                    lemma_total_of_prefix(dts, i);
                    lemma_total_of_prefix(dts, i + 1);
                }
            }
            assert forall|i: int, j: int|
                0 <= i < dts.len() && 0 <= j < dts.len() && #[trigger] r[i] && #[trigger] r[j] implies i
                    == j by {
                if i > 0 {
                    assert(r[i] == r1[i - 1]);
                }
                if j > 0 {
                    assert(r[j] == r1[j - 1]);
                }
                if i > 0 && j > 0 {
                    assert(r1[i - 1] && r1[j - 1]);
                }
            }
            if total(dts) >= life.remaining {
                assert(total(rest) >= next.remaining);
                let j = choose|j: int| 0 <= j < rest.len() && #[trigger] r1[j];
                assert(r[j + 1] == r1[j]);
            }
        }
    }
}

/// A projectile fired with a positive lifetime, over frames whose times add
/// up to at least that lifetime, is removed exactly once: on the first frame
/// at which the time elapsed since it was fired reaches its lifetime.
pub proof fn projectile_removed_once(life: Lifetime, dts: Seq<u64>)
    requires
        life.remaining > 0,
        total(dts) >= life.remaining,
    ensures
        removals(Some(life), dts).len() == dts.len(),
        forall|i: int|
            0 <= i < dts.len() ==> (#[trigger] removals(Some(life), dts)[i] <==> (total(dts.take(i))
                < life.remaining && life.remaining <= total(dts.take(i + 1)))),
        exists|i: int| 0 <= i < dts.len() && #[trigger] removals(Some(life), dts)[i],
        forall|i: int, j: int|
            0 <= i < dts.len() && 0 <= j < dts.len() && #[trigger] removals(Some(life), dts)[i]
                && #[trigger] removals(Some(life), dts)[j] ==> i == j,
{
    lemma_removals(life, dts);
}

/// How the search for the single player entity came out.
#[derive(Clone, Copy, PartialEq, Eq, Debug, Structural)]
pub enum PlayerLookup {
    /// Exactly one player.
    Found,
    /// No player.
    Missing,
    /// More than one player.
    Several,
}

/// Where a shot starts.
#[derive(Clone, Copy, PartialEq, Eq, Debug, Structural)]
pub enum ShotOrigin {
    /// At the player's position.
    Player,
    /// At the world origin, when there is not exactly one player.
    WorldOrigin,
}

/// What a shot aims at.
#[derive(Clone, Copy, PartialEq, Eq, Debug, Structural)]
pub enum ShotTarget {
    /// The nearest point that the camera's ray hits.
    NearestHit,
    /// The point at the largest aim distance along the camera's forward axis,
    /// when the camera's ray hits nothing.
    FarPoint,
}

/// The decisions behind one shot.
#[derive(Clone, Copy, PartialEq, Eq, Debug, Structural)]
pub struct ShotPlan {
    pub origin: ShotOrigin,
    pub target: ShotTarget,
}

/// Decides whether a shot is fired this frame, and from where and at what.
/// A shot is fired only when the fire button went down; it starts at the
/// player when there is exactly one, else at the world origin; it aims at
/// the nearest ray hit when there is one, else at the far point.
pub fn plan_shot(fire_pressed: bool, player: PlayerLookup, has_hit: bool) -> (r: Option<ShotPlan>)
    ensures
        r is Some <==> fire_pressed,
        r matches Some(p) ==> {
            &&& (p.origin == ShotOrigin::Player <==> player == PlayerLookup::Found)
            &&& (p.target == ShotTarget::NearestHit <==> has_hit)
        },
{
    if !fire_pressed {
        return None;
    }
    let origin = match player {
        PlayerLookup::Found => ShotOrigin::Player,
        PlayerLookup::Missing | PlayerLookup::Several => ShotOrigin::WorldOrigin,
    };
    let target = if has_hit {
        ShotTarget::NearestHit
    } else {
        ShotTarget::FarPoint
    };
    Some(ShotPlan { origin, target })
}

} // verus!
