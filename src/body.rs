//! The bridge between the authored rigid-body tag of an entity and the live
//! rigid body that the physics engine simulates.
//!
//! While editing, nothing may be simulated, so every tagged entity gets a
//! static body and its pose is mirrored from its transform. While playing,
//! the authored type is applied as it is, and an entity without a collision
//! shape gets the default one when play starts.
use vstd::prelude::*;

verus! {

/// The body type chosen at authoring time.
#[derive(Clone, Copy, PartialEq, Eq, Debug, Structural)]
pub enum RigidBodyPrefab {
    Dynamic,
    Static,
    Kinematic,
}

/// The body type of the physics engine's live rigid-body component.
#[derive(Clone, Copy, PartialEq, Eq, Debug, Structural)]
pub enum RigidBody {
    /// Moved by forces and collisions.
    Dynamic,
    /// Never moves.
    Static,
    /// Moved only by its velocity, set from outside.
    Kinematic,
}

impl Default for RigidBodyPrefab {
    fn default() -> (r: Self)
        ensures
            r == RigidBodyPrefab::Static,
    {
        RigidBodyPrefab::Static
    }
}

impl RigidBodyPrefab {
    /// The live body type that the tag stands for.
    pub open spec fn spec_to_rigidbody(self) -> RigidBody {
        match self {
            RigidBodyPrefab::Dynamic => RigidBody::Dynamic,
            RigidBodyPrefab::Static => RigidBody::Static,
            RigidBodyPrefab::Kinematic => RigidBody::Kinematic,
        }
    }

    /// The live body type used while playing.
    pub fn to_rigidbody(&self) -> (r: RigidBody)
        ensures
            r == self.spec_to_rigidbody(),
    {
        match self {
            RigidBodyPrefab::Dynamic => RigidBody::Dynamic,
            RigidBodyPrefab::Static => RigidBody::Static,
            RigidBodyPrefab::Kinematic => RigidBody::Kinematic,
        }
    }

    /// The live body type used while editing: never simulated, whatever the tag.
    pub fn to_rigidbody_editor(&self) -> (r: RigidBody)
        ensures
            r == RigidBody::Static,
    {
        RigidBody::Static
    }
}

/// The mode the application runs in.
#[derive(Clone, Copy, PartialEq, Eq, Debug, Structural)]
pub enum EditorState {
    Editor,
    Game,
}

/// What makes the bridge run for an entity.
#[derive(Clone, Copy, PartialEq, Eq, Debug, Structural)]
pub enum SyncTrigger {
    /// The application has just entered the mode.
    Entered,
    /// The entity's tag was added or changed while in the mode.
    TagChanged,
}

/// One change to an entity's components.
#[derive(Clone, Copy, PartialEq, Eq, Debug, Structural)]
pub enum BodyCommand {
    /// Take the live rigid body off the entity.
    RemoveBody,
    /// Put this live rigid body on the entity, replacing any other.
    InsertBody(RigidBody),
    /// Set the physics position and rotation from the entity's transform.
    MirrorTransform,
    /// Give the entity the default collision shape.
    InsertDefaultCollider,
}

/// The live body type that `mode` gives an entity tagged `tag`.
pub open spec fn resolved_body(mode: EditorState, tag: RigidBodyPrefab) -> RigidBody {
    match mode {
        EditorState::Editor => RigidBody::Static,
        EditorState::Game => tag.spec_to_rigidbody(),
    }
}

/// The commands issued for one entity, in order.
pub open spec fn spec_body_commands(
    mode: EditorState,
    trigger: SyncTrigger,
    tag: RigidBodyPrefab,
    has_transform: bool,
    has_collider: bool,
) -> Seq<BodyCommand> {
    let body = BodyCommand::InsertBody(resolved_body(mode, tag));
    match (mode, trigger) {
        (EditorState::Editor, SyncTrigger::Entered) => if has_transform {
            seq![body, BodyCommand::MirrorTransform]
        } else {
            seq![body]
        },
        (EditorState::Editor, SyncTrigger::TagChanged) => if has_transform {
            seq![BodyCommand::RemoveBody, body, BodyCommand::MirrorTransform]
        } else {
            seq![BodyCommand::RemoveBody, body]
        },
        (EditorState::Game, SyncTrigger::Entered) => if has_collider {
            seq![BodyCommand::RemoveBody, body]
        } else {
            seq![BodyCommand::RemoveBody, body, BodyCommand::InsertDefaultCollider]
        },
        (EditorState::Game, SyncTrigger::TagChanged) => seq![BodyCommand::RemoveBody, body],
    }
}

/// The commands that bring the live body of an entity tagged `tag` in line
/// with `mode`, given whether the entity has a transform and a collision shape.
///
/// On entering the editor the static body is inserted and the pose mirrored;
/// on a tag change in the editor the old body is removed first. On entering
/// the game the authored body replaces the old one and a missing collision
/// shape is defaulted; on a tag change in the game the authored body replaces
/// the old one.
pub fn body_commands(
    mode: EditorState,
    trigger: SyncTrigger,
    tag: &RigidBodyPrefab,
    has_transform: bool,
    has_collider: bool,
) -> (r: Vec<BodyCommand>)
    ensures
        r@ == spec_body_commands(mode, trigger, *tag, has_transform, has_collider),
{
    let body = match mode {
        EditorState::Editor => tag.to_rigidbody_editor(),
        EditorState::Game => tag.to_rigidbody(),
    };
    let mut r: Vec<BodyCommand> = Vec::new();
    match trigger {
        SyncTrigger::Entered => {
            if mode == EditorState::Game {
                r.push(BodyCommand::RemoveBody);
            }
        },
        SyncTrigger::TagChanged => {
            r.push(BodyCommand::RemoveBody);
        },
    }
    r.push(BodyCommand::InsertBody(body));
    match mode {
        EditorState::Editor => {
            if has_transform {
                r.push(BodyCommand::MirrorTransform);
            }
        },
        EditorState::Game => {
            if trigger == SyncTrigger::Entered && !has_collider {
                r.push(BodyCommand::InsertDefaultCollider);
            }
        },
    }
    assert(r@ =~= spec_body_commands(mode, trigger, *tag, has_transform, has_collider));
    r
}

/// Where an entity's collision shape came from.
#[derive(Clone, Copy, PartialEq, Eq, Debug, Structural)]
pub enum ColliderOrigin {
    /// Set at authoring time.
    Authored,
    /// Filled in by the bridge.
    Defaulted,
}

/// What the bridge reads and changes on one entity.
pub struct TaggedEntity {
    pub tag: RigidBodyPrefab,
    pub body: Option<RigidBody>,
    pub has_transform: bool,
    pub collider: Option<ColliderOrigin>,
    pub pose_mirrored: bool,
}

impl TaggedEntity {
    /// The entity after one command.
    pub open spec fn after(self, c: BodyCommand) -> TaggedEntity {
        match c {
            BodyCommand::RemoveBody => TaggedEntity { body: None, ..self },
            BodyCommand::InsertBody(b) => TaggedEntity { body: Some(b), ..self },
            BodyCommand::MirrorTransform => TaggedEntity {
                pose_mirrored: self.pose_mirrored || self.has_transform,
                ..self
            },
            BodyCommand::InsertDefaultCollider => TaggedEntity {
                collider: Some(ColliderOrigin::Defaulted),
                ..self
            },
        }
    }

    /// The entity after the commands, in order.
    pub open spec fn after_all(self, cs: Seq<BodyCommand>) -> TaggedEntity
        decreases cs.len(),
    {
        if cs.len() == 0 {
            self
        } else {
            self.after(cs[0]).after_all(cs.drop_first())
        }
    }

    /// The entity after the bridge has run on it.
    pub open spec fn synced(self, mode: EditorState, trigger: SyncTrigger) -> TaggedEntity {
        self.after_all(
            spec_body_commands(mode, trigger, self.tag, self.has_transform, self.collider is Some),
        )
    }

    /// The entity after its tag was set to each of `tags` in turn while in
    /// `mode`, the bridge running after each change.
    pub open spec fn retagged(self, mode: EditorState, tags: Seq<RigidBodyPrefab>) -> TaggedEntity
        decreases tags.len(),
    {
        if tags.len() == 0 {
            self
        } else {
            TaggedEntity { tag: tags[0], ..self }.synced(mode, SyncTrigger::TagChanged).retagged(
                mode,
                tags.drop_first(),
            )
        }
    }
}

proof fn lemma_sync_state(e: TaggedEntity, mode: EditorState, trigger: SyncTrigger)
    ensures
        e.synced(mode, trigger).tag == e.tag,
        e.synced(mode, trigger).has_transform == e.has_transform,
        e.synced(mode, trigger).body == Some(resolved_body(mode, e.tag)),
        mode == EditorState::Editor ==> e.synced(mode, trigger).collider == e.collider,
        mode == EditorState::Editor && e.has_transform ==> e.synced(mode, trigger).pose_mirrored,
        mode == EditorState::Game && e.collider is Some ==> e.synced(mode, trigger).collider
            == e.collider,
        mode == EditorState::Game && trigger == SyncTrigger::Entered && e.collider is None ==> e.synced(
            mode,
            trigger,
        ).collider == Some(ColliderOrigin::Defaulted),
        mode == EditorState::Game ==> e.synced(mode, trigger).pose_mirrored == e.pose_mirrored,
{
    let cs = spec_body_commands(mode, trigger, e.tag, e.has_transform, e.collider is Some);
    reveal_with_fuel(TaggedEntity::after_all, 4);
    assert(cs.len() <= 3);
    if cs.len() >= 1 {
        assert(cs.drop_first().len() == cs.len() - 1);
        if cs.len() >= 2 {
            assert(cs.drop_first().drop_first().len() == cs.len() - 2);
            if cs.len() >= 3 {
                assert(cs.drop_first().drop_first().drop_first().len() == 0);
            }
        }
    }
}

proof fn lemma_retag_state(e: TaggedEntity, mode: EditorState, tags: Seq<RigidBodyPrefab>)
    requires
        e.body == Some(resolved_body(mode, e.tag)),
        mode == EditorState::Editor && e.has_transform ==> e.pose_mirrored,
    ensures
        ({
            let f = e.retagged(mode, tags);
            &&& f.tag == (if tags.len() == 0 {
                e.tag
            } else {
                tags.last()
            })
            &&& f.has_transform == e.has_transform
            &&& f.collider == e.collider
            &&& f.body == Some(resolved_body(mode, f.tag))
            &&& mode == EditorState::Editor && e.has_transform ==> f.pose_mirrored
        }),
    decreases tags.len(),
{
    if tags.len() > 0 {
        let e1 = TaggedEntity { tag: tags[0], ..e };
        lemma_sync_state(e1, mode, SyncTrigger::TagChanged);
        let e2 = e1.synced(mode, SyncTrigger::TagChanged);
        if mode == EditorState::Game {
            let cs = spec_body_commands(mode, SyncTrigger::TagChanged, e1.tag, e1.has_transform, e1.collider is Some);
            reveal_with_fuel(TaggedEntity::after_all, 3);
            assert(cs.drop_first().drop_first().len() == 0);
        }
        lemma_retag_state(e2, mode, tags.drop_first());
        if tags.len() > 1 {
            assert(tags.drop_first().last() == tags.last());
        }
    }
}

/// In the editor every tagged entity's live body is static, whatever its tag:
/// on entering the editor, and after any sequence of tag changes made there.
/// An entity with a transform also has its pose mirrored from it.
pub proof fn editor_bodies_never_simulate(e: TaggedEntity, tags: Seq<RigidBodyPrefab>)
    ensures
        ({
            let f = e.synced(EditorState::Editor, SyncTrigger::Entered).retagged(
                EditorState::Editor,
                tags,
            );
            &&& f.tag == (if tags.len() == 0 {
                e.tag
            } else {
                tags.last()
            })
            &&& f.body == Some(RigidBody::Static)
            &&& e.has_transform ==> f.pose_mirrored
            &&& f.collider == e.collider
        }),
{
    lemma_sync_state(e, EditorState::Editor, SyncTrigger::Entered);
    lemma_retag_state(e.synced(EditorState::Editor, SyncTrigger::Entered), EditorState::Editor, tags);
}

/// In the game every tagged entity's live body is the type its current tag
/// stands for: on entering the game, and after any sequence of tag changes
/// made there. An entity that had no collision shape when the game was
/// entered has the default one; one that had a shape keeps it.
pub proof fn game_bodies_follow_tags(e: TaggedEntity, tags: Seq<RigidBodyPrefab>)
    ensures
        ({
            let f = e.synced(EditorState::Game, SyncTrigger::Entered).retagged(
                EditorState::Game,
                tags,
            );
            &&& f.tag == (if tags.len() == 0 {
                e.tag
            } else {
                tags.last()
            })
            &&& f.body == Some(f.tag.spec_to_rigidbody())
            &&& e.collider is None ==> f.collider == Some(ColliderOrigin::Defaulted)
            &&& e.collider is Some ==> f.collider == e.collider
        }),
{
    lemma_sync_state(e, EditorState::Game, SyncTrigger::Entered);
    lemma_retag_state(e.synced(EditorState::Game, SyncTrigger::Entered), EditorState::Game, tags);
}

} // verus!
