use artificer::body::{body_commands, BodyCommand, EditorState, RigidBody, RigidBodyPrefab, SyncTrigger};

const TAGS: [RigidBodyPrefab; 3] =
    [RigidBodyPrefab::Dynamic, RigidBodyPrefab::Static, RigidBodyPrefab::Kinematic];

#[test]
fn authored_tag_maps_to_the_same_live_type() {
    assert_eq!(RigidBodyPrefab::Dynamic.to_rigidbody(), RigidBody::Dynamic);
    assert_eq!(RigidBodyPrefab::Static.to_rigidbody(), RigidBody::Static);
    assert_eq!(RigidBodyPrefab::Kinematic.to_rigidbody(), RigidBody::Kinematic);
}

#[test]
fn editor_type_is_static_for_every_tag() {
    for tag in TAGS {
        assert_eq!(tag.to_rigidbody_editor(), RigidBody::Static);
    }
}

#[test]
fn default_tag_is_static() {
    assert_eq!(RigidBodyPrefab::default(), RigidBodyPrefab::Static);
}

#[test]
fn entering_editor_inserts_static_body_and_mirrors_pose() {
    let r = body_commands(EditorState::Editor, SyncTrigger::Entered, &RigidBodyPrefab::Dynamic, true, false);
    assert_eq!(r, vec![BodyCommand::InsertBody(RigidBody::Static), BodyCommand::MirrorTransform]);
}

#[test]
fn entering_editor_without_transform_only_inserts_body() {
    let r = body_commands(EditorState::Editor, SyncTrigger::Entered, &RigidBodyPrefab::Kinematic, false, true);
    assert_eq!(r, vec![BodyCommand::InsertBody(RigidBody::Static)]);
}

#[test]
fn tag_change_in_editor_replaces_body_with_static() {
    for tag in TAGS {
        let r = body_commands(EditorState::Editor, SyncTrigger::TagChanged, &tag, true, true);
        assert_eq!(
            r,
            vec![
                BodyCommand::RemoveBody,
                BodyCommand::InsertBody(RigidBody::Static),
                BodyCommand::MirrorTransform
            ]
        );
        let r = body_commands(EditorState::Editor, SyncTrigger::TagChanged, &tag, false, true);
        assert_eq!(r, vec![BodyCommand::RemoveBody, BodyCommand::InsertBody(RigidBody::Static)]);
    }
}

#[test]
fn entering_game_applies_tag_and_defaults_missing_collider() {
    let r = body_commands(EditorState::Game, SyncTrigger::Entered, &RigidBodyPrefab::Dynamic, true, false);
    assert_eq!(
        r,
        vec![
            BodyCommand::RemoveBody,
            BodyCommand::InsertBody(RigidBody::Dynamic),
            BodyCommand::InsertDefaultCollider
        ]
    );
}

#[test]
fn entering_game_keeps_present_collider() {
    let r = body_commands(EditorState::Game, SyncTrigger::Entered, &RigidBodyPrefab::Kinematic, false, true);
    assert_eq!(r, vec![BodyCommand::RemoveBody, BodyCommand::InsertBody(RigidBody::Kinematic)]);
}

#[test]
fn tag_change_in_game_reinserts_mapped_body() {
    for tag in TAGS {
        let r = body_commands(EditorState::Game, SyncTrigger::TagChanged, &tag, true, false);
        assert_eq!(r, vec![BodyCommand::RemoveBody, BodyCommand::InsertBody(tag.to_rigidbody())]);
    }
}
