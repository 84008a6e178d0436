use ockam::change_event::{
    ChangeEvent, ChangeEventType, CreateKeyEvent, ProfileEventAttributeKey, ProfileKeyPurpose,
    ProfileKeyType, RevokeKeyEvent, RotateKeyEvent,
};
use ockam::profile::{Profile, ProfileEventAttributes, ProfileManager, SignedChangeEvent};

fn attributes_with_name(name: &str) -> ProfileEventAttributes {
    let mut attributes = ProfileEventAttributes::new();
    attributes.insert(
        ProfileEventAttributeKey::FRIENDLY_NAME.to_string(),
        name.to_string(),
    );
    attributes.insert(
        ProfileEventAttributeKey::CREATION_DATE.to_string(),
        "1600000000".to_string(),
    );
    attributes
}

fn signed(identifier: &str, etype: ChangeEventType) -> SignedChangeEvent {
    SignedChangeEvent {
        identifier: identifier.to_string(),
        change_event: ChangeEvent::new(1, "E_ID.0".to_string(), attributes_with_name("Alice"), etype),
    }
}

#[test]
fn test_attributes_insert_and_get() {
    let mut attributes = ProfileEventAttributes::new();
    assert_eq!(attributes.len(), 0);
    attributes.insert("k1".to_string(), "v1".to_string());
    attributes.insert("k2".to_string(), "v2".to_string());
    assert_eq!(attributes.len(), 2);
    assert_eq!(attributes.get(&"k1".to_string()), Some(&"v1".to_string()));
    // Re-insertion replaces, it does not duplicate.
    attributes.insert("k1".to_string(), "v3".to_string());
    assert_eq!(attributes.len(), 2);
    assert_eq!(attributes.get(&"k1".to_string()), Some(&"v3".to_string()));
    assert_eq!(attributes.get(&"missing".to_string()), None);
}

#[test]
fn test_change_event_getters() {
    let create = CreateKeyEvent::new(ProfileKeyType::Main, ProfileKeyPurpose::Kex, vec![1, 2, 3]);
    assert_eq!(create.key_type(), ProfileKeyType::Main);
    assert_eq!(create.key_purpose(), ProfileKeyPurpose::Kex);
    assert_eq!(create.public_key(), &[1, 2, 3]);

    let rotate = RotateKeyEvent::new(
        ProfileKeyType::Main,
        ProfileKeyPurpose::Kex,
        vec![4, 5],
        vec![9, 9],
    );
    assert_eq!(rotate.public_key(), &[4, 5]);
    assert_eq!(rotate.prev_public_kid(), &[9, 9]);

    let revoke = RevokeKeyEvent::new(ProfileKeyType::Main, ProfileKeyPurpose::Kex, vec![9, 9]);
    assert_eq!(revoke.key_type(), ProfileKeyType::Main);
    assert_eq!(revoke.prev_public_kid(), &[9, 9]);

    let event = ChangeEvent::new(
        1,
        "E_ID.0".to_string(),
        attributes_with_name("Alice"),
        ChangeEventType::CreateKey(create),
    );
    assert_eq!(event.version(), 1);
    assert_eq!(event.prev_event_id(), "E_ID.0");
    assert_eq!(
        event
            .attributes()
            .get(&ProfileEventAttributeKey::FRIENDLY_NAME.to_string()),
        Some(&"Alice".to_string())
    );
    match event.etype() {
        ChangeEventType::CreateKey(e) => assert_eq!(e.public_key(), &[1, 2, 3]),
        _ => panic!("wrong event type"),
    }
}

#[test]
fn test_profile_public_key_follows_history() {
    let manager = ProfileManager::new();
    let kt = ProfileKeyType::Main;
    let kp = ProfileKeyPurpose::Kex;
    let mut profile = Profile::new("P_ID.alice".to_string(), Vec::new(), Vec::new());
    assert_eq!(profile.identifier(), "P_ID.alice");
    assert_eq!(manager.get_profile_public_key(&profile, kt, kp), Ok(None));

    profile
        .add_event(
            signed(
                "E_ID.1",
                ChangeEventType::CreateKey(CreateKeyEvent::new(kt, kp, vec![1, 1])),
            ),
            Some(vec![0xAA]),
        )
        .unwrap();
    assert_eq!(profile.public_key(kt, kp), Ok(Some(vec![1, 1])));
    assert_eq!(profile.keys().len(), 1);

    profile
        .add_event(
            signed(
                "E_ID.2",
                ChangeEventType::RotateKey(RotateKeyEvent::new(kt, kp, vec![2, 2], vec![1, 1])),
            ),
            None,
        )
        .unwrap();
    assert_eq!(profile.public_key(kt, kp), Ok(Some(vec![2, 2])));

    profile
        .add_event(
            signed(
                "E_ID.3",
                ChangeEventType::RevokeKey(RevokeKeyEvent::new(kt, kp, vec![2, 2])),
            ),
            None,
        )
        .unwrap();
    // The last matching event revoked the key: no current public key.
    assert_eq!(profile.public_key(kt, kp), Ok(None));
    assert_eq!(profile.change_events().len(), 3);
}
