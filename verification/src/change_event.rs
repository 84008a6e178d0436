//! The profile change-event data model: the typed events out of which a
//! profile's audit history is built.

use crate::profile::{AttributesView, ProfileEventAdditionalData, ProfileEventAttributes};
use vstd::prelude::*;

verus! {

/// Well-known keys of profile event attributes.
#[non_exhaustive]
pub struct ProfileEventAttributeKey;

impl ProfileEventAttributeKey {
    /// The attribute holding a profile's friendly name.
    pub const FRIENDLY_NAME: &'static str = "OCKAM_FN";

    /// The attribute holding an event's creation date.
    pub const CREATION_DATE: &'static str = "OCKAM_CD";
}

/// The kind of a profile key.
#[derive(Debug, Clone, Copy, Eq, PartialEq, Structural)]
pub enum ProfileKeyType {
    Main,
}

/// What a profile key is used for.
#[derive(Debug, Clone, Copy, Eq, PartialEq, Structural)]
pub enum ProfileKeyPurpose {
    Kex,
}

/// One event of a profile's change history.
#[derive(Debug)]
pub struct ChangeEvent {
    pub version: u8,
    pub prev_event_id: String,
    pub attributes: ProfileEventAttributes,
    pub etype: ChangeEventType,
}

/// The mathematical value of a [`ChangeEvent`].
pub struct ChangeEventView {
    pub version: u8,
    pub prev_event_id: Seq<char>,
    pub attributes: AttributesView,
    pub etype: ChangeEventTypeView,
}

impl View for ChangeEvent {
    type V = ChangeEventView;

    open spec fn view(&self) -> ChangeEventView {
        ChangeEventView {
            version: self.version,
            prev_event_id: self.prev_event_id@,
            attributes: self.attributes@,
            etype: self.etype@,
        }
    }
}

impl ChangeEvent {
    /// The format version of the event.
    pub fn version(&self) -> (r: u8)
        ensures
            r == self@.version,
    {
        self.version
    }

    /// The identifier of the preceding event.
    pub fn prev_event_id(&self) -> (r: &str)
        ensures
            r@ == self@.prev_event_id,
    {
        self.prev_event_id.as_str()
    }

    /// The event's attributes.
    pub fn attributes(&self) -> (r: &ProfileEventAttributes)
        ensures
            r@ == self@.attributes,
    {
        &self.attributes
    }

    /// The typed content of the event.
    pub fn etype(&self) -> (r: &ChangeEventType)
        ensures
            r@ == self@.etype,
    {
        &self.etype
    }

    /// Assembles an event.
    pub fn new(
        version: u8,
        prev_event_id: String,
        attributes: ProfileEventAttributes,
        etype: ChangeEventType,
    ) -> (r: ChangeEvent)
        ensures
            r@.version == version,
            r@.prev_event_id == prev_event_id@,
            r@.attributes == attributes@,
            r@.etype == etype@,
    {
        ChangeEvent { version, prev_event_id, attributes, etype }
    }
}

/// The typed content of a change event.
#[derive(Debug)]
pub enum ChangeEventType {
    CreateKey(CreateKeyEvent),
    RotateKey(RotateKeyEvent),
    RevokeKey(RevokeKeyEvent),
    ChangeAttributes(ChangeAdditionalDataEvent),
}

/// The mathematical value of a [`ChangeEventType`].
pub enum ChangeEventTypeView {
    CreateKey(CreateKeyEventView),
    RotateKey(RotateKeyEventView),
    RevokeKey(RevokeKeyEventView),
    ChangeAttributes(ChangeAdditionalDataEventView),
}

impl View for ChangeEventType {
    type V = ChangeEventTypeView;

    open spec fn view(&self) -> ChangeEventTypeView {
        match self {
            ChangeEventType::CreateKey(e) => ChangeEventTypeView::CreateKey(e@),
            ChangeEventType::RotateKey(e) => ChangeEventTypeView::RotateKey(e@),
            ChangeEventType::RevokeKey(e) => ChangeEventTypeView::RevokeKey(e@),
            ChangeEventType::ChangeAttributes(e) => ChangeEventTypeView::ChangeAttributes(e@),
        }
    }
}

/// A key was created.
#[derive(Debug)]
pub struct CreateKeyEvent {
    pub key_type: ProfileKeyType,
    pub key_purpose: ProfileKeyPurpose,
    pub public_key: Vec<u8>,
}

/// The mathematical value of a [`CreateKeyEvent`].
pub struct CreateKeyEventView {
    pub key_type: ProfileKeyType,
    pub key_purpose: ProfileKeyPurpose,
    pub public_key: Seq<u8>,
}

impl View for CreateKeyEvent {
    type V = CreateKeyEventView;

    open spec fn view(&self) -> CreateKeyEventView {
        CreateKeyEventView {
            key_type: self.key_type,
            key_purpose: self.key_purpose,
            public_key: self.public_key@,
        }
    }
}

impl CreateKeyEvent {
    /// The kind of the created key.
    pub fn key_type(&self) -> (r: ProfileKeyType)
        ensures
            r == self@.key_type,
    {
        self.key_type
    }

    /// What the created key is used for.
    pub fn key_purpose(&self) -> (r: ProfileKeyPurpose)
        ensures
            r == self@.key_purpose,
    {
        self.key_purpose
    }

    /// The created public key.
    pub fn public_key(&self) -> (r: &[u8])
        ensures
            r@ == self@.public_key,
    {
        self.public_key.as_slice()
    }

    /// Assembles the event.
    pub fn new(key_type: ProfileKeyType, key_purpose: ProfileKeyPurpose, public_key: Vec<u8>) -> (
        r: CreateKeyEvent)
        ensures
            r@.key_type == key_type,
            r@.key_purpose == key_purpose,
            r@.public_key == public_key@,
    {
        CreateKeyEvent { key_type, key_purpose, public_key }
    }
}

/// A key was rotated: replaced by a fresh one.
#[derive(Debug)]
pub struct RotateKeyEvent {
    pub key_type: ProfileKeyType,
    pub key_purpose: ProfileKeyPurpose,
    pub public_key: Vec<u8>,
    pub prev_public_kid: Vec<u8>,
}

/// The mathematical value of a [`RotateKeyEvent`].
pub struct RotateKeyEventView {
    pub key_type: ProfileKeyType,
    pub key_purpose: ProfileKeyPurpose,
    pub public_key: Seq<u8>,
    pub prev_public_kid: Seq<u8>,
}

impl View for RotateKeyEvent {
    type V = RotateKeyEventView;

    open spec fn view(&self) -> RotateKeyEventView {
        RotateKeyEventView {
            key_type: self.key_type,
            key_purpose: self.key_purpose,
            public_key: self.public_key@,
            prev_public_kid: self.prev_public_kid@,
        }
    }
}

impl RotateKeyEvent {
    /// The kind of the rotated key.
    pub fn key_type(&self) -> (r: ProfileKeyType)
        ensures
            r == self@.key_type,
    {
        self.key_type
    }

    /// What the rotated key is used for.
    pub fn key_purpose(&self) -> (r: ProfileKeyPurpose)
        ensures
            r == self@.key_purpose,
    {
        self.key_purpose
    }

    /// The fresh public key.
    pub fn public_key(&self) -> (r: &[u8])
        ensures
            r@ == self@.public_key,
    {
        self.public_key.as_slice()
    }

    /// The identifier of the replaced public key.
    pub fn prev_public_kid(&self) -> (r: &[u8])
        ensures
            r@ == self@.prev_public_kid,
    {
        self.prev_public_kid.as_slice()
    }

    /// Assembles the event.
    pub fn new(
        key_type: ProfileKeyType,
        key_purpose: ProfileKeyPurpose,
        public_key: Vec<u8>,
        prev_public_kid: Vec<u8>,
    ) -> (r: RotateKeyEvent)
        ensures
            r@.key_type == key_type,
            r@.key_purpose == key_purpose,
            r@.public_key == public_key@,
            r@.prev_public_kid == prev_public_kid@,
    {
        RotateKeyEvent { key_type, key_purpose, public_key, prev_public_kid }
    }
}

/// A key was revoked without replacement.
#[derive(Debug)]
pub struct RevokeKeyEvent {
    pub key_type: ProfileKeyType,
    pub key_purpose: ProfileKeyPurpose,
    pub prev_public_kid: Vec<u8>,
}

/// The mathematical value of a [`RevokeKeyEvent`].
pub struct RevokeKeyEventView {
    pub key_type: ProfileKeyType,
    pub key_purpose: ProfileKeyPurpose,
    pub prev_public_kid: Seq<u8>,
}

impl View for RevokeKeyEvent {
    type V = RevokeKeyEventView;

    open spec fn view(&self) -> RevokeKeyEventView {
        RevokeKeyEventView {
            key_type: self.key_type,
            key_purpose: self.key_purpose,
            prev_public_kid: self.prev_public_kid@,
        }
    }
}

impl RevokeKeyEvent {
    /// The kind of the revoked key.
    pub fn key_type(&self) -> (r: ProfileKeyType)
        ensures
            r == self@.key_type,
    {
        self.key_type
    }

    /// What the revoked key was used for.
    pub fn key_purpose(&self) -> (r: ProfileKeyPurpose)
        ensures
            r == self@.key_purpose,
    {
        self.key_purpose
    }

    /// The identifier of the revoked public key.
    pub fn prev_public_kid(&self) -> (r: &[u8])
        ensures
            r@ == self@.prev_public_kid,
    {
        self.prev_public_kid.as_slice()
    }

    /// Assembles the event.
    pub fn new(
        key_type: ProfileKeyType,
        key_purpose: ProfileKeyPurpose,
        prev_public_kid: Vec<u8>,
    ) -> (r: RevokeKeyEvent)
        ensures
            r@.key_type == key_type,
            r@.key_purpose == key_purpose,
            r@.prev_public_kid == prev_public_kid@,
    {
        RevokeKeyEvent { key_type, key_purpose, prev_public_kid }
    }
}

/// Additional profile data was set or deleted.
#[derive(Debug)]
pub struct ChangeAdditionalDataEvent {
    pub set: ProfileEventAdditionalData,
    pub delete: Vec<String>,
}

/// The mathematical value of a [`ChangeAdditionalDataEvent`].
pub struct ChangeAdditionalDataEventView {
    pub set: AttributesView,
    pub delete: Seq<Seq<char>>,
}

impl View for ChangeAdditionalDataEvent {
    type V = ChangeAdditionalDataEventView;

    open spec fn view(&self) -> ChangeAdditionalDataEventView {
        ChangeAdditionalDataEventView { set: self.set@, delete: self.delete.deep_view() }
    }
}

impl ChangeAdditionalDataEvent {
    /// The entries set by this event.
    pub fn set(&self) -> (r: &ProfileEventAdditionalData)
        ensures
            r@ == self@.set,
    {
        &self.set
    }

    /// The keys deleted by this event.
    pub fn delete(&self) -> (r: &Vec<String>)
        ensures
            r.deep_view() == self@.delete,
    {
        &self.delete
    }

    /// Assembles the event.
    pub fn new(set: ProfileEventAdditionalData, delete: Vec<String>) -> (r:
        ChangeAdditionalDataEvent)
        ensures
            r@.set == set@,
            r@.delete == delete.deep_view(),
    {
        ChangeAdditionalDataEvent { set, delete }
    }
}

} // verus!
