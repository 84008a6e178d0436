//! Profiles: an identity with an append-only history of signed change
//! events, and the manager that operates on profiles.
//!
//! The cryptographic vault backing key generation, hashing and signing is
//! an external collaborator reached through the narrow [`ProfileVault`]
//! interface; profiles themselves only hold plain values.

use crate::change_event::{ChangeEvent, ChangeEventView, ProfileKeyPurpose, ProfileKeyType};
use crate::change_event::{ChangeEventType, ChangeEventTypeView};
use crate::error::Error;
use vstd::prelude::*;

verus! {

/// The abstract value of an attribute map: its entries in insertion
/// order, keys distinct.
pub type AttributesView = Seq<(Seq<char>, Seq<char>)>;

/// A small string-to-string map with insertion-ordered entries and
/// distinct keys, holding a profile event's attributes as plain values.
#[derive(Debug)]
pub struct ProfileEventAttributes {
    pub entries: Vec<(String, String)>,
}

/// Additional profile data uses the same shape as event attributes.
pub type ProfileEventAdditionalData = ProfileEventAttributes;

impl View for ProfileEventAttributes {
    type V = AttributesView;

    open spec fn view(&self) -> AttributesView {
        self.entries.deep_view()
    }
}

/// Whether two strings hold the same characters.
pub fn string_eq(a: &String, b: &String) -> (r: bool)
    ensures
        r == (a@ == b@),
{
    a.eq(b)
}

/// The value bound to `key`, scanning entries front to back.
pub open spec fn attributes_find(entries: AttributesView, key: Seq<char>) -> Option<Seq<char>>
    decreases entries.len(),
{
    if entries.len() == 0 {
        None
    } else if entries[0].0 == key {
        Some(entries[0].1)
    } else {
        attributes_find(entries.drop_first(), key)
    }
}

impl ProfileEventAttributes {
    /// Whether all keys are distinct.
    pub open spec fn wf(self) -> bool {
        forall|i: int, j: int|
            0 <= i < j < self@.len() ==> (#[trigger] self@[i]).0 != (#[trigger] self@[j]).0
    }

    /// An empty attribute map.
    pub fn new() -> (r: ProfileEventAttributes)
        ensures
            r@ == Seq::<(Seq<char>, Seq<char>)>::empty(),
            r.wf(),
    {
        let r = ProfileEventAttributes { entries: Vec::new() };
        proof {
            crate::views::lemma_deep_view_empty(r.entries);
        }
        r
    }

    /// The number of entries.
    pub fn len(&self) -> (n: usize)
        ensures
            n == self@.len(),
    {
        self.entries.len()
    }

    /// The value bound to `key`, if any.
    pub fn get(&self, key: &String) -> (r: Option<&String>)
        ensures
            match r {
                Some(v) => attributes_find(self@, key@) == Some(v@),
                None => attributes_find(self@, key@) is None,
            },
    {
        proof {
            assert(self@.subrange(0, self@.len() as int) =~= self@);
        }
        let mut i: usize = 0;
        while i < self.entries.len()
            invariant
                i <= self.entries.len(),
                attributes_find(self@, key@) == attributes_find(
                    self@.subrange(i as int, self@.len() as int),
                    key@,
                ),
            decreases self.entries.len() - i,
        {
            let ghost remaining = self@.subrange(i as int, self@.len() as int);
            proof {
                assert(remaining[0] == self@[i as int]);
                assert(remaining.drop_first() =~= self@.subrange(
                    (i + 1) as int,
                    self@.len() as int,
                ));
                assert(self@[i as int] == (self.entries@[i as int].0@, self.entries@[i as int].1@));
            }
            let entry = &self.entries[i];
            if string_eq(&entry.0, key) {
                return Some(&entry.1);
            }
            i = i + 1;
        }
        proof {
            assert(self@.subrange(self@.len() as int, self@.len() as int) =~= Seq::<
                (Seq<char>, Seq<char>),
            >::empty());
        }
        None
    }

    /// Binds `key` to `value`, replacing any existing binding.
    pub fn insert(&mut self, key: String, value: String)
        requires
            old(self).wf(),
        ensures
            final(self).wf(),
            attributes_find(final(self)@, key@) == Some(value@),
            forall|k: Seq<char>|
                k != key@ ==> #[trigger] attributes_find(final(self)@, k) == attributes_find(
                    old(self)@,
                    k,
                ),
    {
        let ghost pre = self.entries;
        let mut i: usize = 0;
        while i < self.entries.len()
            invariant
                i <= self.entries.len(),
                self.entries == pre,
                self.entries == old(self).entries,
                old(self).wf(),
                forall|j: int| 0 <= j < i ==> (#[trigger] self@[j]).0 != key@,
            decreases self.entries.len() - i,
        {
            proof {
                assert(self@[i as int] == (self.entries@[i as int].0@, self.entries@[i as int].1@));
            }
            let entry = &self.entries[i];
            if string_eq(&entry.0, &key) {
                proof {
                    lemma_attributes_find_first(self@, key@, i as int);
                    assert(old(self)@ == self@);
                    assert(0 <= i < old(self)@.len());
                    assert(old(self)@[i as int].0 == key@);
                }
                self.entries[i] = (key, value);
                proof {
                    crate::views::lemma_deep_view_update(
                        pre,
                        self.entries,
                        i as int,
                        self.entries@[i as int],
                    );
                    assert(self@ == old(self)@.update(i as int, (key@, value@)));
                    lemma_attributes_update(old(self)@, key@, value@, i as int);
                    assert forall|x: int|
                        0 <= x < self@.len() implies (#[trigger] self@[x]).0 == old(
                        self,
                    )@[x].0 by {
                        if x != i {
                            assert(self@[x] == old(self)@[x]);
                        }
                    }
                    assert forall|x: int, y: int|
                        0 <= x < y < self@.len() implies (#[trigger] self@[x]).0 != (
                    #[trigger] self@[y]).0 by {
                        assert(self@[x].0 == old(self)@[x].0);
                        assert(self@[y].0 == old(self)@[y].0);
                    }
                }
                return ;
            }
            i = i + 1;
        }
        self.entries.push((key, value));
        proof {
            crate::views::lemma_deep_view_push(pre, self.entries, self.entries@[pre@.len() as int]);
            assert(self@ == old(self)@.push((key@, value@)));
            lemma_attributes_append(old(self)@, key@, value@);
            assert forall|x: int, y: int|
                0 <= x < y < self@.len() implies (#[trigger] self@[x]).0 != (
            #[trigger] self@[y]).0 by {
                if y < old(self)@.len() {
                    assert(self@[x] == old(self)@[x]);
                    assert(self@[y] == old(self)@[y]);
                } else {
                    assert(self@[y].0 == key@);
                    assert(self@[x] == old(self)@[x]);
                    assert(old(self)@[x].0 != key@);
                }
            }
        }
    }
}

/// Where the first binding of `key` sits, nothing before position `p`
/// matching, the find yields that binding.
proof fn lemma_attributes_find_first(entries: AttributesView, key: Seq<char>, p: int)
    requires
        0 <= p < entries.len(),
        entries[p].0 == key,
        forall|j: int| 0 <= j < p ==> (#[trigger] entries[j]).0 != key,
    ensures
        attributes_find(entries, key) == Some(entries[p].1),
    decreases entries.len(),
{
    if p > 0 {
        lemma_attributes_find_first(entries.drop_first(), key, p - 1);
    }
}

/// Updating position `p`, the first binding of `key`, rebinds `key` and
/// leaves every other key's binding unchanged.
proof fn lemma_attributes_update(entries: AttributesView, key: Seq<char>, value: Seq<char>, p: int)
    requires
        0 <= p < entries.len(),
        entries[p].0 == key,
        forall|j: int| 0 <= j < p ==> (#[trigger] entries[j]).0 != key,
    ensures
        attributes_find(entries.update(p, (key, value)), key) == Some(value),
        forall|k: Seq<char>|
            k != key ==> #[trigger] attributes_find(entries.update(p, (key, value)), k)
                == attributes_find(entries, k),
    decreases entries.len(),
{
    let updated = entries.update(p, (key, value));
    if p > 0 {
        lemma_attributes_update(entries.drop_first(), key, value, p - 1);
        assert(updated.drop_first() =~= entries.drop_first().update(p - 1, (key, value)));
        assert(updated[0] == entries[0]);
        assert forall|k: Seq<char>|
            k != key implies #[trigger] attributes_find(updated, k) == attributes_find(
            entries,
            k,
        ) by {
            assert(attributes_find(updated.drop_first(), k) == attributes_find(
                entries.drop_first(),
                k,
            ));
        }
    } else {
        assert(updated.drop_first() =~= entries.drop_first());
        assert forall|k: Seq<char>|
            k != key implies #[trigger] attributes_find(updated, k) == attributes_find(
            entries,
            k,
        ) by {
            assert(updated[0].0 == key);
            assert(entries[0].0 == key);
        }
    }
}

/// Appending a binding for a key bound nowhere in `entries` binds it and
/// leaves every other key's binding unchanged.
proof fn lemma_attributes_append(entries: AttributesView, key: Seq<char>, value: Seq<char>)
    requires
        forall|j: int| 0 <= j < entries.len() ==> (#[trigger] entries[j]).0 != key,
    ensures
        attributes_find(entries.push((key, value)), key) == Some(value),
        forall|k: Seq<char>|
            k != key ==> #[trigger] attributes_find(entries.push((key, value)), k)
                == attributes_find(entries, k),
    decreases entries.len(),
{
    let appended = entries.push((key, value));
    if entries.len() > 0 {
        lemma_attributes_append(entries.drop_first(), key, value);
        assert(appended.drop_first() =~= entries.drop_first().push((key, value)));
        assert(appended[0] == entries[0]);
        assert forall|k: Seq<char>|
            k != key implies #[trigger] attributes_find(appended, k) == attributes_find(
            entries,
            k,
        ) by {
            assert(attributes_find(appended.drop_first(), k) == attributes_find(
                entries.drop_first(),
                k,
            ));
        }
    } else {
        assert(appended.drop_first() =~= Seq::<(Seq<char>, Seq<char>)>::empty());
        assert forall|k: Seq<char>|
            k != key implies #[trigger] attributes_find(appended, k) == attributes_find(
            entries,
            k,
        ) by {
            assert(appended[0].0 == key);
            assert(attributes_find(appended, k) == attributes_find(appended.drop_first(), k));
            assert(attributes_find(appended.drop_first(), k) is None);
            assert(attributes_find(entries, k) is None);
        }
    }
}

/// The narrow interface of the cryptographic vault backing profiles: key
/// generation, public-key derivation, hashing and signing, supplied by an
/// external backend. Nothing is promised of the values it produces.
pub trait ProfileVault: Sized {
    /// Generates a fresh secret key.
    fn secret_generate(&mut self) -> Result<Vec<u8>, Error>;

    /// Derives the public key of a secret.
    fn secret_public_key_get(&mut self, secret: &Vec<u8>) -> Result<Vec<u8>, Error>;

    /// Hashes `data`.
    fn sha256(&mut self, data: &Vec<u8>) -> Result<Vec<u8>, Error>;

    /// Signs `data` with `secret`.
    fn sign(&mut self, secret: &Vec<u8>, data: &Vec<u8>) -> Result<Vec<u8>, Error>;
}

/// A change event together with the identifier it was filed under.
#[derive(Debug)]
pub struct SignedChangeEvent {
    pub identifier: String,
    pub change_event: ChangeEvent,
}

/// The mathematical value of a [`SignedChangeEvent`].
pub struct SignedChangeEventView {
    pub identifier: Seq<char>,
    pub change_event: ChangeEventView,
}

impl View for SignedChangeEvent {
    type V = SignedChangeEventView;

    open spec fn view(&self) -> SignedChangeEventView {
        SignedChangeEventView { identifier: self.identifier@, change_event: self.change_event@ }
    }
}

impl DeepView for SignedChangeEvent {
    type V = SignedChangeEventView;

    open spec fn deep_view(&self) -> SignedChangeEventView {
        self@
    }
}

impl SignedChangeEvent {
    /// The identifier the event was filed under.
    pub fn identifier(&self) -> (r: &str)
        ensures
            r@ == self@.identifier,
    {
        self.identifier.as_str()
    }

    /// The event itself.
    pub fn change_event(&self) -> (r: &ChangeEvent)
        ensures
            r@ == self@.change_event,
    {
        &self.change_event
    }
}

/// Whether an event concerns the key of the given kind and purpose.
pub open spec fn key_event_matches(
    e: ChangeEventTypeView,
    key_type: ProfileKeyType,
    key_purpose: ProfileKeyPurpose,
) -> bool {
    match e {
        ChangeEventTypeView::CreateKey(ev) => ev.key_type == key_type && ev.key_purpose
            == key_purpose,
        ChangeEventTypeView::RotateKey(ev) => ev.key_type == key_type && ev.key_purpose
            == key_purpose,
        ChangeEventTypeView::RevokeKey(ev) => ev.key_type == key_type && ev.key_purpose
            == key_purpose,
        ChangeEventTypeView::ChangeAttributes(_) => false,
    }
}

/// The content of the last event in `events` concerning the given key, if
/// any.
pub open spec fn last_key_event(
    events: Seq<SignedChangeEventView>,
    key_type: ProfileKeyType,
    key_purpose: ProfileKeyPurpose,
) -> Option<ChangeEventTypeView>
    decreases events.len(),
{
    if events.len() == 0 {
        None
    } else if key_event_matches(events.last().change_event.etype, key_type, key_purpose) {
        Some(events.last().change_event.etype)
    } else {
        last_key_event(events.drop_last(), key_type, key_purpose)
    }
}

/// An identity: its identifier (derived from its first public key), its
/// change history, and the secrets filed by event identifier.
#[derive(Debug)]
pub struct Profile {
    pub identifier: String,
    pub change_events: Vec<SignedChangeEvent>,
    pub keys: Vec<(String, Vec<u8>)>,
}

/// The mathematical value of a [`Profile`].
pub struct ProfileView {
    pub identifier: Seq<char>,
    pub change_events: Seq<SignedChangeEventView>,
    pub keys: Seq<(Seq<char>, Seq<u8>)>,
}

impl View for Profile {
    type V = ProfileView;

    open spec fn view(&self) -> ProfileView {
        ProfileView {
            identifier: self.identifier@,
            change_events: self.change_events.deep_view(),
            keys: self.keys.deep_view(),
        }
    }
}

impl Profile {
    /// The profile's identifier: its first public key id.
    pub fn identifier(&self) -> (r: &str)
        ensures
            r@ == self@.identifier,
    {
        self.identifier.as_str()
    }

    /// The profile's change history, oldest first.
    pub fn change_events(&self) -> (r: &Vec<SignedChangeEvent>)
        ensures
            r.deep_view() == self@.change_events,
    {
        &self.change_events
    }

    /// The secrets filed by event identifier.
    pub fn keys(&self) -> (r: &Vec<(String, Vec<u8>)>)
        ensures
            r.deep_view() == self@.keys,
    {
        &self.keys
    }

    /// Assembles a profile.
    pub fn new(
        identifier: String,
        change_events: Vec<SignedChangeEvent>,
        keys: Vec<(String, Vec<u8>)>,
    ) -> (r: Profile)
        ensures
            r@.identifier == identifier@,
            r@.change_events == change_events.deep_view(),
            r@.keys == keys.deep_view(),
    {
        Profile { identifier, change_events, keys }
    }

    /// The profile's current public key for the given kind and purpose:
    /// the key carried by the last matching create or rotate event, and
    /// nothing when there is no matching event or the last one revoked
    /// the key.
    pub fn public_key(&self, key_type: ProfileKeyType, key_purpose: ProfileKeyPurpose) -> (r:
        Result<Option<Vec<u8>>, Error>)
        ensures
            match last_key_event(self@.change_events, key_type, key_purpose) {
                None => r == Ok::<Option<Vec<u8>>, Error>(None),
                Some(e) => match e {
                    ChangeEventTypeView::CreateKey(ev) => r matches Ok(Some(pk)) && pk@
                        == ev.public_key,
                    ChangeEventTypeView::RotateKey(ev) => r matches Ok(Some(pk)) && pk@
                        == ev.public_key,
                    _ => r == Ok::<Option<Vec<u8>>, Error>(None),
                },
            },
    {
        let ghost events = self@.change_events;
        proof {
            assert(events.subrange(0, events.len() as int) =~= events);
        }
        let mut i: usize = self.change_events.len();
        while i > 0
            invariant
                i <= self.change_events.len(),
                events == self@.change_events,
                last_key_event(events, key_type, key_purpose) == last_key_event(
                    events.subrange(0, i as int),
                    key_type,
                    key_purpose,
                ),
            decreases i,
        {
            let ghost prefix = events.subrange(0, i as int);
            proof {
                assert(prefix.last() == events[i - 1]);
                assert(prefix.drop_last() =~= events.subrange(0, (i - 1) as int));
                assert(events[i - 1] == self.change_events@[i - 1]@);
            }
            i = i - 1;
            let event = &self.change_events[i];
            let matched = match &event.change_event.etype {
                ChangeEventType::CreateKey(ev) => ev.key_type == key_type && ev.key_purpose
                    == key_purpose,
                ChangeEventType::RotateKey(ev) => ev.key_type == key_type && ev.key_purpose
                    == key_purpose,
                ChangeEventType::RevokeKey(ev) => ev.key_type == key_type && ev.key_purpose
                    == key_purpose,
                ChangeEventType::ChangeAttributes(_) => false,
            };
            if matched {
                return match &event.change_event.etype {
                    ChangeEventType::CreateKey(ev) => Ok(
                        Some(crate::address::copy_bytes(&ev.public_key)),
                    ),
                    ChangeEventType::RotateKey(ev) => Ok(
                        Some(crate::address::copy_bytes(&ev.public_key)),
                    ),
                    _ => Ok(None),
                };
            }
        }
        proof {
            assert(events.subrange(0, 0) =~= Seq::<SignedChangeEventView>::empty());
        }
        Ok(None)
    }

    /// Appends an event to the history, filing a secret under the event's
    /// identifier when one is handed over.
    pub fn add_event(&mut self, event: SignedChangeEvent, key: Option<Vec<u8>>) -> (r: Result<
        (),
        Error,
    >)
        ensures
            r == Ok::<(), Error>(()),
            final(self)@.change_events == old(self)@.change_events.push(event@),
            final(self)@.identifier == old(self)@.identifier,
            match key {
                Some(k) => final(self)@.keys == old(self)@.keys.push((event@.identifier, k@)),
                None => final(self)@.keys == old(self)@.keys,
            },
    {
        let ghost pre_events = self.change_events;
        let ghost pre_keys = self.keys;
        let ghost evid = event@.identifier;
        let event_id = self.identifier_of(&event);
        proof {
            assert(event_id@ == evid);
        }
        self.change_events.push(event);
        proof {
            crate::views::lemma_deep_view_push(
                pre_events,
                self.change_events,
                self.change_events@[pre_events@.len() as int],
            );
        }
        if let Some(k) = key {
            let ghost kv = k@;
            self.keys.push((event_id, k));
            proof {
                crate::views::lemma_deep_view_push(
                    pre_keys,
                    self.keys,
                    self.keys@[pre_keys@.len() as int],
                );
                assert(self.keys@ == pre_keys@.push(self.keys@[pre_keys@.len() as int]));
                let elem = self.keys@[pre_keys@.len() as int];
                assert(elem.deep_view() == (elem.0@, elem.1@));
                assert(elem.0@ == evid);
                assert(elem.1@ == kv);
                assert(self@.keys == pre_keys.deep_view().push(elem.deep_view()));
                assert(pre_keys.deep_view() == old(self)@.keys);
                assert(self@.keys =~= old(self)@.keys.push((evid, kv)));
            }
        }
        Ok(())
    }

    /// A copy of an event's identifier.
    fn identifier_of(&self, event: &SignedChangeEvent) -> (r: String)
        ensures
            r@ == event@.identifier,
    {
        event.identifier.clone()
    }
}

/// Operations over profiles. Stateless: every operation takes the profile
/// it works on.
#[derive(Debug)]
pub struct ProfileManager {

}

impl ProfileManager {
    /// A profile manager.
    pub fn new() -> (r: ProfileManager) {
        ProfileManager {  }
    }

    /// The profile's current public key for the given kind and purpose.
    pub fn get_profile_public_key(
        &self,
        profile: &Profile,
        key_type: ProfileKeyType,
        key_purpose: ProfileKeyPurpose,
    ) -> (r: Result<Option<Vec<u8>>, Error>)
        ensures
            match last_key_event(profile@.change_events, key_type, key_purpose) {
                None => r == Ok::<Option<Vec<u8>>, Error>(None),
                Some(e) => match e {
                    ChangeEventTypeView::CreateKey(ev) => r matches Ok(Some(pk)) && pk@
                        == ev.public_key,
                    ChangeEventTypeView::RotateKey(ev) => r matches Ok(Some(pk)) && pk@
                        == ev.public_key,
                    _ => r == Ok::<Option<Vec<u8>>, Error>(None),
                },
            },
    {
        profile.public_key(key_type, key_purpose)
    }
}

} // verus!
