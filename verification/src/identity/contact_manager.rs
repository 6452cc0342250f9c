//! Contacts and how far they are trusted.

use vstd::prelude::*;

use crate::bytes::bytes_equal;
use crate::identity::identity_key::{IdentityId, IdentityKey};

verus! {

/// How far a contact's identity is trusted.
#[derive(Clone, Copy, Debug, PartialEq, Eq, Structural)]
pub enum ContactVerificationStatus {
    /// The identity was verified out of band or by signature.
    Verified,
    /// The identity was not verified.
    Unverified,
    /// The contact may not start a conversation.
    Blocked,
}

/// What is known of a contact.
pub struct Contact {
    pub identity_id: IdentityId,
    pub identity_key: IdentityKey,
    pub display_name: String,
    pub verification_status: ContactVerificationStatus,
    pub added_at: u64,
}

/// Whether one of `contacts` has the identifier `id`.
pub open spec fn has_contact(contacts: Seq<Contact>, id: Seq<u8>) -> bool {
    exists|i: int| 0 <= i < contacts.len() && (#[trigger] contacts[i]).identity_id.0@ == id
}

/// Where among `contacts` the one with the identifier `id` stands.
pub open spec fn contact_index(contacts: Seq<Contact>, id: Seq<u8>) -> int {
    choose|i: int| 0 <= i < contacts.len() && (#[trigger] contacts[i]).identity_id.0@ == id
}

/// No two of `contacts` have the same identifier.
pub open spec fn distinct_contacts(contacts: Seq<Contact>) -> bool {
    forall|i: int, j: int|
        0 <= i < j < contacts.len() ==> (#[trigger] contacts[i]).identity_id.0@ != (
        #[trigger] contacts[j]).identity_id.0@
}

/// The contacts with `contact` among them: in the place of the one that
/// had its identifier, or behind the others.
pub open spec fn with_contact(contacts: Seq<Contact>, contact: Contact) -> Seq<Contact> {
    if has_contact(contacts, contact.identity_id.0@) {
        contacts.update(contact_index(contacts, contact.identity_id.0@), contact)
    } else {
        contacts.push(contact)
    }
}

/// Among distinct contacts, a contact is found where it stands.
pub proof fn lemma_contact_index(contacts: Seq<Contact>, i: int)
    requires
        distinct_contacts(contacts),
        0 <= i < contacts.len(),
    ensures
        has_contact(contacts, contacts[i].identity_id.0@),
        contact_index(contacts, contacts[i].identity_id.0@) == i,
{
    let id = contacts[i].identity_id.0@;
    let p = contact_index(contacts, id);
    assert(0 <= p < contacts.len() && contacts[p].identity_id.0@ == id);
    if p < i {
        assert(contacts[p].identity_id.0@ != contacts[i].identity_id.0@);
    } else if i < p {
        assert(contacts[i].identity_id.0@ != contacts[p].identity_id.0@);
    }
}

/// The contacts of a party, one for each identity.
pub struct ContactManager {
    contacts: Vec<Contact>,
}

impl ContactManager {
    /// The contacts, in the order in which their identities were first
    /// added.
    pub closed spec fn contacts(&self) -> Seq<Contact> {
        self.contacts@
    }

    #[verifier::type_invariant]
    spec fn inv(&self) -> bool {
        distinct_contacts(self.contacts@)
    }

    /// A manager without contacts.
    pub fn new() -> (out: Self)
        ensures
            out.contacts() == Seq::<Contact>::empty(),
    {
        ContactManager { contacts: Vec::new() }
    }

    fn find(&self, identity_id: &IdentityId) -> (out: Option<usize>)
        ensures
            out is Some <==> has_contact(self.contacts(), identity_id.0@),
            out matches Some(at) ==> at < self.contacts@.len() && at == contact_index(
                self.contacts(),
                identity_id.0@,
            ),
    {
        proof {
            use_type_invariant(self);
        }
        let mut i: usize = 0;
        while i < self.contacts.len()
            invariant
                i <= self.contacts@.len(),
                distinct_contacts(self.contacts@),
                forall|j: int|
                    0 <= j < i ==> (#[trigger] self.contacts@[j]).identity_id.0@ != identity_id.0@,
            decreases self.contacts@.len() - i,
        {
            if bytes_equal(self.contacts[i].identity_id.0.as_slice(), identity_id.0.as_slice()) {
                proof {
                    lemma_contact_index(self.contacts@, i as int);
                }
                return Some(i);
            }
            i += 1;
        }
        None
    }

    /// Adds a contact. A contact that had the same identifier gives way
    /// to the new one.
    pub fn add_contact(&mut self, contact: Contact)
        ensures
            final(self).contacts() == with_contact(old(self).contacts(), contact),
    {
        proof {
            use_type_invariant(&*self);
        }
        let ghost before = self.contacts@;
        match self.find(&contact.identity_id) {
            Some(at) => {
                let mut contacts: Vec<Contact> = Vec::new();
                core::mem::swap(&mut contacts, &mut self.contacts);
                let _ = contacts.remove(at);
                contacts.insert(at, contact);
                proof {
                    assert(contacts@ =~= before.update(at as int, contact));
                    assert forall|i: int, j: int| 0 <= i < j < contacts@.len() implies (
                    #[trigger] contacts@[i]).identity_id.0@ != (
                    #[trigger] contacts@[j]).identity_id.0@ by {
                        assert(contacts@[i].identity_id.0@ == before[i].identity_id.0@);
                        assert(contacts@[j].identity_id.0@ == before[j].identity_id.0@);
                    }
                }
                self.contacts = contacts;
            },
            None => {
                let mut contacts: Vec<Contact> = Vec::new();
                core::mem::swap(&mut contacts, &mut self.contacts);
                contacts.push(contact);
                proof {
                    assert forall|i: int, j: int| 0 <= i < j < contacts@.len() implies (
                    #[trigger] contacts@[i]).identity_id.0@ != (
                    #[trigger] contacts@[j]).identity_id.0@ by {
                        assert(contacts@[i] == before[i]);
                        if j < before.len() {
                            assert(contacts@[j] == before[j]);
                        }
                    }
                }
                self.contacts = contacts;
            },
        }
    }

    /// The contact with the identifier `identity_id`, if there is one.
    pub fn get_contact(&self, identity_id: &IdentityId) -> (out: Option<&Contact>)
        ensures
            out is Some <==> has_contact(self.contacts(), identity_id.0@),
            out matches Some(contact) ==> *contact == self.contacts()[contact_index(
                self.contacts(),
                identity_id.0@,
            )],
    {
        match self.find(identity_id) {
            Some(at) => Some(&self.contacts[at]),
            None => None,
        }
    }

    /// The public identity key of a contact, if the contact is known.
    pub fn get_identity_key(&self, identity_id: &IdentityId) -> (out: Option<&IdentityKey>)
        ensures
            out is Some <==> has_contact(self.contacts(), identity_id.0@),
            out matches Some(key) ==> *key == self.contacts()[contact_index(
                self.contacts(),
                identity_id.0@,
            )].identity_key,
    {
        match self.get_contact(identity_id) {
            Some(contact) => Some(&contact.identity_key),
            None => None,
        }
    }

    /// The name of a contact, if the contact is known.
    pub fn get_display_name(&self, identity_id: &IdentityId) -> (out: Option<&String>)
        ensures
            out is Some <==> has_contact(self.contacts(), identity_id.0@),
            out matches Some(name) ==> *name == self.contacts()[contact_index(
                self.contacts(),
                identity_id.0@,
            )].display_name,
    {
        match self.get_contact(identity_id) {
            Some(contact) => Some(&contact.display_name),
            None => None,
        }
    }
}

} // verus!
