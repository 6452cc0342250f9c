//! The keys of a group.

use vstd::prelude::*;

use crate::bytes::{array12, array32, bytes_equal};
use crate::groups::group_manager::GroupId;
use crate::primitives::{os_random_bytes, unix_time_secs};
use crate::security::secure_keystore::{
    freshly_sealed, open_snapshot, opened_blob, seal_snapshot, sealed_blob, MAX_SECRET_LEN,
};

verus! {

/// What a rotation of a group's key changed.
pub struct GroupKeyRotation {
    pub group_id: GroupId,
    /// When the key before was made.
    pub old_key_created_at: u64,
    /// When the new key was made.
    pub new_key_created_at: u64,
    /// When the rotation took place.
    pub rotated_at: u64,
}

/// The key of a group.
#[derive(Clone, Copy)]
pub struct GroupKey {
    pub key: [u8; 32],
    /// When the key was made, in seconds since the Unix epoch.
    pub created_at: u64,
}

/// Why a group's message was refused.
#[derive(Debug, Clone, Copy, PartialEq, Eq, Structural)]
pub enum GroupCryptoError {
    /// The group has no key.
    KeyNotFound,
    /// The message is too long to be encrypted.
    MessageTooLong,
    /// The message is shorter than a nonce, or does not open under the
    /// group's key.
    DecryptionFailed,
    /// The operating system gave no random bytes.
    EntropyUnavailable,
}

struct GroupKeyRecord {
    group_id: GroupId,
    key: GroupKey,
}

/// The keys of groups as plain values: group identifier to key and time of making.
pub type GroupKeyView = Map<Seq<u8>, (Seq<u8>, u64)>;

/// The keys of the groups a party is in.
pub struct GroupCrypto {
    keys: Vec<GroupKeyRecord>,
}

impl GroupCrypto {
    /// No group has two keys.
    pub closed spec fn wf(&self) -> bool {
        forall|i: int, j: int|
            0 <= i < j < self.keys@.len() ==> (#[trigger] self.keys@[i]).group_id.0@ != (
            #[trigger] self.keys@[j]).group_id.0@
    }

    spec fn position(&self, group_id: Seq<u8>) -> int {
        choose|i: int| 0 <= i < self.keys@.len() && (#[trigger] self.keys@[i]).group_id.0@
            == group_id
    }

    /// The key of every group.
    pub closed spec fn view(&self) -> GroupKeyView {
        Map::new(
            |group_id: Seq<u8>|
                exists|i: int|
                    0 <= i < self.keys@.len() && (#[trigger] self.keys@[i]).group_id.0@ == group_id,
            |group_id: Seq<u8>|
                (
                    self.keys@[self.position(group_id)].key.key@,
                    self.keys@[self.position(group_id)].key.created_at,
                ),
        )
    }

    proof fn lemma_record(&self, i: int)
        requires
            self.wf(),
            0 <= i < self.keys@.len(),
        ensures
            self@.contains_key(self.keys@[i].group_id.0@),
            self@[self.keys@[i].group_id.0@]
                == (self.keys@[i].key.key@, self.keys@[i].key.created_at),
            self.position(self.keys@[i].group_id.0@) == i,
    {
        let id = self.keys@[i].group_id.0@;
        let p = self.position(id);
        assert(0 <= p < self.keys@.len() && self.keys@[p].group_id.0@ == id);
        if p < i {
            assert(self.keys@[p].group_id.0@ != self.keys@[i].group_id.0@);
        } else if i < p {
            assert(self.keys@[i].group_id.0@ != self.keys@[p].group_id.0@);
        }
    }

    /// No group has a key yet.
    pub fn new() -> (out: Result<Self, GroupCryptoError>)
        ensures
            out matches Ok(crypto) && crypto.wf() && crypto@ == GroupKeyView::empty(),
    {
        let out = GroupCrypto { keys: Vec::new() };
        proof {
            assert(out@ =~= GroupKeyView::empty());
        }
        Ok(out)
    }

    fn find(&self, group_id: &GroupId) -> (out: Option<usize>)
        requires
            self.wf(),
        ensures
            out is Some <==> self@.contains_key(group_id.0@),
            out matches Some(i) ==> i < self.keys@.len() && self.keys@[i as int].group_id.0@
                == group_id.0@ && self@[group_id.0@] == (
                self.keys@[i as int].key.key@,
                self.keys@[i as int].key.created_at,
            ),
    {
        let mut i: usize = 0;
        while i < self.keys.len()
            invariant
                self.wf(),
                i <= self.keys@.len(),
                forall|j: int| 0 <= j < i ==> (#[trigger] self.keys@[j]).group_id.0@ != group_id.0@,
            decreases self.keys@.len() - i,
        {
            if bytes_equal(self.keys[i].group_id.0.as_slice(), group_id.0.as_slice()) {
                proof {
                    self.lemma_record(i as int);
                }
                return Some(i);
            }
            i += 1;
        }
        None
    }

    /// Gives a group the key handed in, made at time `now`, in place of
    /// the key it had.
    pub fn create_group_key_with(&mut self, group_id: GroupId, key: [u8; 32], now: u64)
        requires
            old(self).wf(),
        ensures
            final(self).wf(),
            final(self)@ == old(self)@.insert(group_id.0@, (key@, now)),
    {
        let ghost id = group_id.0@;
        match self.find(&group_id) {
            Some(at) => {
                let _ = self.keys.remove(at);
                proof {
                    let before = old(self).keys@;
                    let after = self.keys@;
                    assert forall|a: int, b: int| 0 <= a < b < after.len() implies (
                    #[trigger] after[a]).group_id.0@ != (#[trigger] after[b]).group_id.0@ by {
                        let oa = if a < at { a } else { a + 1 };
                        let ob = if b < at { b } else { b + 1 };
                        assert(after[a] == before[oa]);
                        assert(after[b] == before[ob]);
                    }
                    assert forall|s: Seq<u8>| #[trigger]
                        self@.contains_key(s) == old(self)@.remove(id).contains_key(s) && (
                        self@.contains_key(s) ==> self@[s] == old(self)@[s]) by {
                        if self@.contains_key(s) {
                            let p = self.position(s);
                            assert(0 <= p < after.len() && after[p].group_id.0@ == s);
                            let op = if p < at { p } else { p + 1 };
                            assert(after[p] == before[op]);
                            self.lemma_record(p);
                            old(self).lemma_record(op);
                            old(self).lemma_record(at as int);
                        }
                        if old(self)@.remove(id).contains_key(s) {
                            let op = old(self).position(s);
                            assert(0 <= op < before.len() && before[op].group_id.0@ == s);
                            assert(op != at);
                            let p = if op < at { op } else { op - 1 };
                            assert(after[p] == before[op]);
                        }
                    }
                    assert(self@ =~= old(self)@.remove(id));
                }
            },
            None => {
                proof {
                    assert(self@ =~= old(self)@.remove(id));
                }
            },
        }
        let ghost middle = self@;
        let ghost before = self.keys@;
        let ghost mid = *self;
        self.keys.push(GroupKeyRecord { group_id, key: GroupKey { key, created_at: now } });
        proof {
            let after = self.keys@;
            let last = after.len() - 1;
            assert forall|a: int, b: int| 0 <= a < b < after.len() implies (
            #[trigger] after[a]).group_id.0@ != (#[trigger] after[b]).group_id.0@ by {
                assert(after[a] == before[a]);
                if b < last {
                    assert(after[b] == before[b]);
                } else {
                    if before[a].group_id.0@ == id {
                        mid.lemma_record(a);
                    }
                }
            }
            self.lemma_record(last);
            assert forall|s: Seq<u8>| #[trigger]
                self@.contains_key(s) == middle.insert(id, (key@, now)).contains_key(s) && (
                self@.contains_key(s) ==> self@[s] == middle.insert(id, (key@, now))[s]) by {
                if s != id {
                    if self@.contains_key(s) {
                        let p = self.position(s);
                        assert(0 <= p < after.len() && after[p].group_id.0@ == s);
                        assert(after[p] == before[p]);
                        self.lemma_record(p);
                        mid.lemma_record(p);
                    }
                    if middle.contains_key(s) {
                        let p = mid.position(s);
                        assert(0 <= p < before.len() && before[p].group_id.0@ == s);
                        assert(after[p] == before[p]);
                    }
                }
            }
            assert(self@ =~= middle.insert(id, (key@, now)));
            assert(middle.insert(id, (key@, now)) =~= old(self)@.insert(id, (key@, now)));
        }
    }

    /// Gives a group a fresh key in place of the key it had.
    pub fn create_group_key(&mut self, group_id: GroupId) -> (out: Result<(), GroupCryptoError>)
        requires
            old(self).wf(),
        ensures
            final(self).wf(),
            out matches Err(e) ==> e == GroupCryptoError::EntropyUnavailable && final(self)@
                == old(self)@,
            out is Ok ==> final(self)@.contains_key(group_id.0@) && final(self)@[group_id.0@].0.len()
                == 32 && final(self)@ == old(self)@.insert(
                group_id.0@,
                final(self)@[group_id.0@],
            ) && final(self)@.remove(group_id.0@) == old(self)@.remove(group_id.0@),
    {
        match os_random_bytes(32) {
            Some(bytes) => {
                let key = array32(bytes.as_slice());
                self.create_group_key_with(group_id, key, unix_time_secs());
                proof {
                    assert(self@.remove(group_id.0@) =~= old(self)@.remove(group_id.0@));
                }
                Ok(())
            },
            None => Err(GroupCryptoError::EntropyUnavailable),
        }
    }

    /// Replaces the key of a group by the key handed in, at time `now`,
    /// and reports the change. A group that had no key counts as having
    /// had one made at time zero.
    pub fn rotate_group_key_with(&mut self, group_id: GroupId, key: [u8; 32], now: u64) -> (out:
        GroupKeyRotation)
        requires
            old(self).wf(),
        ensures
            final(self).wf(),
            final(self)@ == old(self)@.insert(group_id.0@, (key@, now)),
            out.group_id == group_id,
            out.old_key_created_at == if old(self)@.contains_key(group_id.0@) {
                old(self)@[group_id.0@].1
            } else {
                0
            },
            out.new_key_created_at == now,
            out.rotated_at == now,
    {
        let old_key_created_at = match self.find(&group_id) {
            Some(i) => self.keys[i].key.created_at,
            None => 0,
        };
        self.create_group_key_with(group_id, key, now);
        GroupKeyRotation {
            group_id,
            old_key_created_at,
            new_key_created_at: now,
            rotated_at: now,
        }
    }

    /// Replaces the key of a group by a fresh one and reports the change.
    pub fn rotate_group_key(&mut self, group_id: GroupId) -> (out: Result<
        GroupKeyRotation,
        GroupCryptoError,
    >)
        requires
            old(self).wf(),
        ensures
            final(self).wf(),
            out matches Err(e) ==> e == GroupCryptoError::EntropyUnavailable && final(self)@
                == old(self)@,
            out is Ok ==> final(self)@.contains_key(group_id.0@) && final(self)@[group_id.0@].0.len()
                == 32 && final(self)@ == old(self)@.insert(
                group_id.0@,
                final(self)@[group_id.0@],
            ),
            out matches Ok(rotation) ==> rotation.group_id == group_id
                && final(self)@.contains_key(group_id.0@) && rotation.new_key_created_at
                    == final(self)@[group_id.0@].1 && rotation.rotated_at
                    == rotation.new_key_created_at && rotation.old_key_created_at
                        == if old(self)@.contains_key(
                group_id.0@,
            ) {
                old(self)@[group_id.0@].1
            } else {
                0
            },
    {
        match os_random_bytes(32) {
            Some(bytes) => {
                let key = array32(bytes.as_slice());
                Ok(self.rotate_group_key_with(group_id, key, unix_time_secs()))
            },
            None => Err(GroupCryptoError::EntropyUnavailable),
        }
    }

    /// The key of a group, if it has one.
    pub fn get_group_key(&self, group_id: &GroupId) -> (out: Option<GroupKey>)
        requires
            self.wf(),
        ensures
            out is Some <==> self@.contains_key(group_id.0@),
            out matches Some(k) ==> (k.key@, k.created_at) == self@[group_id.0@],
    {
        match self.find(group_id) {
            Some(i) => Some(self.keys[i].key),
            None => None,
        }
    }

    /// Encrypts a message for a group with the nonce handed in. The nonce
    /// goes in front of the ciphertext.
    pub fn encrypt_message_with(&self, group_id: &GroupId, plaintext: &[u8],
        nonce: &[u8; 12]) -> (out:
        Result<Vec<u8>, GroupCryptoError>)
        requires
            self.wf(),
        ensures
            !self@.contains_key(group_id.0@) ==> out == Err::<Vec<u8>, GroupCryptoError>(
                GroupCryptoError::KeyNotFound,
            ),
            self@.contains_key(group_id.0@) && plaintext@.len() > MAX_SECRET_LEN ==> out == Err::<
                Vec<u8>,
                GroupCryptoError,
            >(GroupCryptoError::MessageTooLong),
            self@.contains_key(group_id.0@) && plaintext@.len() <= MAX_SECRET_LEN ==> (out
                matches Ok(message) && message@ == sealed_blob(
                self@[group_id.0@].0,
                nonce@,
                plaintext@,
            ) && opened_blob(self@[group_id.0@].0, message@) == Some(plaintext@)),
    {
        let key = match self.get_group_key(group_id) {
            Some(k) => k,
            None => {
                return Err(GroupCryptoError::KeyNotFound);
            },
        };
        match seal_snapshot(&key.key, nonce, plaintext) {
            Ok(message) => Ok(message),
            Err(_) => Err(GroupCryptoError::MessageTooLong),
        }
    }

    /// Encrypts a message for a group with a fresh nonce.
    pub fn encrypt_message(&self, group_id: &GroupId, plaintext: &[u8]) -> (out: Result<
        Vec<u8>,
        GroupCryptoError,
    >)
        requires
            self.wf(),
        ensures
            !self@.contains_key(group_id.0@) ==> out == Err::<Vec<u8>, GroupCryptoError>(
                GroupCryptoError::KeyNotFound,
            ),
            self@.contains_key(group_id.0@) && plaintext@.len() > MAX_SECRET_LEN ==> out == Err::<
                Vec<u8>,
                GroupCryptoError,
            >(GroupCryptoError::MessageTooLong),
            self@.contains_key(group_id.0@) && plaintext@.len() <= MAX_SECRET_LEN ==> out == Err::<
                Vec<u8>,
                GroupCryptoError,
            >(GroupCryptoError::EntropyUnavailable) || (out matches Ok(message) && freshly_sealed(
                self@[group_id.0@].0,
                plaintext@,
                message@,
            )),
            out matches Ok(message) ==> self@.contains_key(group_id.0@) && opened_blob(
                self@[group_id.0@].0,
                message@,
            ) == Some(plaintext@),
    {
        if self.find(group_id).is_none() {
            return Err(GroupCryptoError::KeyNotFound);
        }
        if plaintext.len() as u64 > MAX_SECRET_LEN {
            return Err(GroupCryptoError::MessageTooLong);
        }
        let nonce = match os_random_bytes(12) {
            Some(bytes) => array12(bytes.as_slice()),
            None => {
                return Err(GroupCryptoError::EntropyUnavailable);
            },
        };
        let out = self.encrypt_message_with(group_id, plaintext, &nonce);
        proof {
            assert(out->Ok_0@ == sealed_blob(self@[group_id.0@].0, nonce@, plaintext@));
        }
        out
    }

    /// Decrypts a message of a group. Refused where the group has no key,
    /// and where the message is shorter than a nonce or does not open
    /// under the group's key.
    pub fn decrypt_message(&self, group_id: &GroupId, data: &[u8]) -> (out: Result<
        Vec<u8>,
        GroupCryptoError,
    >)
        requires
            self.wf(),
        ensures
            data@.len() < 12 ==> out == Err::<Vec<u8>, GroupCryptoError>(
                GroupCryptoError::DecryptionFailed,
            ),
            data@.len() >= 12 && !self@.contains_key(group_id.0@) ==> out == Err::<
                Vec<u8>,
                GroupCryptoError,
            >(GroupCryptoError::KeyNotFound),
            data@.len() >= 12 && self@.contains_key(group_id.0@) ==> match opened_blob(
                self@[group_id.0@].0,
                data@,
            ) {
                Some(plaintext) => out matches Ok(p) && p@ == plaintext,
                None => out == Err::<Vec<u8>, GroupCryptoError>(
                    GroupCryptoError::DecryptionFailed,
                ),
            },
    {
        if data.len() < 12 {
            return Err(GroupCryptoError::DecryptionFailed);
        }
        let key = match self.get_group_key(group_id) {
            Some(k) => k,
            None => {
                return Err(GroupCryptoError::KeyNotFound);
            },
        };
        match open_snapshot(&key.key, data) {
            Ok(plaintext) => Ok(plaintext),
            Err(_) => Err(GroupCryptoError::DecryptionFailed),
        }
    }
}

} // verus!
