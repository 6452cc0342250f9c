//! The key store: secrets kept encrypted under a master key, each with a
//! nonce of its own, and the sealed blob in which a session snapshot rests.

use vstd::prelude::*;

use crate::bytes::{array12, array32, concat2, copy_bytes, tail_bytes};
use crate::primitives::{
    aead_open, aead_seal, blake3_digest, blake3_hash, chacha20poly1305_decrypt,
    chacha20poly1305_encrypt, os_random_bytes, unix_time_secs,
};

verus! {

/// The longest identifier a key may be stored under, in bytes.
pub const MAX_KEY_ID_LEN: usize = 256;

/// The longest secret the store encrypts: below `u32::MAX` cipher blocks.
pub const MAX_SECRET_LEN: u64 = 274877906879;

/// What a stored key is for.
#[derive(Clone, Copy, Debug, PartialEq, Eq, Structural)]
pub enum KeyType {
    IdentityKey,
    SigningKey,
    EncryptionKey,
    PreKey,
    EphemeralKey,
    RootKey,
    ChainKey,
    MessageKey,
}

/// What a key may be used for.
#[derive(Clone, Copy, Debug, PartialEq, Eq, Structural)]
pub enum KeyUsage {
    Signing,
    Encryption,
    KeyAgreement,
    Authentication,
}

/// What is known of a stored key besides its bytes.
pub struct KeyMetadata {
    pub algorithm: String,
    pub key_size: usize,
    pub usage: Vec<KeyUsage>,
    /// The time, in seconds since the Unix epoch, from which the key is expired.
    pub expiry: Option<u64>,
    pub tags: Vec<(String, String)>,
}

/// The tags of a key as plain text, one pair for one.
pub open spec fn tag_views(tags: Seq<(String, String)>) -> Seq<(Seq<char>, Seq<char>)> {
    Seq::new(tags.len(), |i: int| (tags[i].0@, tags[i].1@))
}

impl KeyMetadata {
    /// A copy of the metadata.
    pub fn duplicate(&self) -> (out: KeyMetadata)
        ensures
            out.algorithm == self.algorithm,
            out.key_size == self.key_size,
            out.usage@ == self.usage@,
            out.expiry == self.expiry,
            tag_views(out.tags@) == tag_views(self.tags@),
    {
        let mut usage: Vec<KeyUsage> = Vec::new();
        let mut i: usize = 0;
        while i < self.usage.len()
            invariant
                i <= self.usage@.len(),
                usage@ == self.usage@.subrange(0, i as int),
            decreases self.usage@.len() - i,
        {
            usage.push(self.usage[i]);
            i += 1;
            proof {
                assert(usage@ =~= self.usage@.subrange(0, i as int));
            }
        }
        proof {
            assert(self.usage@.subrange(0, self.usage@.len() as int) =~= self.usage@);
        }
        let mut tags: Vec<(String, String)> = Vec::new();
        let mut k: usize = 0;
        while k < self.tags.len()
            invariant
                k <= self.tags@.len(),
                tags@.len() == k,
                forall|j: int|
                    0 <= j < k ==> (#[trigger] tags@[j]).0@ == self.tags@[j].0@ && tags@[j].1@
                        == self.tags@[j].1@,
            decreases self.tags@.len() - k,
        {
            tags.push((self.tags[k].0.clone(), self.tags[k].1.clone()));
            k += 1;
        }
        proof {
            assert(tag_views(tags@) =~= tag_views(self.tags@));
        }
        KeyMetadata {
            algorithm: self.algorithm.clone(),
            key_size: self.key_size,
            usage,
            expiry: self.expiry,
            tags,
        }
    }
}

/// Why the key store refused.
#[derive(Clone, Copy, Debug, PartialEq, Eq, Structural)]
pub enum KeyStoreError {
    /// The identifier is empty or longer than 256 bytes.
    InvalidKeyId,
    /// The secret is too long to be encrypted.
    SecretTooLong,
    /// A stored entry does not open under the master key.
    DecryptionFailed,
    /// The operating system gave no random bytes.
    EntropyUnavailable,
    /// Fewer nonces were handed in than there are entries.
    NotEnoughNonces,
}

/// One stored key: the secret encrypted under the master key.
pub struct EncryptedKeyEntry {
    pub key_id: String,
    pub encrypted_data: Vec<u8>,
    pub nonce: [u8; 12],
    pub key_type: KeyType,
    pub created_at: u64,
    pub last_accessed: u64,
    pub metadata: KeyMetadata,
}

/// A stored key as plain values.
pub struct EntryView {
    pub encrypted_data: Seq<u8>,
    pub nonce: Seq<u8>,
    pub key_type: KeyType,
    pub created_at: u64,
    pub last_accessed: u64,
    /// The algorithm the key is for, as its metadata names it.
    pub algorithm: Seq<char>,
    /// The size of the key, as its metadata gives it.
    pub key_size: usize,
    /// What the key may be used for.
    pub usage: Seq<KeyUsage>,
    pub expiry: Option<u64>,
    pub tags: Seq<(Seq<char>, Seq<char>)>,
}

impl EntryView {
    /// The entry after it was read at time `now`.
    pub open spec fn read_at(entry: EntryView, now: u64) -> EntryView {
        EntryView { last_accessed: now, ..entry }
    }
}

impl View for EncryptedKeyEntry {
    type V = EntryView;

    open spec fn view(&self) -> EntryView {
        EntryView {
            encrypted_data: self.encrypted_data@,
            nonce: self.nonce@,
            key_type: self.key_type,
            created_at: self.created_at,
            last_accessed: self.last_accessed,
            algorithm: self.metadata.algorithm@,
            key_size: self.metadata.key_size,
            usage: self.metadata.usage@,
            expiry: self.metadata.expiry,
            tags: tag_views(self.metadata.tags@),
        }
    }
}

/// The entry that a secret makes when it is stored under a master key with
/// the nonce `nonce` at time `now`: the secret sealed, and beside it the
/// key type and the whole of the metadata.
pub open spec fn stored_entry(
    master_key: Seq<u8>,
    nonce: Seq<u8>,
    key_data: Seq<u8>,
    key_type: KeyType,
    metadata: KeyMetadata,
    now: u64,
) -> EntryView {
    EntryView {
        encrypted_data: aead_seal(master_key, nonce, Seq::<u8>::empty(), key_data),
        nonce,
        key_type,
        created_at: now,
        last_accessed: now,
        algorithm: metadata.algorithm@,
        key_size: metadata.key_size,
        usage: metadata.usage@,
        expiry: metadata.expiry,
        tags: tag_views(metadata.tags@),
    }
}

/// What a key store holds: identifier to entry.
pub type StoreView = Map<Seq<char>, EntryView>;

/// The secret behind an entry under a master key, or nothing where the
/// entry does not open.
pub open spec fn entry_secret(master_key: Seq<u8>, entry: EntryView) -> Option<Seq<u8>> {
    aead_open(master_key, entry.nonce, Seq::<u8>::empty(), entry.encrypted_data)
}

/// Whether an entry can be encrypted anew: it opens under the master key,
/// and its secret is short enough to be encrypted.
pub open spec fn rotatable(master_key: Seq<u8>, entry: EntryView) -> bool {
    entry_secret(master_key, entry) matches Some(secret) && secret.len() <= MAX_SECRET_LEN
}

/// Whether every entry of `store` can be encrypted anew.
pub open spec fn all_rotatable(master_key: Seq<u8>, store: StoreView) -> bool {
    forall|key_id: Seq<char>| #[trigger]
        store.contains_key(key_id) ==> rotatable(master_key, store[key_id])
}

/// Whether `after` is `before` without the entries that are expired at
/// time `now`: those that are still good stay as they are, the others are
/// gone.
pub open spec fn swept(before: StoreView, after: StoreView, now: u64) -> bool {
    &&& forall|key_id: Seq<char>| #[trigger]
        after.contains_key(key_id) <==> before.contains_key(key_id) && unexpired(
            before[key_id].expiry,
            now,
        )
    &&& forall|key_id: Seq<char>| #[trigger]
        after.contains_key(key_id) ==> after[key_id] == before[key_id]
}

/// What a store holds that was filled with `entries`: each entry under
/// its identifier, and of two entries with one identifier the earlier one.
pub open spec fn loaded(entries: Seq<EncryptedKeyEntry>) -> StoreView
    decreases entries.len(),
{
    if entries.len() == 0 {
        Map::empty()
    } else {
        loaded(entries.drop_first()).insert(entries[0].key_id@, entries[0]@)
    }
}

/// Whether a key may be stored under `key_id`.
pub open spec fn key_id_valid(key_id: &str) -> bool {
    0 < key_id.len() <= MAX_KEY_ID_LEN
}

/// Whether an entry with the expiry `expiry` is still good at time `now`.
pub open spec fn unexpired(expiry: Option<u64>, now: u64) -> bool {
    match expiry {
        Some(e) => now < e,
        None => true,
    }
}

/// The sealed blob of a snapshot: the nonce, then the snapshot encrypted
/// under the master key with that nonce.
pub open spec fn sealed_blob(master_key: Seq<u8>, nonce: Seq<u8>, snapshot: Seq<u8>) -> Seq<u8> {
    nonce + aead_seal(master_key, nonce, Seq::<u8>::empty(), snapshot)
}

/// The snapshot in a sealed blob, or nothing where the blob is shorter than
/// a nonce or does not open under the master key.
pub open spec fn opened_blob(master_key: Seq<u8>, blob: Seq<u8>) -> Option<Seq<u8>> {
    if blob.len() < 12 {
        None
    } else {
        aead_open(
            master_key,
            blob.subrange(0, 12),
            Seq::<u8>::empty(),
            blob.subrange(12, blob.len() as int),
        )
    }
}

/// Whether `blob` is the snapshot sealed under the master key with some
/// nonce of twelve bytes.
pub open spec fn freshly_sealed(master_key: Seq<u8>, snapshot: Seq<u8>, blob: Seq<u8>) -> bool {
    exists|nonce: Seq<u8>|
        nonce.len() == 12 && blob == #[trigger] sealed_blob(master_key, nonce, snapshot)
}

/// Seals a snapshot for storage: `nonce ‖ AEAD(master_key, nonce, snapshot)`.
pub fn seal_snapshot(master_key: &[u8; 32], nonce: &[u8; 12], snapshot: &[u8]) -> (out: Result<
    Vec<u8>,
    KeyStoreError,
>)
    ensures
        snapshot@.len() >= MAX_SECRET_LEN + 1 ==> out == Err::<Vec<u8>, KeyStoreError>(
            KeyStoreError::SecretTooLong,
        ),
        snapshot@.len() <= MAX_SECRET_LEN ==> (out matches Ok(blob) && blob@ == sealed_blob(
            master_key@,
            nonce@,
            snapshot@,
        ) && blob@.len() == snapshot@.len() + 28 && opened_blob(master_key@, blob@) == Some(
            snapshot@,
        )),
{
    let empty: Vec<u8> = Vec::new();
    match chacha20poly1305_encrypt(master_key, nonce, empty.as_slice(), snapshot) {
        Some(ciphertext) => {
            let blob = concat2(nonce.as_slice(), ciphertext.as_slice());
            proof {
                assert(blob@.subrange(0, 12) =~= nonce@);
                assert(blob@.subrange(12, blob@.len() as int) =~= ciphertext@);
            }
            Ok(blob)
        },
        None => Err(KeyStoreError::SecretTooLong),
    }
}

/// Opens a sealed blob. Refused where the blob is shorter than a nonce or
/// does not open under the master key.
pub fn open_snapshot(master_key: &[u8; 32], blob: &[u8]) -> (out: Result<Vec<u8>, KeyStoreError>)
    ensures
        opened_blob(master_key@, blob@) matches Some(snapshot) ==> (out matches Ok(s) && s@
            == snapshot),
        opened_blob(master_key@, blob@) is None ==> out == Err::<Vec<u8>, KeyStoreError>(
            KeyStoreError::DecryptionFailed,
        ),
{
    if blob.len() < 12 {
        return Err(KeyStoreError::DecryptionFailed);
    }
    let nonce = array12(blob);
    let ciphertext = tail_bytes(blob, 12);
    let empty: Vec<u8> = Vec::new();
    match chacha20poly1305_decrypt(master_key, &nonce, empty.as_slice(), ciphertext.as_slice()) {
        Some(snapshot) => Ok(snapshot),
        None => Err(KeyStoreError::DecryptionFailed),
    }
}

/// The key that protects a master key at rest, derived from a password.
pub open spec fn password_key(password: Seq<u8>) -> Seq<u8> {
    blake3_digest(password + keystore_salt())
}

/// `"qubee_keystore_salt"`: the salt of the password derivation.
pub open spec fn keystore_salt() -> Seq<u8> {
    seq![
        113u8, 117, 98, 101, 101, 95, 107, 101, 121, 115, 116, 111, 114, 101, 95, 115, 97, 108,
        116,
    ]
}

/// Derives the key that protects a master key at rest from a password.
pub fn derive_key_from_password(password: &[u8]) -> (out: [u8; 32])
    ensures
        out@ == password_key(password@),
{
    let salt: [u8; 19] = [
        113, 117, 98, 101, 101, 95, 107, 101, 121, 115, 116, 111, 114, 101, 95, 115, 97, 108, 116,
    ];
    proof {
        assert(salt@ =~= keystore_salt());
    }
    let input = concat2(password, salt.as_slice());
    blake3_hash(input.as_slice())
}

/// A store of secrets that are encrypted under a master key.
pub struct SecureKeyStore {
    master_key: [u8; 32],
    keys: Vec<EncryptedKeyEntry>,
}

impl SecureKeyStore {
    /// No identifier has two entries.
    pub closed spec fn wf(&self) -> bool {
        forall|i: int, j: int|
            0 <= i < j < self.keys@.len() ==> (#[trigger] self.keys@[i]).key_id@ != (
            #[trigger] self.keys@[j]).key_id@
    }

    /// The master key.
    pub closed spec fn master(&self) -> Seq<u8> {
        self.master_key@
    }

    spec fn position(&self, key_id: Seq<char>) -> int {
        choose|i: int| 0 <= i < self.keys@.len() && (#[trigger] self.keys@[i]).key_id@ == key_id
    }

    /// What the store holds.
    pub closed spec fn view(&self) -> StoreView {
        Map::new(
            |key_id: Seq<char>|
                exists|i: int|
                    0 <= i < self.keys@.len() && (#[trigger] self.keys@[i]).key_id@ == key_id,
            |key_id: Seq<char>| self.keys@[self.position(key_id)]@,
        )
    }

    proof fn lemma_entry(&self, i: int)
        requires
            self.wf(),
            0 <= i < self.keys@.len(),
        ensures
            self@.contains_key(self.keys@[i].key_id@),
            self@[self.keys@[i].key_id@] == self.keys@[i]@,
            self.position(self.keys@[i].key_id@) == i,
    {
        let id = self.keys@[i].key_id@;
        let p = self.position(id);
        assert(0 <= p < self.keys@.len() && self.keys@[p].key_id@ == id);
        if p < i {
            assert(self.keys@[p].key_id@ != self.keys@[i].key_id@);
        } else if i < p {
            assert(self.keys@[i].key_id@ != self.keys@[p].key_id@);
        }
    }

    /// The identifiers of the first `n` entries.
    spec fn ids_upto(&self, n: int) -> Set<Seq<char>>
        decreases n,
    {
        if n <= 0 {
            Set::empty()
        } else {
            self.ids_upto(n - 1).insert(self.keys@[n - 1].key_id@)
        }
    }

    proof fn lemma_ids(&self, n: int)
        requires
            self.wf(),
            0 <= n <= self.keys@.len(),
        ensures
            self.ids_upto(n).finite(),
            self.ids_upto(n).len() == n,
            forall|s: Seq<char>|
                self.ids_upto(n).contains(s) <==> exists|i: int|
                    0 <= i < n && (#[trigger] self.keys@[i]).key_id@ == s,
        decreases n,
    {
        if n > 0 {
            self.lemma_ids(n - 1);
            let id = self.keys@[n - 1].key_id@;
            if self.ids_upto(n - 1).contains(id) {
                let i = choose|i: int| 0 <= i < n - 1 && (#[trigger] self.keys@[i]).key_id@ == id;
                assert(self.keys@[i].key_id@ != self.keys@[n - 1].key_id@);
            }
            assert forall|s: Seq<char>|
                self.ids_upto(n).contains(s) <==> exists|i: int|
                    0 <= i < n && (#[trigger] self.keys@[i]).key_id@ == s by {
                if self.ids_upto(n).contains(s) {
                    if s == id {
                        assert(self.keys@[n - 1].key_id@ == s);
                    } else {
                        let i = choose|i: int|
                            0 <= i < n - 1 && (#[trigger] self.keys@[i]).key_id@ == s;
                        assert(0 <= i < n && self.keys@[i].key_id@ == s);
                    }
                }
                if exists|i: int| 0 <= i < n && (#[trigger] self.keys@[i]).key_id@ == s {
                    let i = choose|i: int| 0 <= i < n && (#[trigger] self.keys@[i]).key_id@ == s;
                    if i < n - 1 {
                        assert(self.ids_upto(n - 1).contains(s));
                    }
                }
            }
        }
    }

    /// There are as many entries as identifiers.
    proof fn lemma_count(&self)
        requires
            self.wf(),
        ensures
            self@.dom().finite(),
            self@.dom().len() == self.keys@.len(),
    {
        self.lemma_ids(self.keys@.len() as int);
        assert(self@.dom() =~= self.ids_upto(self.keys@.len() as int));
    }

    /// An empty store under the master key handed in.
    pub fn with_master_key(master_key: [u8; 32]) -> (out: Self)
        ensures
            out.wf(),
            out.master() == master_key@,
            out@ == StoreView::empty(),
    {
        let out = SecureKeyStore { master_key, keys: Vec::new() };
        proof {
            assert(out@ =~= StoreView::empty());
        }
        out
    }

    /// An empty store under a fresh master key.
    pub fn new() -> (out: Result<Self, KeyStoreError>)
        ensures
            out matches Ok(store) ==> store.wf() && store@ == StoreView::empty(),
            out matches Err(e) ==> e == KeyStoreError::EntropyUnavailable,
    {
        match os_random_bytes(32) {
            Some(bytes) => Ok(SecureKeyStore::with_master_key(array32(bytes.as_slice()))),
            None => Err(KeyStoreError::EntropyUnavailable),
        }
    }

    /// A store under the master key handed in that holds the entries handed
    /// in, as far as their identifiers are distinct: of two entries with one
    /// identifier the earlier one stays.
    pub fn from_entries(master_key: [u8; 32], entries: Vec<EncryptedKeyEntry>) -> (out: Self)
        ensures
            out.wf(),
            out.master() == master_key@,
            out@ == loaded(entries@),
            forall|i: int|
                0 <= i < entries@.len() ==> out@.contains_key(
                    (#[trigger] entries@[i]).key_id@,
                ),
    {
        let mut out = SecureKeyStore::with_master_key(master_key);
        let mut entries = entries;
        let ghost all = entries@;
        let ghost total = entries@.len();
        proof {
            assert(all.subrange(total as int, total as int) =~= Seq::<EncryptedKeyEntry>::empty());
            assert(out@ =~= loaded(all.subrange(total as int, total as int)));
        }
        while entries.len() > 0
            invariant
                out.wf(),
                out.master() == master_key@,
                total == all.len(),
                entries@.len() <= total,
                entries@ == all.subrange(0, entries@.len() as int),
                out@ == loaded(all.subrange(entries@.len() as int, total as int)),
                forall|i: int|
                    entries@.len() <= i < total ==> out@.contains_key((#[trigger] all[i]).key_id@),
            decreases entries@.len(),
        {
            let ghost before = out@;
            let ghost rest = entries@.len();
            let entry = entries.pop().unwrap();
            out.put(entry);
            proof {
                assert(entries@ =~= all.subrange(0, entries@.len() as int));
                let tail = all.subrange(rest - 1, total as int);
                assert(tail[0] == entry);
                assert(tail.drop_first() =~= all.subrange(rest as int, total as int));
            }
        }
        proof {
            assert(all.subrange(0, total as int) =~= all);
        }
        out
    }

    fn find(&self, key_id: &String) -> (out: Option<usize>)
        requires
            self.wf(),
        ensures
            out is Some <==> self@.contains_key(key_id@),
            out matches Some(i) ==> i < self.keys@.len() && self.keys@[i as int].key_id@
                == key_id@ && self@[key_id@] == self.keys@[i as int]@,
    {
        let mut i: usize = 0;
        while i < self.keys.len()
            invariant
                self.wf(),
                i <= self.keys@.len(),
                forall|j: int| 0 <= j < i ==> (#[trigger] self.keys@[j]).key_id@ != key_id@,
            decreases self.keys@.len() - i,
        {
            if self.keys[i].key_id == *key_id {
                proof {
                    self.lemma_entry(i as int);
                }
                return Some(i);
            }
            i += 1;
        }
        None
    }

    /// Takes the entry under `key_id` out of the store, if there is one.
    fn take(&mut self, key_id: &String) -> (out: Option<EncryptedKeyEntry>)
        requires
            old(self).wf(),
        ensures
            final(self).wf(),
            final(self).master() == old(self).master(),
            final(self)@ == old(self)@.remove(key_id@),
            out is Some <==> old(self)@.contains_key(key_id@),
            out matches Some(e) ==> e@ == old(self)@[key_id@] && e.key_id@ == key_id@,
            final(self).keys@.len() + (if out is Some {
                1int
            } else {
                0int
            }) == old(self).keys@.len(),
    {
        match self.find(key_id) {
            Some(at) => {
                let entry = self.keys.remove(at);
                proof {
                    let before = old(self).keys@;
                    let after = self.keys@;
                    assert forall|a: int, b: int| 0 <= a < b < after.len() implies (
                    #[trigger] after[a]).key_id@ != (#[trigger] after[b]).key_id@ by {
                        let oa = if a < at { a } else { a + 1 };
                        let ob = if b < at { b } else { b + 1 };
                        assert(after[a] == before[oa]);
                        assert(after[b] == before[ob]);
                    }
                    assert forall|s: Seq<char>| #[trigger]
                        self@.contains_key(s) == old(self)@.remove(key_id@).contains_key(s) && (
                        self@.contains_key(s) ==> self@[s] == old(self)@[s]) by {
                        if self@.contains_key(s) {
                            let p = self.position(s);
                            assert(0 <= p < after.len() && after[p].key_id@ == s);
                            let op = if p < at { p } else { p + 1 };
                            assert(after[p] == before[op]);
                            self.lemma_entry(p);
                            old(self).lemma_entry(op);
                            old(self).lemma_entry(at as int);
                        }
                        if old(self)@.remove(key_id@).contains_key(s) {
                            let op = old(self).position(s);
                            assert(0 <= op < before.len() && before[op].key_id@ == s);
                            assert(op != at);
                            let p = if op < at { op } else { op - 1 };
                            assert(after[p] == before[op]);
                        }
                    }
                    assert(self@ =~= old(self)@.remove(key_id@));
                }
                Some(entry)
            },
            None => {
                proof {
                    assert(self@ =~= old(self)@.remove(key_id@));
                }
                None
            },
        }
    }

    /// Puts an entry into the store, in place of an entry with the same identifier.
    fn put(&mut self, entry: EncryptedKeyEntry)
        requires
            old(self).wf(),
        ensures
            final(self).wf(),
            final(self).master() == old(self).master(),
            final(self)@ == old(self)@.insert(entry.key_id@, entry@),
    {
        let ghost id = entry.key_id@;
        let ghost value = entry@;
        let _ = self.take(&entry.key_id);
        let ghost middle = self@;
        let ghost before = self.keys@;
        let ghost mid = *self;
        self.keys.push(entry);
        proof {
            let after = self.keys@;
            let last = after.len() - 1;
            assert forall|a: int, b: int| 0 <= a < b < after.len() implies (
            #[trigger] after[a]).key_id@ != (#[trigger] after[b]).key_id@ by {
                assert(after[a] == before[a]);
                if b < last {
                    assert(after[b] == before[b]);
                } else {
                    if before[a].key_id@ == id {
                        mid.lemma_entry(a);
                    }
                }
            }
            self.lemma_entry(last);
            assert forall|s: Seq<char>| #[trigger]
                self@.contains_key(s) == middle.insert(id, value).contains_key(s) && (
                self@.contains_key(s) ==> self@[s] == middle.insert(id, value)[s]) by {
                if s != id {
                    if self@.contains_key(s) {
                        let p = self.position(s);
                        assert(0 <= p < after.len() && after[p].key_id@ == s);
                        assert(after[p] == before[p]);
                        self.lemma_entry(p);
                        mid.lemma_entry(p);
                    }
                    if middle.contains_key(s) {
                        let p = mid.position(s);
                        assert(0 <= p < before.len() && before[p].key_id@ == s);
                        assert(after[p] == before[p]);
                    }
                }
            }
            assert(self@ =~= middle.insert(id, value));
            assert(middle.insert(id, value) =~= old(self)@.insert(id, value));
        }
    }

    /// Stores a secret under `key_id`, encrypted with the nonce handed in,
    /// at time `now`. An entry that was there is replaced. Refused where the
    /// identifier is empty or longer than 256 bytes.
    pub fn store_key_with(
        &mut self,
        key_id: &str,
        key_data: &[u8],
        key_type: KeyType,
        metadata: KeyMetadata,
        nonce: &[u8; 12],
        now: u64,
    ) -> (out: Result<(), KeyStoreError>)
        requires
            old(self).wf(),
        ensures
            final(self).wf(),
            final(self).master() == old(self).master(),
            !key_id_valid(key_id) ==> out == Err::<(), KeyStoreError>(KeyStoreError::InvalidKeyId)
                && final(self)@ == old(self)@,
            key_id_valid(key_id) && key_data@.len() > MAX_SECRET_LEN ==> out == Err::<
                (),
                KeyStoreError,
            >(KeyStoreError::SecretTooLong) && final(self)@ == old(self)@,
            key_id_valid(key_id) && key_data@.len() <= MAX_SECRET_LEN ==> out == Ok::<
                (),
                KeyStoreError,
            >(()) && final(self)@ == old(self)@.insert(
                key_id@,
                stored_entry(old(self).master(), nonce@, key_data@, key_type, metadata, now),
            ) && entry_secret(final(self).master(), final(self)@[key_id@]) == Some(key_data@),
    {
        if key_id.len() == 0 || key_id.len() > MAX_KEY_ID_LEN {
            return Err(KeyStoreError::InvalidKeyId);
        }
        let empty: Vec<u8> = Vec::new();
        let encrypted_data = match chacha20poly1305_encrypt(
            &self.master_key,
            nonce,
            empty.as_slice(),
            key_data,
        ) {
            Some(c) => c,
            None => {
                return Err(KeyStoreError::SecretTooLong);
            },
        };
        self.put(
            EncryptedKeyEntry {
                key_id: key_id.to_owned(),
                encrypted_data,
                nonce: *nonce,
                key_type,
                created_at: now,
                last_accessed: now,
                metadata,
            },
        );
        Ok(())
    }

    /// Stores a secret under `key_id`, encrypted with a fresh nonce.
    pub fn store_key(
        &mut self,
        key_id: &str,
        key_data: &[u8],
        key_type: KeyType,
        metadata: KeyMetadata,
    ) -> (out: Result<(), KeyStoreError>)
        requires
            old(self).wf(),
        ensures
            final(self).wf(),
            final(self).master() == old(self).master(),
            !key_id_valid(key_id) ==> out == Err::<(), KeyStoreError>(KeyStoreError::InvalidKeyId),
            key_id_valid(key_id) && key_data@.len() > MAX_SECRET_LEN ==> out is Err,
            out matches Err(e) ==> (e == KeyStoreError::InvalidKeyId && !key_id_valid(key_id)) || (e
                == KeyStoreError::SecretTooLong && key_id_valid(key_id) && key_data@.len()
                > MAX_SECRET_LEN) || (e == KeyStoreError::EntropyUnavailable && key_id_valid(
                key_id,
            )),
            out is Err ==> final(self)@ == old(self)@,
            out is Ok ==> final(self)@.contains_key(key_id@) && final(self)@[key_id@].nonce.len()
                == 12 && final(self)@[key_id@] == stored_entry(
                old(self).master(),
                final(self)@[key_id@].nonce,
                key_data@,
                key_type,
                metadata,
                final(self)@[key_id@].created_at,
            ),
            out is Ok ==> final(self)@.contains_key(key_id@) && entry_secret(
                final(self).master(),
                final(self)@[key_id@],
            ) == Some(key_data@) && final(self)@[key_id@].key_type == key_type
                && final(self)@[key_id@].expiry == metadata.expiry
                    && final(self)@[key_id@].created_at == final(self)@[key_id@].last_accessed
                        && final(self)@.remove(key_id@) == old(self)@.remove(
                key_id@,
            ),
    {
        if key_id.len() == 0 || key_id.len() > MAX_KEY_ID_LEN {
            return Err(KeyStoreError::InvalidKeyId);
        }
        let nonce = match os_random_bytes(12) {
            Some(bytes) => array12(bytes.as_slice()),
            None => {
                return Err(KeyStoreError::EntropyUnavailable);
            },
        };
        let out = self.store_key_with(key_id, key_data, key_type, metadata, &nonce,
            unix_time_secs());
        proof {
            if out is Ok {
                assert(self@.remove(key_id@) =~= old(self)@.remove(key_id@));
            }
        }
        out
    }

    /// The secret stored under `key_id`, read at time `now`: nothing where
    /// there is no such entry. The entry remembers when it was read. An
    /// entry that does not open under the master key is an error.
    pub fn retrieve_key_at(&mut self, key_id: &str, now: u64) -> (out: Result<
        Option<Vec<u8>>,
        KeyStoreError,
    >)
        requires
            old(self).wf(),
        ensures
            final(self).wf(),
            final(self).master() == old(self).master(),
            !old(self)@.contains_key(key_id@) ==> out is Ok && out->Ok_0 is None && final(self)@
                == old(self)@,
            old(self)@.contains_key(key_id@) ==> final(self)@ == old(self)@.insert(
                key_id@,
                EntryView::read_at(old(self)@[key_id@], now),
            ) && match entry_secret(old(self).master(), old(self)@[key_id@]) {
                Some(secret) => out matches Ok(Some(s)) && s@ == secret,
                None => out == Err::<Option<Vec<u8>>, KeyStoreError>(
                    KeyStoreError::DecryptionFailed,
                ),
            },
    {
        let owned = key_id.to_owned();
        let mut entry = match self.take(&owned) {
            Some(e) => e,
            None => {
                proof {
                    assert(old(self)@.remove(key_id@) =~= old(self)@);
                }
                return Ok(None);
            },
        };
        entry.last_accessed = now;
        let empty: Vec<u8> = Vec::new();
        let opened = chacha20poly1305_decrypt(
            &self.master_key,
            &entry.nonce,
            empty.as_slice(),
            entry.encrypted_data.as_slice(),
        );
        self.put(entry);
        proof {
            assert(old(self)@.remove(key_id@).insert(
                key_id@,
                EntryView { last_accessed: now, ..old(self)@[key_id@] },
            ) =~= old(self)@.insert(
                key_id@,
                EntryView { last_accessed: now, ..old(self)@[key_id@] },
            ));
        }
        match opened {
            Some(secret) => Ok(Some(secret)),
            None => Err(KeyStoreError::DecryptionFailed),
        }
    }

    /// The secret stored under `key_id`, read now.
    pub fn retrieve_key(&mut self, key_id: &str) -> (out: Result<Option<Vec<u8>>, KeyStoreError>)
        requires
            old(self).wf(),
        ensures
            final(self).wf(),
            final(self).master() == old(self).master(),
            !old(self)@.contains_key(key_id@) ==> out is Ok && out->Ok_0 is None && final(self)@
                == old(self)@,
            old(self)@.contains_key(key_id@) ==> match entry_secret(
                old(self).master(),
                old(self)@[key_id@],
            ) {
                Some(secret) => out matches Ok(Some(s)) && s@ == secret,
                None => out == Err::<Option<Vec<u8>>, KeyStoreError>(
                    KeyStoreError::DecryptionFailed,
                ),
            },
            old(self)@.contains_key(key_id@) ==> exists|now: u64|
                final(self)@ == old(self)@.insert(
                    key_id@,
                    #[trigger] EntryView::read_at(old(self)@[key_id@], now),
                ),
    {
        let now = unix_time_secs();
        let out = self.retrieve_key_at(key_id, now);
        proof {
            if old(self)@.contains_key(key_id@) {
                assert(self@ == old(self)@.insert(
                    key_id@,
                    EntryView::read_at(old(self)@[key_id@], now),
                ));
            }
        }
        out
    }

    /// Deletes the entries that are expired by the clock. Returns how many
    /// there were.
    pub fn cleanup_expired_keys(&mut self) -> (out: Result<usize, KeyStoreError>)
        requires
            old(self).wf(),
        ensures
            final(self).wf(),
            final(self).master() == old(self).master(),
            out == Ok::<usize, KeyStoreError>(
                (old(self)@.dom().len() - final(self)@.dom().len()) as usize,
            ),
            final(self)@.dom().len() <= old(self)@.dom().len(),
            exists|now: u64| #[trigger] swept(old(self)@, final(self)@, now),
            forall|key_id: Seq<char>| #[trigger]
                final(self)@.contains_key(key_id) ==> old(self)@.contains_key(key_id)
                    && final(self)@[key_id] == old(self)@[key_id],
            forall|key_id: Seq<char>| #[trigger]
                old(self)@.contains_key(key_id) && old(self)@[key_id].expiry is None
                    ==> final(self)@.contains_key(key_id),
    {
        let now = unix_time_secs();
        let out = self.cleanup_expired_keys_at(now);
        assert(swept(old(self)@, self@, now));
        out
    }

    /// Deletes the entry under `key_id`. Returns whether there was one.
    pub fn delete_key(&mut self, key_id: &str) -> (out: Result<bool, KeyStoreError>)
        requires
            old(self).wf(),
        ensures
            final(self).wf(),
            final(self).master() == old(self).master(),
            out == Ok::<bool, KeyStoreError>(old(self)@.contains_key(key_id@)),
            final(self)@ == old(self)@.remove(key_id@),
    {
        let owned = key_id.to_owned();
        Ok(self.take(&owned).is_some())
    }

    /// Whether there is an entry under `key_id`.
    pub fn has_key(&self, key_id: &str) -> (out: bool)
        requires
            self.wf(),
        ensures
            out == self@.contains_key(key_id@),
    {
        let owned = key_id.to_owned();
        self.find(&owned).is_some()
    }

    /// The identifiers of all entries.
    pub fn list_keys(&self) -> (out: Vec<String>)
        requires
            self.wf(),
        ensures
            forall|i: int| 0 <= i < out@.len() ==> self@.contains_key((#[trigger] out@[i])@),
            forall|key_id: Seq<char>|
                self@.contains_key(key_id) ==> exists|i: int|
                    0 <= i < out@.len() && (#[trigger] out@[i])@ == key_id,
            forall|i: int, j: int|
                0 <= i < j < out@.len() ==> (#[trigger] out@[i])@ != (#[trigger] out@[j])@,
    {
        let mut out: Vec<String> = Vec::new();
        let mut i: usize = 0;
        while i < self.keys.len()
            invariant
                i <= self.keys@.len(),
                out@.len() == i,
                forall|j: int| 0 <= j < i ==> (#[trigger] out@[j])@ == self.keys@[j].key_id@,
            decreases self.keys@.len() - i,
        {
            out.push(self.keys[i].key_id.clone());
            i += 1;
        }
        proof {
            assert forall|j: int| 0 <= j < out@.len() implies self@.contains_key(
                (#[trigger] out@[j])@,
            ) by {
                self.lemma_entry(j);
            }
            assert forall|key_id: Seq<char>| self@.contains_key(key_id) implies exists|j: int|
                0 <= j < out@.len() && (#[trigger] out@[j])@ == key_id by {
                let p = self.position(key_id);
                assert(0 <= p < self.keys@.len() && self.keys@[p].key_id@ == key_id);
                assert(out@[p]@ == key_id);
            }
        }
        out
    }

    /// The metadata of the entry under `key_id`, without opening the entry.
    pub fn get_key_metadata(&self, key_id: &str) -> (out: Option<KeyMetadata>)
        requires
            self.wf(),
        ensures
            out is Some <==> self@.contains_key(key_id@),
            out matches Some(m) ==> m.algorithm@ == self@[key_id@].algorithm && m.key_size
                == self@[key_id@].key_size && m.usage@ == self@[key_id@].usage && m.expiry
                == self@[key_id@].expiry && tag_views(m.tags@) == self@[key_id@].tags,
    {
        let owned = key_id.to_owned();
        match self.find(&owned) {
            Some(i) => Some(self.keys[i].metadata.duplicate()),
            None => None,
        }
    }

    /// How many entries the store holds.
    pub fn len(&self) -> (out: usize)
        requires
            self.wf(),
        ensures
            out == self@.dom().len(),
    {
        proof {
            self.lemma_count();
        }
        self.keys.len()
    }

    /// Rotates the master key. Every entry is opened under the old master
    /// key and encrypted anew under the new one, each with a nonce of its
    /// own from `nonces`. If a single entry does not open, nothing changes.
    pub fn rotate_master_key_with(&mut self, new_master_key: [u8; 32],
        nonces: &Vec<[u8; 12]>) -> (out:
        Result<(), KeyStoreError>)
        requires
            old(self).wf(),
        ensures
            final(self).wf(),
            out is Ok <==> nonces@.len() >= old(self)@.dom().len() && all_rotatable(
                old(self).master(),
                old(self)@,
            ),
            out matches Err(e) ==> match e {
                KeyStoreError::NotEnoughNonces => nonces@.len() < old(self)@.dom().len(),
                KeyStoreError::DecryptionFailed => nonces@.len() >= old(self)@.dom().len()
                    && exists|key_id: Seq<char>| #[trigger]
                    old(self)@.contains_key(key_id) && entry_secret(
                        old(self).master(),
                        old(self)@[key_id],
                    ) is None,
                KeyStoreError::SecretTooLong => nonces@.len() >= old(self)@.dom().len()
                    && exists|key_id: Seq<char>| #[trigger]
                    old(self)@.contains_key(key_id) && !rotatable(
                        old(self).master(),
                        old(self)@[key_id],
                    ),
                _ => false,
            },
            out is Err ==> final(self)@ == old(self)@ && final(self).master() == old(self).master(),
            out is Ok ==> final(self).master() == new_master_key@ && final(self)@.dom()
                == old(self)@.dom() && forall|key_id: Seq<char>| #[trigger]
                old(self)@.contains_key(key_id) ==> entry_secret(
                    old(self).master(),
                    old(self)@[key_id],
                ) is Some && entry_secret(new_master_key@, final(self)@[key_id]) == entry_secret(
                    old(self).master(),
                    old(self)@[key_id],
                ) && final(self)@[key_id] == (EntryView {
                    encrypted_data: final(self)@[key_id].encrypted_data,
                    nonce: final(self)@[key_id].nonce,
                    ..old(self)@[key_id]
                }),
    {
        proof {
            self.lemma_count();
        }
        if nonces.len() < self.keys.len() {
            return Err(KeyStoreError::NotEnoughNonces);
        }
        let empty: Vec<u8> = Vec::new();
        let mut sealed: Vec<Vec<u8>> = Vec::new();
        let mut i: usize = 0;
        while i < self.keys.len()
            invariant
                self.wf(),
                *self == *old(self),
                empty@ == Seq::<u8>::empty(),
                i <= self.keys@.len(),
                self.keys@.len() <= nonces@.len(),
                sealed@.len() == i,
                forall|j: int|
                    0 <= j < i ==> rotatable(self.master_key@, (#[trigger] self.keys@[j])@),
                forall|j: int|
                    0 <= j < i ==> entry_secret(self.master_key@, (#[trigger] self.keys@[j])@)
                        is Some && entry_secret(
                        new_master_key@,
                        EntryView {
                            encrypted_data: sealed@[j]@,
                            nonce: nonces@[j]@,
                            ..self.keys@[j]@
                        },
                    ) == entry_secret(self.master_key@, self.keys@[j]@),
            decreases self.keys@.len() - i,
        {
            let secret = match chacha20poly1305_decrypt(
                &self.master_key,
                &self.keys[i].nonce,
                empty.as_slice(),
                self.keys[i].encrypted_data.as_slice(),
            ) {
                Some(s) => s,
                None => {
                    proof {
                        self.lemma_entry(i as int);
                        self.lemma_count();
                        let key_id = self.keys@[i as int].key_id@;
                        assert(old(self)@.contains_key(key_id) && entry_secret(
                            old(self).master(),
                            old(self)@[key_id],
                        ) is None);
                    }
                    return Err(KeyStoreError::DecryptionFailed);
                },
            };
            let encrypted = match chacha20poly1305_encrypt(
                &new_master_key,
                &nonces[i],
                empty.as_slice(),
                secret.as_slice(),
            ) {
                Some(c) => c,
                None => {
                    proof {
                        self.lemma_entry(i as int);
                        self.lemma_count();
                        let key_id = self.keys@[i as int].key_id@;
                        assert(old(self)@.contains_key(key_id) && !rotatable(
                            old(self).master(),
                            old(self)@[key_id],
                        ));
                    }
                    return Err(KeyStoreError::SecretTooLong);
                },
            };
            sealed.push(encrypted);
            i += 1;
        }
        let mut k: usize = 0;
        let ghost before = self.keys@;
        let ghost old_master = self.master_key@;
        while k < self.keys.len()
            invariant
                k <= self.keys@.len(),
                self.keys@.len() == before.len(),
                self.keys@.len() <= nonces@.len(),
                sealed@.len() == self.keys@.len(),
                self.master_key@ == old_master,
                forall|j: int| k <= j < before.len() ==> self.keys@[j] == before[j],
                forall|j: int|
                    0 <= j < before.len() ==> (#[trigger] self.keys@[j]).key_id@
                        == before[j].key_id@ && self.keys@[j].key_type == before[j].key_type
                        && self.keys@[j].metadata == before[j].metadata
                        && self.keys@[j].created_at == before[j].created_at
                        && self.keys@[j].last_accessed == before[j].last_accessed,
                forall|j: int|
                    0 <= j < k ==> (#[trigger] self.keys@[j])@.encrypted_data == sealed@[j]@
                        && self.keys@[j]@.nonce == nonces@[j]@,
            decreases self.keys@.len() - k,
        {
            let mut entry = self.keys.remove(k);
            entry.encrypted_data = copy_bytes(sealed[k].as_slice());
            entry.nonce = nonces[k];
            let ghost removed = self.keys@;
            self.keys.insert(k, entry);
            proof {
                assert forall|j: int| k < j < before.len() implies self.keys@[j] == before[j] by {
                    assert(self.keys@[j] == removed[j - 1]);
                }
            }
            k += 1;
        }
        self.master_key = new_master_key;
        proof {
            let after = self.keys@;
            assert forall|a: int, b: int| 0 <= a < b < after.len() implies (
            #[trigger] after[a]).key_id@ != (#[trigger] after[b]).key_id@ by {
                assert(before[a].key_id@ != before[b].key_id@);
            }
            assert forall|s: Seq<char>| self@.contains_key(s) == old(self)@.contains_key(s) by {
                if self@.contains_key(s) {
                    let p = self.position(s);
                    assert(0 <= p < after.len() && after[p].key_id@ == s);
                    assert(before[p].key_id@ == s);
                }
                if old(self)@.contains_key(s) {
                    let p = old(self).position(s);
                    assert(0 <= p < before.len() && before[p].key_id@ == s);
                    assert(after[p].key_id@ == s);
                }
            }
            assert(self@.dom() =~= old(self)@.dom());
            assert forall|key_id: Seq<char>| #[trigger]
                old(self)@.contains_key(key_id) implies entry_secret(
                old(self).master(),
                old(self)@[key_id],
            ) is Some && entry_secret(new_master_key@, self@[key_id]) == entry_secret(
                old(self).master(),
                old(self)@[key_id],
            ) && self@[key_id].key_type == old(self)@[key_id].key_type && self@[key_id].expiry
                == old(self)@[key_id].expiry by {
                let p = old(self).position(key_id);
                assert(0 <= p < before.len() && before[p].key_id@ == key_id);
                old(self).lemma_entry(p);
                assert(after[p].key_id@ == key_id);
                self.lemma_entry(p);
                assert(after[p]@ == EntryView {
                    encrypted_data: sealed@[p]@,
                    nonce: nonces@[p]@,
                    ..before[p]@
                });
            }
            assert forall|key_id: Seq<char>| #[trigger]
                old(self)@.contains_key(key_id) implies rotatable(
                old(self).master(),
                old(self)@[key_id],
            ) by {
                let p = old(self).position(key_id);
                assert(0 <= p < before.len() && before[p].key_id@ == key_id);
                old(self).lemma_entry(p);
            }
        }
        Ok(())
    }

    /// Rotates the master key to a fresh one, with fresh nonces.
    pub fn rotate_master_key(&mut self) -> (out: Result<(), KeyStoreError>)
        requires
            old(self).wf(),
        ensures
            final(self).wf(),
            out is Ok ==> all_rotatable(old(self).master(), old(self)@),
            out matches Err(e) ==> match e {
                KeyStoreError::EntropyUnavailable => true,
                KeyStoreError::DecryptionFailed => exists|key_id: Seq<char>| #[trigger]
                    old(self)@.contains_key(key_id) && entry_secret(
                        old(self).master(),
                        old(self)@[key_id],
                    ) is None,
                KeyStoreError::SecretTooLong => exists|key_id: Seq<char>| #[trigger]
                    old(self)@.contains_key(key_id) && !rotatable(
                        old(self).master(),
                        old(self)@[key_id],
                    ),
                _ => false,
            },
            out is Err ==> final(self)@ == old(self)@ && final(self).master() == old(self).master(),
            out is Ok ==> final(self)@.dom() == old(self)@.dom() && forall|key_id: Seq<char>|
                #[trigger] old(self)@.contains_key(key_id) ==> entry_secret(
                    final(self).master(),
                    final(self)@[key_id],
                ) == entry_secret(old(self).master(), old(self)@[key_id]) && final(self)@[key_id]
                    == (EntryView {
                    encrypted_data: final(self)@[key_id].encrypted_data,
                    nonce: final(self)@[key_id].nonce,
                    ..old(self)@[key_id]
                }),
    {
        proof {
            self.lemma_count();
        }
        let new_master = match os_random_bytes(32) {
            Some(bytes) => array32(bytes.as_slice()),
            None => {
                return Err(KeyStoreError::EntropyUnavailable);
            },
        };
        let mut nonces: Vec<[u8; 12]> = Vec::new();
        let mut i: usize = 0;
        while i < self.keys.len()
            invariant
                self.wf(),
                *self == *old(self),
                i <= self.keys@.len(),
                nonces@.len() == i,
            decreases self.keys@.len() - i,
        {
            match os_random_bytes(12) {
                Some(bytes) => nonces.push(array12(bytes.as_slice())),
                None => {
                    return Err(KeyStoreError::EntropyUnavailable);
                },
            }
            i += 1;
        }
        self.rotate_master_key_with(new_master, &nonces)
    }

    /// The identifiers of the entries that are expired at time `now`.
    pub fn expired_keys(&self, now: u64) -> (out: Vec<String>)
        requires
            self.wf(),
        ensures
            forall|j: int|
                0 <= j < out@.len() ==> self@.contains_key((#[trigger] out@[j])@) && !unexpired(
                    self@[out@[j]@].expiry,
                    now,
                ),
            forall|key_id: Seq<char>| #[trigger]
                self@.contains_key(key_id) && !unexpired(self@[key_id].expiry, now) ==> exists|
                    j: int,
                | 0 <= j < out@.len() && (#[trigger] out@[j])@ == key_id,
    {
        let mut out: Vec<String> = Vec::new();
        let mut i: usize = 0;
        while i < self.keys.len()
            invariant
                self.wf(),
                i <= self.keys@.len(),
                forall|j: int|
                    0 <= j < out@.len() ==> self@.contains_key((#[trigger] out@[j])@)
                        && !unexpired(self@[out@[j]@].expiry, now),
                forall|p: int|
                    0 <= p < i && !unexpired((#[trigger] self.keys@[p]).metadata.expiry, now)
                        ==> exists|j: int|
                        0 <= j < out@.len() && (#[trigger] out@[j])@ == self.keys@[p].key_id@,
            decreases self.keys@.len() - i,
        {
            let expired = match self.keys[i].metadata.expiry {
                Some(e) => now >= e,
                None => false,
            };
            if expired {
                let ghost before = out@;
                out.push(self.keys[i].key_id.clone());
                proof {
                    self.lemma_entry(i as int);
                    let last = out@.len() - 1;
                    assert forall|j: int| 0 <= j < out@.len() implies self@.contains_key(
                        (#[trigger] out@[j])@,
                    ) && !unexpired(self@[out@[j]@].expiry, now) by {
                        if j < last {
                            assert(out@[j] == before[j]);
                        }
                    }
                    assert forall|p: int|
                        0 <= p < i + 1 && !unexpired(
                            (#[trigger] self.keys@[p]).metadata.expiry,
                            now,
                        ) implies exists|j: int|
                        0 <= j < out@.len() && (#[trigger] out@[j])@ == self.keys@[p].key_id@ by {
                        if p < i {
                            let j = choose|j: int|
                                0 <= j < before.len() && (#[trigger] before[j])@
                                    == self.keys@[p].key_id@;
                            assert(out@[j] == before[j]);
                        } else {
                            assert(out@[last]@ == self.keys@[p].key_id@);
                        }
                    }
                }
            }
            i += 1;
        }
        proof {
            assert forall|key_id: Seq<char>| #[trigger]
                self@.contains_key(key_id) && !unexpired(
                    self@[key_id].expiry,
                    now,
                ) implies exists|j: int| 0 <= j < out@.len() && (#[trigger] out@[j])@ == key_id by {
                let p = self.position(key_id);
                assert(0 <= p < self.keys@.len() && self.keys@[p].key_id@ == key_id);
                self.lemma_entry(p);
            }
        }
        out
    }

    /// Deletes the entries that are expired at time `now`. Returns how many
    /// there were.
    pub fn cleanup_expired_keys_at(&mut self, now: u64) -> (out: Result<usize, KeyStoreError>)
        requires
            old(self).wf(),
        ensures
            final(self).wf(),
            final(self).master() == old(self).master(),
            out == Ok::<usize, KeyStoreError>(
                (old(self)@.dom().len() - final(self)@.dom().len()) as usize,
            ),
            final(self)@.dom().len() <= old(self)@.dom().len(),
            forall|key_id: Seq<char>| #[trigger]
                final(self)@.contains_key(key_id) <==> old(self)@.contains_key(key_id)
                    && unexpired(old(self)@[key_id].expiry, now),
            forall|key_id: Seq<char>| #[trigger]
                final(self)@.contains_key(key_id) ==> final(self)@[key_id] == old(self)@[key_id],
    {
        let expired = self.expired_keys(now);
        let mut removed: usize = 0;
        let mut k: usize = 0;
        while k < expired.len()
            invariant
                self.wf(),
                self.master() == old(self).master(),
                k <= expired@.len(),
                removed <= k,
                removed + self.keys@.len() == old(self).keys@.len(),
                forall|key_id: Seq<char>| #[trigger]
                    self@.contains_key(key_id) <==> old(self)@.contains_key(key_id) && !(exists|
                        j: int,
                    | 0 <= j < k && (#[trigger] expired@[j])@ == key_id),
                forall|key_id: Seq<char>| #[trigger]
                    self@.contains_key(key_id) ==> self@[key_id] == old(self)@[key_id],
            decreases expired@.len() - k,
        {
            let ghost before = self@;
            if self.take(&expired[k]).is_some() {
                removed += 1;
            }
            proof {
                let gone = expired@[k as int]@;
                assert forall|key_id: Seq<char>| #[trigger]
                    self@.contains_key(key_id) <==> old(self)@.contains_key(key_id) && !(exists|
                        j: int,
                    | 0 <= j < k + 1 && (#[trigger] expired@[j])@ == key_id) by {
                    if self@.contains_key(key_id) {
                        assert(before.contains_key(key_id) && key_id != gone);
                        if exists|j: int| 0 <= j < k + 1 && (#[trigger] expired@[j])@ == key_id {
                            let j = choose|j: int|
                                0 <= j < k + 1 && (#[trigger] expired@[j])@ == key_id;
                            assert(j < k);
                        }
                    }
                    if old(self)@.contains_key(key_id) && !(exists|j: int|
                        0 <= j < k + 1 && (#[trigger] expired@[j])@ == key_id) {
                        assert(expired@[k as int]@ != key_id);
                        if exists|j: int| 0 <= j < k && (#[trigger] expired@[j])@ == key_id {
                            let j = choose|j: int|
                                0 <= j < k && (#[trigger] expired@[j])@ == key_id;
                            assert(0 <= j < k + 1 && expired@[j]@ == key_id);
                        }
                        assert(before.contains_key(key_id));
                    }
                }
            }
            k += 1;
        }
        proof {
            assert forall|key_id: Seq<char>| #[trigger]
                self@.contains_key(key_id) <==> old(self)@.contains_key(key_id) && unexpired(
                    old(self)@[key_id].expiry,
                    now,
                ) by {
                if old(self)@.contains_key(key_id) {
                    if unexpired(old(self)@[key_id].expiry, now) {
                        if exists|j: int|
                            0 <= j < expired@.len() && (#[trigger] expired@[j])@ == key_id {
                            let j = choose|j: int|
                                0 <= j < expired@.len() && (#[trigger] expired@[j])@ == key_id;
                            assert(!unexpired(old(self)@[expired@[j]@].expiry, now));
                        }
                    }
                }
            }
            self.lemma_count();
            old(self).lemma_count();
        }
        Ok(removed)
    }
}

impl Drop for SecureKeyStore {
    /// A store that goes away overwrites its master key with zeros.
    fn drop(&mut self)
        opens_invariants none
        no_unwind
    {
        crate::primitives::zeroize_key(&mut self.master_key);
    }
}

} // verus!
