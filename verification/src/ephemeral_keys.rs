//! The pinning registry: for every sender, the ephemeral signing key that
//! was accepted from them first.

use vstd::prelude::*;

use crate::bytes::{bytes_equal, copy_bytes};
use crate::errors::RatchetError;

verus! {

/// The key pinned to one sender.
pub struct EphemeralKeyRecord {
    pub sender_id: String,
    pub key: Vec<u8>,
}

/// What a registry holds: sender identity to pinned key.
pub type PinView = Map<Seq<char>, Seq<u8>>;

/// The registry after `candidate` was presented for `sender`: a sender seen
/// for the first time is pinned to the key; a sender who is pinned stays so.
pub open spec fn pins_after(pins: PinView, sender: Seq<char>, candidate: Seq<u8>) -> PinView {
    if pins.contains_key(sender) {
        pins
    } else {
        pins.insert(sender, candidate)
    }
}

/// Whether `candidate` is acceptable for `sender`: nothing is pinned yet, or
/// the pinned key is the same, byte for byte.
pub open spec fn pin_admits(pins: PinView, sender: Seq<char>, candidate: Seq<u8>) -> bool {
    pins.contains_key(sender) ==> pins[sender] == candidate
}

/// A trust-on-first-use registry of ephemeral signing keys.
pub struct EphemeralKeyStore {
    records: Vec<EphemeralKeyRecord>,
}

impl EphemeralKeyStore {
    /// No sender has two records.
    pub closed spec fn wf(&self) -> bool {
        forall|i: int, j: int|
            0 <= i < j < self.records@.len() ==> (#[trigger] self.records@[i]).sender_id@ != (
            #[trigger] self.records@[j]).sender_id@
    }

    spec fn position(&self, sender: Seq<char>) -> int {
        choose|i: int| 0 <= i < self.records@.len() && (#[trigger] self.records@[i]).sender_id@
            == sender
    }

    /// The pinned key of every sender.
    pub closed spec fn view(&self) -> PinView {
        Map::new(
            |sender: Seq<char>|
                exists|i: int|
                    0 <= i < self.records@.len() && (#[trigger] self.records@[i]).sender_id@
                        == sender,
            |sender: Seq<char>| self.records@[self.position(sender)].key@,
        )
    }

    proof fn lemma_record(&self, i: int)
        requires
            self.wf(),
            0 <= i < self.records@.len(),
        ensures
            self@.contains_key(self.records@[i].sender_id@),
            self@[self.records@[i].sender_id@] == self.records@[i].key@,
    {
        let sender = self.records@[i].sender_id@;
        let p = self.position(sender);
        assert(0 <= p < self.records@.len() && self.records@[p].sender_id@ == sender);
        if p < i {
            assert(self.records@[p].sender_id@ != self.records@[i].sender_id@);
        } else if i < p {
            assert(self.records@[i].sender_id@ != self.records@[p].sender_id@);
        }
    }

    /// A registry that has pinned nobody.
    pub fn new() -> (out: Self)
        ensures
            out.wf(),
            out@ == PinView::empty(),
    {
        let out = EphemeralKeyStore { records: Vec::new() };
        proof {
            assert(out@ =~= PinView::empty());
        }
        out
    }

    fn find(&self, sender_id: &String) -> (out: Option<usize>)
        requires
            self.wf(),
        ensures
            out is Some <==> self@.contains_key(sender_id@),
            out matches Some(i) ==> i < self.records@.len() && self.records@[i as int].sender_id@
                == sender_id@ && self@[sender_id@] == self.records@[i as int].key@,
    {
        let mut i: usize = 0;
        while i < self.records.len()
            invariant
                self.wf(),
                i <= self.records@.len(),
                forall|j: int| 0 <= j < i
                    ==> (#[trigger] self.records@[j]).sender_id@ != sender_id@,
            decreases self.records@.len() - i,
        {
            if self.records[i].sender_id == *sender_id {
                proof {
                    self.lemma_record(i as int);
                }
                return Some(i);
            }
            i += 1;
        }
        None
    }

    /// The key pinned to `sender_id`, if any.
    pub fn pinned_key(&self, sender_id: &str) -> (out: Option<Vec<u8>>)
        requires
            self.wf(),
        ensures
            out is Some <==> self@.contains_key(sender_id@),
            out matches Some(k) ==> k@ == self@[sender_id@],
    {
        let owned = sender_id.to_owned();
        match self.find(&owned) {
            Some(i) => Some(copy_bytes(self.records[i].key.as_slice())),
            None => None,
        }
    }

    /// Whether `candidate` is acceptable for `sender_id`. The registry stays as it is.
    pub fn admits(&self, sender_id: &str, candidate: &[u8]) -> (out: bool)
        requires
            self.wf(),
        ensures
            out == pin_admits(self@, sender_id@, candidate@),
    {
        let owned = sender_id.to_owned();
        match self.find(&owned) {
            Some(i) => bytes_equal(self.records[i].key.as_slice(), candidate),
            None => true,
        }
    }

    /// Forgets the key pinned to `sender_id`, so that the sender can be pinned anew.
    pub fn unpin(&mut self, sender_id: &str) -> (out: bool)
        requires
            old(self).wf(),
        ensures
            final(self).wf(),
            out == old(self)@.contains_key(sender_id@),
            final(self)@ == old(self)@.remove(sender_id@),
    {
        let owned = sender_id.to_owned();
        match self.find(&owned) {
            Some(i) => {
                let _ = self.records.remove(i);
                proof {
                    let before = old(self).records@;
                    let after = self.records@;
                    assert forall|a: int, b: int| 0 <= a < b < after.len() implies (
                    #[trigger] after[a]).sender_id@ != (#[trigger] after[b]).sender_id@ by {
                        let oa = if a < i { a } else { a + 1 };
                        let ob = if b < i { b } else { b + 1 };
                        assert(after[a] == before[oa]);
                        assert(after[b] == before[ob]);
                        assert(before[oa].sender_id@ != before[ob].sender_id@);
                    }
                    assert forall|s: Seq<char>| #[trigger]
                        self@.contains_key(s) == old(self)@.remove(sender_id@).contains_key(
                            s,
                        ) && (self@.contains_key(s) ==> self@[s] == old(self)@[s]) by {
                        if self@.contains_key(s) {
                            let p = self.position(s);
                            let op = if p < i { p } else { p + 1 };
                            assert(after[p] == before[op]);
                            self.lemma_record(p);
                            old(self).lemma_record(op);
                            if op < i {
                                assert(before[op].sender_id@ != before[i as int].sender_id@);
                            } else {
                                assert(before[i as int].sender_id@ != before[op].sender_id@);
                            }
                        }
                        if old(self)@.remove(sender_id@).contains_key(s) {
                            let op = old(self).position(s);
                            assert(op != i);
                            let p = if op < i { op } else { op - 1 };
                            assert(after[p] == before[op]);
                            assert(after[p].sender_id@ == s);
                        }
                    }
                    assert(self@ =~= old(self)@.remove(sender_id@));
                }
                true
            },
            None => {
                proof {
                    assert(self@ =~= old(self)@.remove(sender_id@));
                }
                false
            },
        }
    }

    /// Pins `key` to a sender who has no record yet.
    fn pin(&mut self, sender_id: String, key: &[u8])
        requires
            old(self).wf(),
            !old(self)@.contains_key(sender_id@),
        ensures
            final(self).wf(),
            final(self)@ == old(self)@.insert(sender_id@, key@),
    {
        let ghost sender = sender_id@;
        let record = EphemeralKeyRecord { sender_id, key: copy_bytes(key) };
        self.records.push(record);
        proof {
            let before = old(self).records@;
            let after = self.records@;
            let last = after.len() - 1;
            assert forall|a: int, b: int| 0 <= a < b < after.len() implies (
            #[trigger] after[a]).sender_id@ != (#[trigger] after[b]).sender_id@ by {
                assert(after[a] == before[a]);
                if b < last {
                    assert(after[b] == before[b]);
                    assert(before[a].sender_id@ != before[b].sender_id@);
                } else {
                    if before[a].sender_id@ == sender {
                        old(self).lemma_record(a);
                    }
                }
            }
            self.lemma_record(last);
            assert forall|s: Seq<char>| #[trigger]
                self@.contains_key(s) == old(self)@.insert(sender, key@).contains_key(s) && (
                self@.contains_key(s) ==> self@[s] == old(self)@.insert(sender, key@)[s]) by {
                if s != sender {
                    if self@.contains_key(s) {
                        let p = self.position(s);
                        assert(p != last);
                        assert(after[p] == before[p]);
                        self.lemma_record(p);
                        old(self).lemma_record(p);
                    }
                    if old(self)@.contains_key(s) {
                        let p = old(self).position(s);
                        assert(after[p] == before[p]);
                        assert(after[p].sender_id@ == s);
                    }
                }
            }
            assert(self@ =~= old(self)@.insert(sender, key@));
        }
    }
}

/// Checks the ephemeral key of a message against the registry, and pins it
/// where the sender is seen for the first time. A sender who is pinned to
/// another key is refused, and the registry stays as it was.
pub fn verify_and_pin_ephemeral_key(
    store: &mut EphemeralKeyStore,
    sender_id: &str,
    ephemeral_pk: &[u8],
) -> (out: Result<(), RatchetError>)
    requires
        old(store).wf(),
    ensures
        final(store).wf(),
        pin_admits(old(store)@, sender_id@, ephemeral_pk@) ==> out == Ok::<(), RatchetError>(())
            && final(store)@ == pins_after(old(store)@, sender_id@, ephemeral_pk@),
        !pin_admits(old(store)@, sender_id@, ephemeral_pk@) ==> out == Err::<(), RatchetError>(
            RatchetError::EphemeralKeyMismatch,
        ) && final(store)@ == old(store)@,
{
    let owned = sender_id.to_owned();
    match store.find(&owned) {
        Some(i) => {
            if bytes_equal(store.records[i].key.as_slice(), ephemeral_pk) {
                Ok(())
            } else {
                Err(RatchetError::EphemeralKeyMismatch)
            }
        },
        None => {
            store.pin(owned, ephemeral_pk);
            Ok(())
        },
    }
}

/// A key that was pinned stays pinned: once a sender was accepted with one
/// key, any other key from the same sender is refused, whatever else the
/// registry has seen in between.
pub proof fn law_pinned_key_is_kept(pins: PinView, sender: Seq<char>, first: Seq<u8>,
    second: Seq<u8>)
    requires
        pin_admits(pins, sender, first),
        second != first,
    ensures
        !pin_admits(pins_after(pins, sender, first), sender, second),
        pin_admits(pins_after(pins, sender, first), sender, first),
{
}

} // verus!
