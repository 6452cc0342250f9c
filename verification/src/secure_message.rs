//! Text messages: one envelope each, real or cover traffic.

use vstd::prelude::*;

use crate::crypto::enhanced_ratchet::EnhancedHybridRatchet;
use crate::crypto::envelope::RatchetMessage;
use crate::crypto::session_model::{
    after_resolution, bytes_view, decrypted_payload, followed, is_encryption, may_refuse,
    receipt_error, rekey_refused, sealing_error,
};
use crate::ephemeral_keys::{pins_after, EphemeralKeyStore};
use crate::errors::RatchetError;

verus! {

/// An encrypted text message.
pub struct SecureMsg {
    pub envelope: RatchetMessage,
}

impl SecureMsg {
    /// Encrypts a text message, or a piece of cover traffic where
    /// `is_dummy` is set, for the session's peer.
    pub fn encrypt(r: &mut EnhancedHybridRatchet, plaintext: &[u8], is_dummy: bool) -> (out: Result<
        SecureMsg,
        RatchetError,
    >)
        ensures
            sealing_error(old(r)@, plaintext@) matches Some(e) ==> out is Err && out->Err_0 == e,
            out matches Err(e) ==> final(r)@ == old(r)@ && may_refuse(old(r)@, plaintext@, e),
            sealing_error(old(r)@, plaintext@) is None && rekey_refused(old(r)@) ==> out is Err,
            out matches Ok(msg) ==> is_encryption(
                old(r)@,
                final(r)@,
                msg.envelope@,
                plaintext@,
                Seq::<u8>::empty(),
                is_dummy,
            ),
    {
        let empty: Vec<u8> = Vec::new();
        match r.encrypt_flagged(plaintext, empty.as_slice(), is_dummy) {
            Ok(envelope) => Ok(SecureMsg { envelope }),
            Err(e) => Err(e),
        }
    }

    /// Receives a text message from `sender_id`. Cover traffic yields
    /// `None`. A refusal leaves session and registry as they were.
    pub fn decrypt(
        r: &mut EnhancedHybridRatchet,
        msg: &SecureMsg,
        sender_id: &str,
        ephemeral_store: &mut EphemeralKeyStore,
    ) -> (out: Result<Option<Vec<u8>>, RatchetError>)
        requires
            old(ephemeral_store).wf(),
        ensures
            final(ephemeral_store).wf(),
            receipt_error(
                old(r)@,
                old(ephemeral_store)@,
                msg.envelope@,
                Seq::<u8>::empty(),
                sender_id@,
            ) matches Some(e) ==> out == Err::<Option<Vec<u8>>, RatchetError>(e) && final(r)@
                == old(r)@ && final(ephemeral_store)@ == old(ephemeral_store)@,
            receipt_error(
                old(r)@,
                old(ephemeral_store)@,
                msg.envelope@,
                Seq::<u8>::empty(),
                sender_id@,
            ) is None ==> final(r)@ == after_resolution(
                followed(old(r)@, msg.envelope@.header),
                msg.envelope@.header.message_number,
            ) && final(ephemeral_store)@ == pins_after(
                old(ephemeral_store)@,
                sender_id@,
                msg.envelope@.ephemeral_public_key,
            ) && (out matches Ok(payload) && bytes_view(payload) == decrypted_payload(
                followed(old(r)@, msg.envelope@.header),
                msg.envelope@,
                Seq::<u8>::empty(),
            )),
    {
        let empty: Vec<u8> = Vec::new();
        r.receive(&msg.envelope, empty.as_slice(), sender_id, ephemeral_store)
    }
}

} // verus!
