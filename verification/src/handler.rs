//! The request handler: one message in, one message out, no state between.

use vstd::prelude::*;
use crate::der::{be_bytes, decode_der_signature, signature_of};
use crate::error::AgentError;
use crate::keys::{
    curve_identifier, curve_name, identities_from_keys, identities_of, identity_views, key_views,
    HardwareKeyView, Identity, IdentityView, PublicKeyDescriptor, PublicKeyView,
};
use crate::keystore::{outcome_view, FixedKeystore, Keystore, KeystoreError};
use crate::message::{
    Message, MessageView, SignRequest, SignRequestView, Signature, SignatureView, WireIdentity,
    WireIdentityView,
};
use crate::wire::{
    decoded_public_key, ecdsa_public_key_to_blob, ecdsa_signature, ecdsa_signature_blob,
    encoded_ecdsa_public_key, encoded_signature, public_key_from_blob, sha1_digest, sha1_of,
    signature_to_blob,
};

verus! {

/// What is handed to the keystore to have a request signed.
#[derive(Clone, Debug, PartialEq, Eq)]
pub struct SigningJob {
    pub payload: Vec<u8>,
    pub key_selector: Vec<u8>,
}

/// What a `SigningJob` holds.
pub struct SigningJobView {
    pub payload: Seq<u8>,
    pub key_selector: Seq<u8>,
}

impl View for SigningJob {
    type V = SigningJobView;

    open spec fn view(&self) -> SigningJobView {
        SigningJobView { payload: self.payload@, key_selector: self.key_selector@ }
    }
}

/// The wire form of a public key. Only elliptic-curve keys have one here.
pub open spec fn public_key_blob(key: PublicKeyView) -> Option<Seq<u8>> {
    match key {
        PublicKeyView::EcDsa { curve_identifier, point } => encoded_ecdsa_public_key(
            curve_identifier,
            point,
        ),
        _ => None,
    }
}

/// The answer to an identity listing: every identity with its key in wire
/// form, in the same order; a codec failure if one key has no wire form.
pub open spec fn identities_answer_of(identities: Seq<IdentityView>) -> Result<
    MessageView,
    AgentError,
> {
    if forall|i: int|
        0 <= i < identities.len() ==> public_key_blob(
            (#[trigger] identities[i]).public_key,
        ) is Some {
        Ok(
            MessageView::IdentitiesAnswer(
                Seq::new(
                    identities.len(),
                    |i: int|
                        WireIdentityView {
                            pubkey_blob: public_key_blob(identities[i].public_key)->0,
                            comment: identities[i].comment,
                        },
                ),
            ),
        )
    } else {
        Err(AgentError::CodecFailure)
    }
}

/// What a signing request asks of the keystore: the request's data as the
/// payload, and the SHA-1 digest of the public point as the key selector. A
/// blob that does not decode is a codec failure; a key that is not
/// elliptic-curve is unsupported.
pub open spec fn signing_job_of(request: SignRequestView) -> Result<SigningJobView, AgentError> {
    match decoded_public_key(request.pubkey_blob) {
        None => Err(AgentError::CodecFailure),
        Some(PublicKeyView::EcDsa { curve_identifier, point }) => Ok(
            SigningJobView { payload: request.data, key_selector: sha1_digest(point) },
        ),
        Some(_) => Err(AgentError::UnsupportedKeyType),
    }
}

/// The wire signature made from a DER signature of the keystore.
pub open spec fn signature_of_der(der: Seq<u8>) -> Result<SignatureView, AgentError> {
    match signature_of(der) {
        None => Err(AgentError::MalformedSignature),
        Some((r, s)) => Ok(
            SignatureView {
                algorithm: "ecdsa-sha2-"@ + curve_name(),
                blob: ecdsa_signature_blob(be_bytes(r), be_bytes(s)),
            },
        ),
    }
}

/// The wire signature made from what the keystore returned.
pub open spec fn signature_of_outcome(outcome: Result<Seq<u8>, KeystoreError>) -> Result<
    SignatureView,
    AgentError,
> {
    match outcome {
        Err(_) => Err(AgentError::KeystoreFailure),
        Ok(der) => signature_of_der(der),
    }
}

/// The response that carries a signature.
pub open spec fn sign_response_of(signature: SignatureView) -> Result<MessageView, AgentError> {
    match encoded_signature(signature.algorithm, signature.blob) {
        None => Err(AgentError::CodecFailure),
        Some(blob) => Ok(MessageView::SignResponse(blob)),
    }
}

/// The reply to a signing request, given what the keystore returned.
pub open spec fn sign_reply_of(outcome: Result<Seq<u8>, KeystoreError>) -> Result<
    MessageView,
    AgentError,
> {
    match signature_of_outcome(outcome) {
        Err(e) => Err(e),
        Ok(signature) => sign_response_of(signature),
    }
}

/// The single message that goes back on the wire: the reply itself, or the
/// one failure message whatever went wrong.
pub open spec fn collapse_of(reply: Result<MessageView, AgentError>) -> MessageView {
    match reply {
        Ok(message) => message,
        Err(_) => MessageView::Failure,
    }
}

/// The view of a signing result.
pub open spec fn signature_result_view(r: Result<Signature, AgentError>) -> Result<
    SignatureView,
    AgentError,
> {
    match r {
        Ok(signature) => Ok(signature@),
        Err(e) => Err(e),
    }
}

/// The view of a reply.
pub open spec fn reply_view(r: Result<Message, AgentError>) -> Result<MessageView, AgentError> {
    match r {
        Ok(message) => Ok(message@),
        Err(e) => Err(e),
    }
}

/// Whether `reply` is a reply of the handler to `request` over `keystore`:
/// for an identity listing, the answer for a key set that the keystore may
/// report; for a signing request, the error of the request itself, or the
/// reply for an outcome that the keystore may give when it is handed the
/// request's data and the digest of the requested key; for anything else, the
/// error that the message is not supported.
pub open spec fn handled<K: Keystore>(
    keystore: &K,
    request: MessageView,
    reply: Result<MessageView, AgentError>,
) -> bool {
    match request {
        MessageView::RequestIdentities => exists|keys: Seq<HardwareKeyView>|
            #[trigger] keystore.lists(keys) && reply == identities_answer_of(identities_of(keys)),
        MessageView::SignRequest(sign_request) => match signing_job_of(sign_request) {
            Err(e) => reply == Err::<MessageView, AgentError>(e),
            Ok(job) => exists|outcome: Result<Seq<u8>, KeystoreError>|
                #[trigger] keystore.signs(job.payload, job.key_selector, outcome) && reply
                    == sign_reply_of(outcome),
        },
        _ => reply == Err::<MessageView, AgentError>(AgentError::UnsupportedMessage),
    }
}

/// A request that is neither an identity listing nor a signing request is
/// not supported, and what goes on the wire for it is the failure message.
pub proof fn lemma_other_messages_fail<K: Keystore>(
    keystore: &K,
    request: MessageView,
    reply: Result<MessageView, AgentError>,
)
    requires
        handled(keystore, request, reply),
        !(request is RequestIdentities),
        !(request is SignRequest),
    ensures
        reply == Err::<MessageView, AgentError>(AgentError::UnsupportedMessage),
        collapse_of(reply) == MessageView::Failure,
{
}

/// A signing request whose key blob does not decode is a codec failure, one
/// whose key is not elliptic-curve is unsupported, and what goes on the wire
/// for either is the failure message.
pub proof fn lemma_unusable_key_fails<K: Keystore>(
    keystore: &K,
    request: SignRequestView,
    reply: Result<MessageView, AgentError>,
)
    requires
        handled(keystore, MessageView::SignRequest(request), reply),
        !(decoded_public_key(request.pubkey_blob) matches Some(PublicKeyView::EcDsa { .. })),
    ensures
        decoded_public_key(request.pubkey_blob) is None ==> reply == Err::<
            MessageView,
            AgentError,
        >(AgentError::CodecFailure),
        decoded_public_key(request.pubkey_blob) is Some ==> reply == Err::<
            MessageView,
            AgentError,
        >(AgentError::UnsupportedKeyType),
        collapse_of(reply) == MessageView::Failure,
{
}

/// What goes on the wire is the answer that the request asked for or the
/// failure message, nothing else.
pub proof fn lemma_reply_shape<K: Keystore>(
    keystore: &K,
    request: MessageView,
    reply: Result<MessageView, AgentError>,
)
    requires
        handled(keystore, request, reply),
    ensures
        collapse_of(reply) is Failure || (request is RequestIdentities && collapse_of(reply)
            is IdentitiesAnswer) || (request is SignRequest && collapse_of(reply) is SignResponse),
{
}

/// Over a fixed keystore every request has one reply: the answer for the
/// keystore's keys, the reply for the keystore's one outcome, or the error of
/// the request.
pub proof fn lemma_fixed_keystore_reply(
    keystore: &FixedKeystore,
    request: MessageView,
    reply: Result<MessageView, AgentError>,
)
    requires
        handled(keystore, request, reply),
    ensures
        reply == match request {
            MessageView::RequestIdentities => identities_answer_of(
                identities_of(key_views(keystore.keys@)),
            ),
            MessageView::SignRequest(sign_request) => match signing_job_of(sign_request) {
                Err(e) => Err(e),
                Ok(_) => sign_reply_of(outcome_view(keystore.signature)),
            },
            _ => Err(AgentError::UnsupportedMessage),
        },
{
}

/// No keys give the empty answer, not a failure.
pub proof fn lemma_no_identities_answer()
    ensures
        identities_answer_of(Seq::<IdentityView>::empty()) == Ok::<MessageView, AgentError>(
            MessageView::IdentitiesAnswer(Seq::<WireIdentityView>::empty()),
        ),
{
    let answer = identities_answer_of(Seq::<IdentityView>::empty());
    assert(answer is Ok);
    assert(answer->Ok_0->IdentitiesAnswer_0 =~= Seq::<WireIdentityView>::empty());
}

/// Puts a public key in wire form.
pub fn encode_public_key(key: &PublicKeyDescriptor) -> (r: Result<Vec<u8>, AgentError>)
    ensures
        match public_key_blob(key@) {
            Some(blob) => r matches Ok(found) && found@ == blob,
            None => r == Err::<Vec<u8>, AgentError>(AgentError::CodecFailure),
        },
{
    match key {
        PublicKeyDescriptor::EcDsa { curve_identifier, point } => {
            match ecdsa_public_key_to_blob(curve_identifier.as_str(), point.as_slice()) {
                Ok(blob) => Ok(blob),
                Err(_) => Err(AgentError::CodecFailure),
            }
        },
        _ => Err(AgentError::CodecFailure),
    }
}

/// Takes a public key out of wire form.
pub fn decode_public_key(blob: &[u8]) -> (r: Result<PublicKeyDescriptor, AgentError>)
    ensures
        match decoded_public_key(blob@) {
            Some(key) => r matches Ok(found) && found@ == key,
            None => r == Err::<PublicKeyDescriptor, AgentError>(AgentError::CodecFailure),
        },
{
    match public_key_from_blob(blob) {
        Ok(key) => Ok(key),
        Err(_) => Err(AgentError::CodecFailure),
    }
}

/// The token by which the keystore finds a key: the SHA-1 digest of its
/// public point. It is a lookup aid, not a digest of what is signed.
pub fn key_selector(point: &[u8]) -> (selector: Vec<u8>)
    ensures
        selector@ == sha1_digest(point@),
        selector@.len() == 20,
{
    sha1_of(point)
}

/// Builds the answer to an identity listing.
pub fn identities_answer(identities: &[Identity]) -> (r: Result<Message, AgentError>)
    ensures
        reply_view(r) == identities_answer_of(identity_views(identities@)),
{
    let ghost views = identity_views(identities@);
    let mut entries: Vec<WireIdentity> = Vec::new();
    let mut i: usize = 0;
    while i < identities.len()
        invariant
            i <= identities.len(),
            views == identity_views(identities@),
            entries@.len() == i,
            forall|j: int|
                0 <= j < i ==> public_key_blob((#[trigger] views[j]).public_key) is Some,
            forall|j: int|
                0 <= j < i ==> (#[trigger] entries@[j])@ == (WireIdentityView {
                    pubkey_blob: public_key_blob(views[j].public_key)->0,
                    comment: views[j].comment,
                }),
        decreases identities.len() - i,
    {
        let identity = &identities[i];
        assert(views[i as int] == identity@);
        let pubkey_blob = match encode_public_key(&identity.public_key) {
            Ok(blob) => blob,
            Err(e) => {
                return Err(e);
            },
        };
        entries.push(WireIdentity { pubkey_blob, comment: identity.comment.clone() });
        i = i + 1;
    }
    let answer = Message::IdentitiesAnswer(entries);
    assert(answer@ == identities_answer_of(views)->Ok_0) by {
        assert(crate::message::wire_identity_views(entries@) =~= Seq::new(
            views.len(),
            |i: int|
                WireIdentityView {
                    pubkey_blob: public_key_blob(views[i].public_key)->0,
                    comment: views[i].comment,
                },
        ));
    }
    Ok(answer)
}

/// Works out what to ask of the keystore for a signing request.
pub fn signing_job(request: &SignRequest) -> (r: Result<SigningJob, AgentError>)
    ensures
        match signing_job_of(request@) {
            Ok(job) => r matches Ok(found) && found@ == job,
            Err(e) => r == Err::<SigningJob, AgentError>(e),
        },
{
    match decode_public_key(request.pubkey_blob.as_slice()) {
        Err(e) => Err(e),
        Ok(PublicKeyDescriptor::EcDsa { curve_identifier, point }) => Ok(
            SigningJob {
                payload: crate::keys::copy_bytes(request.data.as_slice()),
                key_selector: key_selector(point.as_slice()),
            },
        ),
        Ok(_) => Err(AgentError::UnsupportedKeyType),
    }
}

/// Turns the keystore's DER signature into the wire signature.
pub fn signature_from_der(der: &[u8]) -> (r: Result<Signature, AgentError>)
    ensures
        signature_result_view(r) == signature_of_der(der@),
{
    match decode_der_signature(der) {
        Err(e) => Err(e),
        Ok(raw) => {
            let name = curve_identifier();
            Ok(ecdsa_signature(name.as_str(), raw.r.as_slice(), raw.s.as_slice()))
        },
    }
}

/// Turns what the keystore returned into the wire signature.
pub fn signature_from_outcome(outcome: Result<Vec<u8>, KeystoreError>) -> (r: Result<
    Signature,
    AgentError,
>)
    ensures
        signature_result_view(r) == signature_of_outcome(outcome_view(outcome)),
{
    match outcome {
        Err(_) => Err(AgentError::KeystoreFailure),
        Ok(der) => signature_from_der(der.as_slice()),
    }
}

/// Wraps a signature into the response message.
pub fn sign_response(signature: &Signature) -> (r: Result<Message, AgentError>)
    ensures
        reply_view(r) == sign_response_of(signature@),
{
    match signature_to_blob(signature) {
        Ok(blob) => Ok(Message::SignResponse(blob)),
        Err(_) => Err(AgentError::CodecFailure),
    }
}

/// Collapses a reply into the message that goes on the wire. No detail of an
/// error survives.
pub fn collapse(reply: Result<Message, AgentError>) -> (message: Message)
    ensures
        message@ == collapse_of(reply_view(reply)),
{
    match reply {
        Ok(message) => message,
        Err(_) => Message::Failure,
    }
}

/// The agent: a request handler over a hardware keystore.
#[derive(Clone, Debug, PartialEq, Default)]
pub struct SeKey<K: Keystore> {
    pub keystore: K,
}

impl<K: Keystore> SeKey<K> {
    /// An agent over `keystore`.
    pub fn new(keystore: K) -> (agent: Self)
        ensures
            agent.keystore == keystore,
    {
        SeKey { keystore }
    }

    /// The identities for the keys that the keystore reports now.
    pub fn identities(&self) -> (identities: Vec<Identity>)
        ensures
            exists|keys: Seq<HardwareKeyView>|
                #[trigger] self.keystore.lists(keys) && identity_views(identities@)
                    == identities_of(keys),
    {
        let keys = self.keystore.list_keys();
        let identities = identities_from_keys(keys.as_slice());
        assert(self.keystore.lists(key_views(keys@)));
        identities
    }

    /// Has the keystore sign the request's data with the requested key: the
    /// keystore is handed the data and the digest of the key's point, and what
    /// it returns is turned into the wire signature.
    pub fn sign(&self, request: &SignRequest) -> (r: Result<Signature, AgentError>)
        ensures
            match signing_job_of(request@) {
                Err(e) => r == Err::<Signature, AgentError>(e),
                Ok(job) => exists|outcome: Result<Seq<u8>, KeystoreError>|
                    #[trigger] self.keystore.signs(job.payload, job.key_selector, outcome)
                        && signature_result_view(r) == signature_of_outcome(outcome),
            },
    {
        let job = match signing_job(request) {
            Err(e) => {
                return Err(e);
            },
            Ok(job) => job,
        };
        let outcome = self.keystore.sign(job.payload.as_slice(), job.key_selector.as_slice());
        let ghost seen = outcome_view(outcome);
        let r = signature_from_outcome(outcome);
        assert(self.keystore.signs(job@.payload, job@.key_selector, seen));
        r
    }

    /// Answers one request, or says why it cannot.
    pub fn handle_message(&self, request: Message) -> (r: Result<Message, AgentError>)
        ensures
            handled(&self.keystore, request@, reply_view(r)),
    {
        match request {
            Message::RequestIdentities => {
                let identities = self.identities();
                identities_answer(identities.as_slice())
            },
            Message::SignRequest(sign_request) => {
                let signed = self.sign(&sign_request);
                match signed {
                    Err(e) => Err(e),
                    Ok(signature) => sign_response(&signature),
                }
            },
            _ => Err(AgentError::UnsupportedMessage),
        }
    }

    /// Answers one request with exactly one message: the reply, or the
    /// failure message. A message that is neither an identity listing nor a
    /// signing request, and a signing request whose key does not decode or is
    /// not elliptic-curve, get the failure message.
    pub fn handle(&self, message: Message) -> (reply: Message)
        ensures
            exists|inner: Result<MessageView, AgentError>|
                #[trigger] handled(&self.keystore, message@, inner) && reply@ == collapse_of(
                    inner,
                ),
            !(message@ is RequestIdentities) && !(message@ is SignRequest) ==> reply@
                == MessageView::Failure,
            message@ matches MessageView::SignRequest(request) && signing_job_of(request) is Err
                ==> reply@ == MessageView::Failure,
    {
        let inner = self.handle_message(message);
        let ghost seen = reply_view(inner);
        let reply = collapse(inner);
        assert(handled(&self.keystore, message@, seen) && reply@ == collapse_of(seen));
        reply
    }
}

} // verus!
