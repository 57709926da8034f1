//! The agent protocol messages that the handler reads and writes.

use vstd::prelude::*;

verus! {

/// One entry of an identity listing: the public key in wire form and its label.
#[derive(Clone, Debug, PartialEq, Eq)]
pub struct WireIdentity {
    pub pubkey_blob: Vec<u8>,
    pub comment: String,
}

/// What a `WireIdentity` holds.
pub struct WireIdentityView {
    pub pubkey_blob: Seq<u8>,
    pub comment: Seq<char>,
}

impl View for WireIdentity {
    type V = WireIdentityView;

    open spec fn view(&self) -> WireIdentityView {
        WireIdentityView { pubkey_blob: self.pubkey_blob@, comment: self.comment@ }
    }
}

/// A request to sign `data` with the key whose public half is `pubkey_blob`.
#[derive(Clone, Debug, PartialEq, Eq)]
pub struct SignRequest {
    pub pubkey_blob: Vec<u8>,
    pub data: Vec<u8>,
    pub flags: u32,
}

/// What a `SignRequest` holds.
pub struct SignRequestView {
    pub pubkey_blob: Seq<u8>,
    pub data: Seq<u8>,
    pub flags: u32,
}

impl View for SignRequest {
    type V = SignRequestView;

    open spec fn view(&self) -> SignRequestView {
        SignRequestView { pubkey_blob: self.pubkey_blob@, data: self.data@, flags: self.flags }
    }
}

/// A signature as the wire carries it: the algorithm's name and the blob.
#[derive(Clone, Debug, PartialEq, Eq)]
pub struct Signature {
    pub algorithm: String,
    pub blob: Vec<u8>,
}

/// What a `Signature` holds.
pub struct SignatureView {
    pub algorithm: Seq<char>,
    pub blob: Seq<u8>,
}

impl View for Signature {
    type V = SignatureView;

    open spec fn view(&self) -> SignatureView {
        SignatureView { algorithm: self.algorithm@, blob: self.blob@ }
    }
}

/// A protocol message. `Other` stands for every kind that the agent does not
/// serve.
#[derive(Clone, Debug, PartialEq, Eq)]
pub enum Message {
    Failure,
    Success,
    RequestIdentities,
    IdentitiesAnswer(Vec<WireIdentity>),
    SignRequest(SignRequest),
    SignResponse(Vec<u8>),
    Other,
}

/// What a `Message` holds.
pub enum MessageView {
    Failure,
    Success,
    RequestIdentities,
    IdentitiesAnswer(Seq<WireIdentityView>),
    SignRequest(SignRequestView),
    SignResponse(Seq<u8>),
    Other,
}

/// The views of a list of wire identities.
pub open spec fn wire_identity_views(entries: Seq<WireIdentity>) -> Seq<WireIdentityView> {
    Seq::new(entries.len(), |i: int| entries[i]@)
}

impl View for Message {
    type V = MessageView;

    open spec fn view(&self) -> MessageView {
        match self {
            Message::Failure => MessageView::Failure,
            Message::Success => MessageView::Success,
            Message::RequestIdentities => MessageView::RequestIdentities,
            Message::IdentitiesAnswer(entries) => MessageView::IdentitiesAnswer(
                wire_identity_views(entries@),
            ),
            Message::SignRequest(request) => MessageView::SignRequest(request@),
            Message::SignResponse(blob) => MessageView::SignResponse(blob@),
            Message::Other => MessageView::Other,
        }
    }
}

} // verus!
