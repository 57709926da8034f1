//! Hardware keys and the identities that the agent offers for them.

use vstd::prelude::*;

verus! {

/// The name of the one supported curve.
pub open spec fn curve_name() -> Seq<char> {
    "nistp256"@
}

/// The name of the one supported curve.
pub fn curve_identifier() -> (name: String)
    ensures
        name@ == curve_name(),
{
    "nistp256".to_owned()
}

/// A key pair as the hardware keystore reports it: a label and the
/// uncompressed public point.
#[derive(Clone, Debug, PartialEq, Eq)]
pub struct HardwareKey {
    pub label: String,
    pub key: Vec<u8>,
}

/// What a `HardwareKey` holds.
pub struct HardwareKeyView {
    pub label: Seq<char>,
    pub key: Seq<u8>,
}

impl View for HardwareKey {
    type V = HardwareKeyView;

    open spec fn view(&self) -> HardwareKeyView {
        HardwareKeyView { label: self.label@, key: self.key@ }
    }
}

/// A public key by algorithm. Only elliptic-curve keys carry their material:
/// the agent serves no other kind.
#[derive(Clone, Debug, PartialEq, Eq)]
pub enum PublicKeyDescriptor {
    EcDsa { curve_identifier: String, point: Vec<u8> },
    Dss,
    Ed25519,
    Rsa,
}

/// What a `PublicKeyDescriptor` holds.
pub enum PublicKeyView {
    EcDsa { curve_identifier: Seq<char>, point: Seq<u8> },
    Dss,
    Ed25519,
    Rsa,
}

impl View for PublicKeyDescriptor {
    type V = PublicKeyView;

    open spec fn view(&self) -> PublicKeyView {
        match self {
            PublicKeyDescriptor::EcDsa { curve_identifier, point } => PublicKeyView::EcDsa {
                curve_identifier: curve_identifier@,
                point: point@,
            },
            PublicKeyDescriptor::Dss => PublicKeyView::Dss,
            PublicKeyDescriptor::Ed25519 => PublicKeyView::Ed25519,
            PublicKeyDescriptor::Rsa => PublicKeyView::Rsa,
        }
    }
}

/// A public key offered by the agent, with its human-readable label.
#[derive(Clone, Debug, PartialEq, Eq)]
pub struct Identity {
    pub public_key: PublicKeyDescriptor,
    pub comment: String,
}

/// What an `Identity` holds.
pub struct IdentityView {
    pub public_key: PublicKeyView,
    pub comment: Seq<char>,
}

impl View for Identity {
    type V = IdentityView;

    open spec fn view(&self) -> IdentityView {
        IdentityView { public_key: self.public_key@, comment: self.comment@ }
    }
}

/// The identity offered for one hardware key: an elliptic-curve key on the
/// supported curve with the key's point, labelled as the hardware labels it.
pub open spec fn identity_of(key: HardwareKeyView) -> IdentityView {
    IdentityView {
        public_key: PublicKeyView::EcDsa { curve_identifier: curve_name(), point: key.key },
        comment: key.label,
    }
}

/// The views of a list of hardware keys.
pub open spec fn key_views(keys: Seq<HardwareKey>) -> Seq<HardwareKeyView> {
    Seq::new(keys.len(), |i: int| keys[i]@)
}

/// The identities offered for a list of hardware keys, in the same order.
pub open spec fn identities_of(keys: Seq<HardwareKeyView>) -> Seq<IdentityView> {
    Seq::new(keys.len(), |i: int| identity_of(keys[i]))
}

/// The views of a list of identities.
pub open spec fn identity_views(identities: Seq<Identity>) -> Seq<IdentityView> {
    Seq::new(identities.len(), |i: int| identities[i]@)
}

/// There is one identity per key, in the keystore's order: each carries the
/// key's label as its comment and the key's bytes as its point, on the
/// supported curve. No keys give no identities.
pub proof fn lemma_identities_follow_keys(keys: Seq<HardwareKeyView>)
    ensures
        identities_of(keys).len() == keys.len(),
        keys.len() == 0 ==> identities_of(keys) == Seq::<IdentityView>::empty(),
        forall|i: int|
            0 <= i < keys.len() ==> (#[trigger] identities_of(keys)[i]).comment == keys[i].label
                && identities_of(keys)[i].public_key == (PublicKeyView::EcDsa {
                curve_identifier: curve_name(),
                point: keys[i].key,
            }),
{
    if keys.len() == 0 {
        assert(identities_of(keys) =~= Seq::<IdentityView>::empty());
    }
}

/// Copies a run of bytes.
pub fn copy_bytes(bytes: &[u8]) -> (copy: Vec<u8>)
    ensures
        copy@ == bytes@,
{
    let mut copy: Vec<u8> = Vec::new();
    let mut i: usize = 0;
    while i < bytes.len()
        invariant
            i <= bytes.len(),
            copy@ == bytes@.subrange(0, i as int),
        decreases bytes.len() - i,
    {
        copy.push(bytes[i]);
        i = i + 1;
        assert(copy@ =~= bytes@.subrange(0, i as int));
    }
    assert(bytes@.subrange(0, bytes@.len() as int) =~= bytes@);
    copy
}

/// Builds one identity per hardware key, in the keystore's order. An empty
/// key set gives an empty list.
pub fn identities_from_keys(keys: &[HardwareKey]) -> (identities: Vec<Identity>)
    ensures
        identities@.len() == keys@.len(),
        identity_views(identities@) == identities_of(key_views(keys@)),
{
    let mut identities: Vec<Identity> = Vec::new();
    let mut i: usize = 0;
    while i < keys.len()
        invariant
            i <= keys.len(),
            identities@.len() == i,
            forall|j: int| 0 <= j < i ==> (#[trigger] identities@[j])@ == identity_of(keys@[j]@),
        decreases keys.len() - i,
    {
        let key = &keys[i];
        let identity = Identity {
            public_key: PublicKeyDescriptor::EcDsa {
                curve_identifier: curve_identifier(),
                point: copy_bytes(key.key.as_slice()),
            },
            comment: key.label.clone(),
        };
        identities.push(identity);
        i = i + 1;
    }
    assert(identity_views(identities@) =~= identities_of(key_views(keys@)));
    identities
}

} // verus!
