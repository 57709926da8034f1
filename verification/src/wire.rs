//! The SSH wire codec and the digest, as the `ssh-agent` and `sha1` crates
//! provide them. Nothing in this file is proved: each contract states what the
//! library takes on trust from the crate it calls.

use vstd::prelude::*;
use crate::keys::{PublicKeyDescriptor, PublicKeyView};
use crate::message::Signature;

verus! {

/// The error of the `ssh-agent` codec. Its content is not inspected.
#[verifier::external_type_specification]
#[verifier::external_body]
pub struct ExProtoError(ssh_agent::proto::error::ProtoError);

/// The SHA-1 digest of `data`.
pub uninterp spec fn sha1_digest(data: Seq<u8>) -> Seq<u8>;

/// The public key that `blob` holds in SSH wire form, if it holds one.
pub uninterp spec fn decoded_public_key(blob: Seq<u8>) -> Option<PublicKeyView>;

/// The SSH wire form of an elliptic-curve public key, if it has one.
pub uninterp spec fn encoded_ecdsa_public_key(curve: Seq<char>, point: Seq<u8>) -> Option<Seq<u8>>;

/// The signature blob that carries the two magnitudes `r` and `s`.
pub uninterp spec fn ecdsa_signature_blob(r: Seq<u8>, s: Seq<u8>) -> Seq<u8>;

/// The SSH wire form of a signature, if it has one.
pub uninterp spec fn encoded_signature(algorithm: Seq<char>, blob: Seq<u8>) -> Option<Seq<u8>>;

/// Calls `sha1::Sha1::from`, `digest` and `bytes`. Trusted: the result is the
/// SHA-1 digest of `data`, a function of the bytes alone, and is 20 bytes long.
#[verifier::external_body]
pub(crate) fn sha1_of(data: &[u8]) -> (digest: Vec<u8>)
    ensures
        digest@ == sha1_digest(data@),
        digest@.len() == 20,
{
    sha1::Sha1::from(data).digest().bytes().to_vec()
}

/// Calls `ssh_agent::proto::from_bytes` for a `PublicKey`. Trusted: whether
/// the blob decodes, and to which key, depends on the bytes alone. Of a key
/// that is not elliptic-curve only the algorithm is kept.
#[verifier::external_body]
pub(crate) fn public_key_from_blob(blob: &[u8]) -> (r: Result<
    PublicKeyDescriptor,
    ssh_agent::proto::error::ProtoError,
>)
    ensures
        match decoded_public_key(blob@) {
            Some(key) => r matches Ok(found) && found@ == key,
            None => r is Err,
        },
{
    let key: ssh_agent::proto::public_key::PublicKey = ssh_agent::proto::from_bytes(blob)?;
    Ok(
        match key {
            ssh_agent::proto::public_key::PublicKey::EcDsa(k) => PublicKeyDescriptor::EcDsa {
                curve_identifier: k.identifier,
                point: k.q,
            },
            ssh_agent::proto::public_key::PublicKey::Dss(_) => PublicKeyDescriptor::Dss,
            ssh_agent::proto::public_key::PublicKey::Ed25519(_) => PublicKeyDescriptor::Ed25519,
            ssh_agent::proto::public_key::PublicKey::Rsa(_) => PublicKeyDescriptor::Rsa,
        },
    )
}

/// Calls `ssh_agent::proto::to_bytes` on an elliptic-curve `PublicKey`.
/// Trusted: whether the key encodes, and to which bytes, depends on the curve
/// name and the point alone.
#[verifier::external_body]
pub(crate) fn ecdsa_public_key_to_blob(curve: &str, point: &[u8]) -> (r: Result<
    Vec<u8>,
    ssh_agent::proto::error::ProtoError,
>)
    ensures
        match encoded_ecdsa_public_key(curve@, point@) {
            Some(blob) => r matches Ok(found) && found@ == blob,
            None => r is Err,
        },
{
    ssh_agent::proto::to_bytes(
        &ssh_agent::proto::public_key::PublicKey::EcDsa(
            ssh_agent::proto::public_key::EcDsaPublicKey {
                identifier: curve.to_string(),
                q: point.to_vec(),
            },
        ),
    )
}

/// Calls `ssh_agent::proto::signature::Signature::from` on an
/// `EcDsaSignature`. Trusted: the algorithm is `ecdsa-sha2-` followed by the
/// curve name, and the blob depends on the two magnitudes alone.
#[verifier::external_body]
pub(crate) fn ecdsa_signature(identifier: &str, r: &[u8], s: &[u8]) -> (signature: Signature)
    ensures
        signature.algorithm@ == "ecdsa-sha2-"@ + identifier@,
        signature.blob@ == ecdsa_signature_blob(r@, s@),
{
    let made = ssh_agent::proto::signature::Signature::from(
        ssh_agent::proto::signature::EcDsaSignature {
            identifier: identifier.to_string(),
            data: ssh_agent::proto::signature::EcDsaSignatureData { r: r.to_vec(), s: s.to_vec() },
        },
    );
    Signature { algorithm: made.algorithm, blob: made.blob }
}

/// Calls `ssh_agent::proto::to_bytes` on a `Signature`. Trusted: whether the
/// signature encodes, and to which bytes, depends on its two fields alone.
#[verifier::external_body]
pub(crate) fn signature_to_blob(signature: &Signature) -> (r: Result<
    Vec<u8>,
    ssh_agent::proto::error::ProtoError,
>)
    ensures
        match encoded_signature(signature.algorithm@, signature.blob@) {
            Some(blob) => r matches Ok(found) && found@ == blob,
            None => r is Err,
        },
{
    ssh_agent::proto::to_bytes(
        &ssh_agent::proto::signature::Signature {
            algorithm: signature.algorithm.clone(),
            blob: signature.blob.clone(),
        },
    )
}

} // verus!
