use std::cell::RefCell;
use std::sync::Mutex;

use sekey::error::AgentError;
use sekey::handler::{
    collapse, decode_public_key, encode_public_key, identities_answer, key_selector,
    sign_response, signature_from_der, signature_from_outcome, signing_job, SeKey, SigningJob,
};
use sekey::keystore::{FixedKeystore, Keystore, KeystoreError};
use sekey::keys::{HardwareKey, Identity, PublicKeyDescriptor};
use sekey::message::{Message, SignRequest, Signature, WireIdentity};

struct FakeKeystore {
    keys: Vec<HardwareKey>,
    signature: Result<Vec<u8>, KeystoreError>,
    asked: Mutex<RefCell<Vec<(Vec<u8>, Vec<u8>)>>>,
}

impl FakeKeystore {
    fn new(keys: Vec<HardwareKey>, signature: Result<Vec<u8>, KeystoreError>) -> Self {
        FakeKeystore { keys, signature, asked: Mutex::new(RefCell::new(Vec::new())) }
    }

    fn asked(&self) -> Vec<(Vec<u8>, Vec<u8>)> {
        self.asked.lock().unwrap().borrow().clone()
    }
}

impl Keystore for FakeKeystore {
    fn list_keys(&self) -> Vec<HardwareKey> {
        self.keys.clone()
    }

    fn sign(&self, payload: &[u8], key_selector: &[u8]) -> Result<Vec<u8>, KeystoreError> {
        self.asked.lock().unwrap().borrow_mut().push((payload.to_vec(), key_selector.to_vec()));
        self.signature.clone()
    }
}

fn ssh_string(bytes: &[u8]) -> Vec<u8> {
    let mut out = (bytes.len() as u32).to_be_bytes().to_vec();
    out.extend_from_slice(bytes);
    out
}

fn point() -> Vec<u8> {
    (1..=32).collect()
}

fn ecdsa_blob(curve: &str, point: &[u8]) -> Vec<u8> {
    let mut blob = ssh_string(format!("ecdsa-sha2-{}", curve).as_bytes());
    blob.extend_from_slice(&ssh_string(curve.as_bytes()));
    blob.extend_from_slice(&ssh_string(point));
    blob
}

fn rsa_blob() -> Vec<u8> {
    let mut blob = ssh_string(b"ssh-rsa");
    blob.extend_from_slice(&ssh_string(&[1, 0, 1]));
    blob.extend_from_slice(&ssh_string(&[0x00, 0xc1, 0x02]));
    blob
}

fn ed25519_blob() -> Vec<u8> {
    let mut blob = ssh_string(b"ssh-ed25519");
    blob.extend_from_slice(&ssh_string(&[7; 32]));
    blob
}

fn der_5_9() -> Vec<u8> {
    vec![0x30, 0x06, 0x02, 0x01, 0x05, 0x02, 0x01, 0x09]
}

fn signature_blob_5_9() -> Vec<u8> {
    let mut data = ssh_string(&[5]);
    data.extend_from_slice(&ssh_string(&[9]));
    let mut blob = ssh_string(b"ecdsa-sha2-nistp256");
    blob.extend_from_slice(&ssh_string(&data));
    blob
}

fn work_key() -> HardwareKey {
    HardwareKey { label: "work".to_string(), key: point() }
}

fn sign_request(blob: Vec<u8>) -> Message {
    Message::SignRequest(SignRequest { pubkey_blob: blob, data: vec![0xde, 0xad], flags: 0 })
}

const SHA1_ABC: [u8; 20] = [
    0xa9, 0x99, 0x3e, 0x36, 0x47, 0x06, 0x81, 0x6a, 0xba, 0x3e, 0x25, 0x71, 0x78, 0x50, 0xc2,
    0x6c, 0x9c, 0xd0, 0xd8, 0x9d,
];

#[test]
fn key_selector_is_the_sha1_digest() {
    assert_eq!(key_selector(b"abc"), SHA1_ABC.to_vec());
    assert_eq!(key_selector(b"").len(), 20);
}

#[test]
fn encodes_an_ecdsa_public_key() {
    let key = PublicKeyDescriptor::EcDsa { curve_identifier: "nistp256".to_string(), point: point() };
    assert_eq!(encode_public_key(&key), Ok(ecdsa_blob("nistp256", &point())));
}

#[test]
fn encode_agrees_with_the_wire_codec() {
    let key = PublicKeyDescriptor::EcDsa { curve_identifier: "nistp256".to_string(), point: point() };
    let theirs = ssh_agent::proto::to_bytes(&ssh_agent::proto::public_key::PublicKey::EcDsa(
        ssh_agent::proto::public_key::EcDsaPublicKey {
            identifier: "nistp256".to_string(),
            q: point(),
        },
    ))
    .unwrap();
    assert_eq!(encode_public_key(&key), Ok(theirs));
}

#[test]
fn other_key_kinds_have_no_wire_form() {
    assert_eq!(encode_public_key(&PublicKeyDescriptor::Rsa), Err(AgentError::CodecFailure));
    assert_eq!(encode_public_key(&PublicKeyDescriptor::Dss), Err(AgentError::CodecFailure));
    assert_eq!(encode_public_key(&PublicKeyDescriptor::Ed25519), Err(AgentError::CodecFailure));
}

#[test]
fn decodes_public_keys_by_kind() {
    assert_eq!(
        decode_public_key(&ecdsa_blob("nistp256", &point())),
        Ok(PublicKeyDescriptor::EcDsa { curve_identifier: "nistp256".to_string(), point: point() })
    );
    assert_eq!(decode_public_key(&rsa_blob()), Ok(PublicKeyDescriptor::Rsa));
    assert_eq!(decode_public_key(&ed25519_blob()), Ok(PublicKeyDescriptor::Ed25519));
}

#[test]
fn decode_after_encode_gives_the_key_back() {
    let key = PublicKeyDescriptor::EcDsa { curve_identifier: "nistp256".to_string(), point: point() };
    let blob = encode_public_key(&key).unwrap();
    assert_eq!(decode_public_key(&blob), Ok(key));
}

#[test]
fn malformed_public_keys_are_codec_failures() {
    assert_eq!(decode_public_key(&[]), Err(AgentError::CodecFailure));
    assert_eq!(decode_public_key(&[0, 0, 0, 9, b'x']), Err(AgentError::CodecFailure));
    assert_eq!(decode_public_key(&ssh_string(b"ssh-unknown")), Err(AgentError::CodecFailure));
    let mut trailing = ecdsa_blob("nistp256", &point());
    trailing.push(0);
    assert_eq!(decode_public_key(&trailing), Err(AgentError::CodecFailure));
    let whole = ecdsa_blob("nistp256", &point());
    assert_eq!(decode_public_key(&whole[..whole.len() - 1]), Err(AgentError::CodecFailure));
}

#[test]
fn identities_answer_encodes_each_key() {
    let identities = vec![
        Identity {
            public_key: PublicKeyDescriptor::EcDsa {
                curve_identifier: "nistp256".to_string(),
                point: vec![4, 1],
            },
            comment: "a".to_string(),
        },
        Identity {
            public_key: PublicKeyDescriptor::EcDsa {
                curve_identifier: "nistp256".to_string(),
                point: vec![4, 2],
            },
            comment: "b".to_string(),
        },
    ];
    assert_eq!(
        identities_answer(&identities),
        Ok(Message::IdentitiesAnswer(vec![
            WireIdentity { pubkey_blob: ecdsa_blob("nistp256", &[4, 1]), comment: "a".to_string() },
            WireIdentity { pubkey_blob: ecdsa_blob("nistp256", &[4, 2]), comment: "b".to_string() },
        ]))
    );
    assert_eq!(identities_answer(&[]), Ok(Message::IdentitiesAnswer(vec![])));
}

#[test]
fn identities_answer_fails_on_a_key_without_wire_form() {
    let identities = vec![Identity { public_key: PublicKeyDescriptor::Rsa, comment: "a".to_string() }];
    assert_eq!(identities_answer(&identities), Err(AgentError::CodecFailure));
}

#[test]
fn signing_job_hands_over_data_and_digest() {
    let request = SignRequest { pubkey_blob: ecdsa_blob("nistp256", b"abc"), data: vec![1, 2, 3], flags: 7 };
    assert_eq!(
        signing_job(&request),
        Ok(SigningJob { payload: vec![1, 2, 3], key_selector: SHA1_ABC.to_vec() })
    );
}

#[test]
fn signing_job_refuses_other_keys_and_bad_blobs() {
    let request = SignRequest { pubkey_blob: rsa_blob(), data: vec![1], flags: 0 };
    assert_eq!(signing_job(&request), Err(AgentError::UnsupportedKeyType));
    let request = SignRequest { pubkey_blob: ed25519_blob(), data: vec![1], flags: 0 };
    assert_eq!(signing_job(&request), Err(AgentError::UnsupportedKeyType));
    let request = SignRequest { pubkey_blob: vec![1, 2, 3], data: vec![1], flags: 0 };
    assert_eq!(signing_job(&request), Err(AgentError::CodecFailure));
}

#[test]
fn signature_from_der_builds_the_wire_signature() {
    let mut blob = ssh_string(&[5]);
    blob.extend_from_slice(&ssh_string(&[9]));
    assert_eq!(
        signature_from_der(&der_5_9()),
        Ok(Signature { algorithm: "ecdsa-sha2-nistp256".to_string(), blob })
    );
    assert_eq!(signature_from_der(&[0x30, 0x00]), Err(AgentError::MalformedSignature));
}

#[test]
fn signature_from_outcome_maps_keystore_failure() {
    assert_eq!(signature_from_outcome(Err(KeystoreError)), Err(AgentError::KeystoreFailure));
    assert_eq!(signature_from_outcome(Ok(vec![1, 2])), Err(AgentError::MalformedSignature));
    assert!(signature_from_outcome(Ok(der_5_9())).is_ok());
}

#[test]
fn sign_response_wraps_the_encoded_signature() {
    let signature = signature_from_der(&der_5_9()).unwrap();
    assert_eq!(sign_response(&signature), Ok(Message::SignResponse(signature_blob_5_9())));
}

#[test]
fn collapse_hides_every_error() {
    assert_eq!(collapse(Ok(Message::Success)), Message::Success);
    assert_eq!(collapse(Ok(Message::SignResponse(vec![1]))), Message::SignResponse(vec![1]));
    assert_eq!(collapse(Err(AgentError::MalformedSignature)), Message::Failure);
    assert_eq!(collapse(Err(AgentError::UnsupportedKeyType)), Message::Failure);
    assert_eq!(collapse(Err(AgentError::UnsupportedMessage)), Message::Failure);
    assert_eq!(collapse(Err(AgentError::KeystoreFailure)), Message::Failure);
    assert_eq!(collapse(Err(AgentError::CodecFailure)), Message::Failure);
}

#[test]
fn empty_keystore_lists_nothing() {
    let agent = SeKey::new(FakeKeystore::new(vec![], Err(KeystoreError)));
    assert_eq!(agent.identities(), vec![]);
    assert_eq!(agent.handle_message(Message::RequestIdentities), Ok(Message::IdentitiesAnswer(vec![])));
    assert_eq!(agent.handle(Message::RequestIdentities), Message::IdentitiesAnswer(vec![]));
}

#[test]
fn end_to_end_list_then_sign() {
    let agent = SeKey::new(FakeKeystore::new(vec![work_key()], Ok(der_5_9())));
    let blob = ecdsa_blob("nistp256", &point());
    assert_eq!(
        agent.handle(Message::RequestIdentities),
        Message::IdentitiesAnswer(vec![WireIdentity {
            pubkey_blob: blob.clone(),
            comment: "work".to_string()
        }])
    );
    assert_eq!(agent.handle(sign_request(blob)), Message::SignResponse(signature_blob_5_9()));
    assert_eq!(agent.keystore.asked(), vec![(vec![0xde, 0xad], key_selector(&point()))]);
}

#[test]
fn sign_returns_the_raw_pair() {
    let agent = SeKey::new(FakeKeystore::new(vec![work_key()], Ok(der_5_9())));
    let request = SignRequest { pubkey_blob: ecdsa_blob("nistp256", &point()), data: vec![1], flags: 0 };
    let signature = agent.sign(&request).unwrap();
    assert_eq!(signature.algorithm, "ecdsa-sha2-nistp256");
    assert_eq!(signature.blob, vec![0, 0, 0, 1, 5, 0, 0, 0, 1, 9]);
}

#[test]
fn sign_request_for_another_key_kind_fails() {
    let agent = SeKey::new(FakeKeystore::new(vec![work_key()], Ok(der_5_9())));
    assert_eq!(agent.handle_message(sign_request(rsa_blob())), Err(AgentError::UnsupportedKeyType));
    assert_eq!(agent.handle(sign_request(rsa_blob())), Message::Failure);
    assert_eq!(agent.handle(sign_request(ed25519_blob())), Message::Failure);
    assert!(agent.keystore.asked().is_empty());
}

#[test]
fn sign_request_with_malformed_key_fails() {
    let agent = SeKey::new(FakeKeystore::new(vec![work_key()], Ok(der_5_9())));
    assert_eq!(agent.handle_message(sign_request(vec![0xff; 3])), Err(AgentError::CodecFailure));
    assert_eq!(agent.handle(sign_request(vec![0xff; 3])), Message::Failure);
    assert_eq!(agent.handle(sign_request(vec![])), Message::Failure);
    assert!(agent.keystore.asked().is_empty());
}

#[test]
fn keystore_failure_becomes_failure() {
    let agent = SeKey::new(FakeKeystore::new(vec![work_key()], Err(KeystoreError)));
    let blob = ecdsa_blob("nistp256", &point());
    assert_eq!(agent.handle_message(sign_request(blob.clone())), Err(AgentError::KeystoreFailure));
    assert_eq!(agent.handle(sign_request(blob)), Message::Failure);
}

#[test]
fn malformed_hardware_signature_becomes_failure() {
    let agent = SeKey::new(FakeKeystore::new(vec![work_key()], Ok(vec![0x30, 0x03, 0x02, 0x01, 0x05])));
    let blob = ecdsa_blob("nistp256", &point());
    assert_eq!(agent.handle_message(sign_request(blob.clone())), Err(AgentError::MalformedSignature));
    assert_eq!(agent.handle(sign_request(blob)), Message::Failure);
}

#[test]
fn other_messages_are_not_supported() {
    let agent = SeKey::new(FakeKeystore::new(vec![work_key()], Ok(der_5_9())));
    let others = vec![
        Message::Other,
        Message::Failure,
        Message::Success,
        Message::IdentitiesAnswer(vec![]),
        Message::SignResponse(vec![1]),
    ];
    for message in others {
        assert_eq!(agent.handle_message(message.clone()), Err(AgentError::UnsupportedMessage));
        assert_eq!(agent.handle(message), Message::Failure);
    }
}

#[test]
fn fixed_keystore_reports_its_keys_and_its_outcome() {
    let keystore = FixedKeystore { keys: vec![work_key()], signature: Ok(der_5_9()) };
    assert_eq!(keystore.list_keys(), vec![work_key()]);
    assert_eq!(keystore.sign(&[1, 2], &[3]), Ok(der_5_9()));
    assert_eq!(keystore.sign(&[], &[]), Ok(der_5_9()));
    let failing = FixedKeystore { keys: vec![], signature: Err(KeystoreError) };
    assert_eq!(failing.list_keys(), vec![]);
    assert_eq!(failing.sign(&[1, 2], &[3]), Err(KeystoreError));
}

#[test]
fn agent_over_a_fixed_keystore() {
    let agent = SeKey::new(FixedKeystore { keys: vec![work_key()], signature: Ok(der_5_9()) });
    let blob = ecdsa_blob("nistp256", &point());
    assert_eq!(
        agent.handle(Message::RequestIdentities),
        Message::IdentitiesAnswer(vec![WireIdentity {
            pubkey_blob: blob.clone(),
            comment: "work".to_string()
        }])
    );
    assert_eq!(agent.handle(sign_request(blob)), Message::SignResponse(signature_blob_5_9()));
    assert_eq!(agent.handle(sign_request(rsa_blob())), Message::Failure);
    assert_eq!(agent.handle(Message::Other), Message::Failure);
}

#[test]
fn the_key_set_is_read_anew_for_every_listing() {
    let mut agent = SeKey::new(FixedKeystore { keys: vec![], signature: Err(KeystoreError) });
    assert_eq!(agent.handle(Message::RequestIdentities), Message::IdentitiesAnswer(vec![]));
    agent.keystore.keys.push(work_key());
    assert_eq!(agent.identities().len(), 1);
    assert_eq!(agent.identities()[0].comment, "work");
}
