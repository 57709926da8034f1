//! The hardware keystore as the handler sees it.

use vstd::prelude::*;
use crate::keys::{copy_bytes, key_views, HardwareKey, HardwareKeyView};

verus! {

/// A failure of the hardware keystore. It carries no detail.
#[derive(Clone, Copy, Debug, PartialEq, Eq, Structural)]
pub struct KeystoreError;

/// The view of what a keystore returned from a signing call.
pub open spec fn outcome_view(outcome: Result<Vec<u8>, KeystoreError>) -> Result<
    Seq<u8>,
    KeystoreError,
> {
    match outcome {
        Ok(der) => Ok(der@),
        Err(e) => Err(e),
    }
}

/// The hardware keystore that holds the private keys.
///
/// An implementation may say by `lists` and `signs` what it returns. One
/// that does not may return anything: the key set may change from one call to
/// the next, and a signing call may fail or return bytes that are no
/// signature.
pub trait Keystore {
    /// Whether the keystore may report `keys` when asked for its key pairs.
    open spec fn lists(&self, keys: Seq<HardwareKeyView>) -> bool {
        true
    }

    /// Whether the keystore may give `outcome` when asked to sign `payload`
    /// with the key that `key_selector` picks.
    open spec fn signs(
        &self,
        payload: Seq<u8>,
        key_selector: Seq<u8>,
        outcome: Result<Seq<u8>, KeystoreError>,
    ) -> bool {
        true
    }

    /// The key pairs that the hardware holds now, in its own order.
    fn list_keys(&self) -> (keys: Vec<HardwareKey>)
        ensures
            self.lists(key_views(keys@)),
    ;

    /// Signs `payload` with the key that `key_selector` picks and returns the
    /// DER-encoded signature.
    fn sign(&self, payload: &[u8], key_selector: &[u8]) -> (outcome: Result<
        Vec<u8>,
        KeystoreError,
    >)
        ensures
            self.signs(payload@, key_selector@, outcome_view(outcome)),
    ;
}

/// A keystore with a fixed key set that gives the same outcome to every
/// signing call. It stands in for the hardware where there is none.
#[derive(Debug, PartialEq, Eq)]
pub struct FixedKeystore {
    pub keys: Vec<HardwareKey>,
    pub signature: Result<Vec<u8>, KeystoreError>,
}

impl Keystore for FixedKeystore {
    open spec fn lists(&self, keys: Seq<HardwareKeyView>) -> bool {
        keys == key_views(self.keys@)
    }

    open spec fn signs(
        &self,
        payload: Seq<u8>,
        key_selector: Seq<u8>,
        outcome: Result<Seq<u8>, KeystoreError>,
    ) -> bool {
        outcome == outcome_view(self.signature)
    }

    fn list_keys(&self) -> (keys: Vec<HardwareKey>) {
        let mut keys: Vec<HardwareKey> = Vec::new();
        let mut i: usize = 0;
        while i < self.keys.len()
            invariant
                i <= self.keys.len(),
                keys@.len() == i,
                forall|j: int| 0 <= j < i ==> (#[trigger] keys@[j])@ == self.keys@[j]@,
            decreases self.keys.len() - i,
        {
            let key = &self.keys[i];
            keys.push(HardwareKey { label: key.label.clone(), key: copy_bytes(key.key.as_slice()) });
            i = i + 1;
        }
        assert(key_views(keys@) =~= key_views(self.keys@));
        keys
    }

    fn sign(&self, payload: &[u8], key_selector: &[u8]) -> (outcome: Result<
        Vec<u8>,
        KeystoreError,
    >) {
        match &self.signature {
            Ok(der) => Ok(copy_bytes(der.as_slice())),
            Err(_) => Err(KeystoreError),
        }
    }
}

} // verus!
