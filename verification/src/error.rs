//! The failures that can arise while a request is handled.

use vstd::prelude::*;

verus! {

/// Why a request could not be answered. None of this detail crosses the
/// wire: every variant collapses to the same failure message.
#[derive(Clone, Copy, Debug, PartialEq, Eq, Structural)]
pub enum AgentError {
    /// The hardware signature is not a DER sequence of two integers.
    MalformedSignature,
    /// The request names a key algorithm other than the supported curve.
    UnsupportedKeyType,
    /// The message is neither an identity listing nor a signing request.
    UnsupportedMessage,
    /// The hardware keystore reported a failure.
    KeystoreFailure,
    /// A public key or signature could not be put in or taken out of wire form.
    CodecFailure,
}

} // verus!
