//! An SSH agent core that brokers signing to a hardware keystore.
//!
//! The agent holds no private key. It lists the public keys that a hardware
//! keystore reports, and answers a signing request by handing the payload to
//! the keystore and turning the DER signature that comes back into the raw
//! pair of integers that the SSH wire format carries.

pub mod error;
pub mod der;
pub mod keys;
pub mod message;
pub mod wire;
pub mod keystore;
pub mod handler;
