//! Verified marshalling core of a set of GPGME bindings for a hosted
//! runtime. The cryptography itself belongs to the GPGME engine; what these
//! modules own — and what is proved here — is the translation layer: turning
//! engine results into host-runtime terms, mapping error conditions to
//! symbols, and parsing the option flags the host passes in.

pub mod context;
pub mod error;
pub mod key;
pub mod protocol;
pub mod term;
