//! Threshold-signing building blocks: the inbound message buffer of a
//! protocol round, keygen rounds one and three with fault attribution, sign
//! round seven, the `Z*_n` membership test, fault log lines, and an Ed25519
//! signer with DER framing.
pub mod api;
pub mod der_sig;
pub mod ed25519;
pub mod faults;
pub mod keygen_r1;
pub mod keygen_r3;
pub mod mul_group;
pub mod round_buffer;
pub mod sign_r7;
