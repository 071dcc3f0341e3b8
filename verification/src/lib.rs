//! Remote long-running operation polling with resilient structured-output
//! extraction: a poller with bounded exponential backoff, a best-effort
//! JSON extractor for free-text replies, typed decoders for the reply
//! schemas, and the credential-checked request shape every vendor call of
//! the voice-driven fine-tuning workflow follows.

pub mod agents;
pub mod chat;
pub mod dataset;
pub mod decode;
pub mod extract;
pub mod facade;
pub mod json;
pub mod keys;
pub mod poll;
pub mod research;
pub mod speech;
pub mod synth;
pub mod tinker;
pub mod text;
pub mod workflow;
