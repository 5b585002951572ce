//! Relays text between a maker agent and a critic agent: the event protocols of both,
//! the transcript, the prompts, and the turn-taking rules of the batch relay and of the
//! interactive session.
pub mod decode;
pub mod invoke;
pub mod prompt;
pub mod relay;
pub mod session;
pub mod text;
pub mod transcript;
