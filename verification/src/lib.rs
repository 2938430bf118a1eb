//! Core of a group-chat gatekeeper bot: multiple-choice visual challenges for
//! new members, a TTL-backed answer store, per-chat moderation settings with a
//! guided admin dialogue, and a channel-post policy evaluator.

pub mod cache;
pub mod dialogue;
pub mod engine;
pub mod greet;
pub mod l10n;
pub mod policy;
pub mod qna;
pub mod responses;
pub mod rng;
pub mod sched;
pub mod settings;
pub mod store;
pub mod text;
pub mod utils;
