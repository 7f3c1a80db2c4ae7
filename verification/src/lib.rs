//! Verified core of a small application manager for GitHub-released apps:
//! release resolution and semantic-version ordering, a rate-limit governor
//! for polling, per-application install manifests, durable app records,
//! the install/update pipeline decisions, and launch-command resolution.

pub mod clock;
pub mod github;
pub mod launcher;
pub mod manifest;
pub mod notifications;
pub mod persist;
pub mod pipeline;
pub mod record;
pub mod settings;
pub mod store;
pub mod strutil;
pub mod version;
