//! Local-first synchronization layer for a personal productivity
//! application: task and calendar-event records are cached on disk,
//! merged against remote snapshots without losing offline edits, and
//! the OAuth2 credentials for the remote providers are issued,
//! refreshed and kept valid.

pub mod cache;
pub mod credentials;
pub mod gateway;
pub mod oauth;
pub mod projects;
pub mod reconcile;
pub mod record;
pub mod startup;
pub mod strings;
pub mod timestamp;
