//! Squad ready-check notifications for a multiplayer game's squad feature.
//!
//! The heart of the crate is [`squad_tracker::SquadTracker`]: an event-driven
//! state machine that consumes per-user role/ready updates pushed by the host
//! application, detects when a squad ready-check starts, is aborted, or
//! completes, and drives a periodic "nag" reminder while the local user has
//! not readied up. Notifications are delivered through the injected
//! [`squad_tracker::SquadNotifier`] capability; the host glue performs the
//! actual audio playback and window flashing.
//!
//! The supporting modules hold the notification settings record, the
//! version bookkeeping of the self-update check, and the directory cache
//! behind the sound-file picker.

pub mod file_picker;
pub mod player_cache;
pub mod settings;
pub mod squad_tracker;
pub mod text;
pub mod ui;
pub mod update_checker;
