//! Multi-tenant media-queue controller.
//!
//! Each tenant owns an ordered playback queue of tracks, a play/pause flag
//! and a loop policy. Commands mutate the queue; asynchronous track-end
//! events are routed through a small state machine that decides whether to
//! re-queue, rotate, or idle and disconnect. The queue, the registry of
//! tenants, and the track-end state machine are verified here; transport,
//! audio decoding and presentation live outside the library.

pub mod error;
pub mod policy;
pub mod presets;
pub mod queue;
pub mod registry;
pub mod router;
pub mod track;
