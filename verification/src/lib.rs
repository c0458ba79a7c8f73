//! Coordination core for collaborative editing of a video timeline.
//!
//! Several clients edit one shared [`VideoProject`]. Each edit travels as an
//! [`OTOperation`]. The [`VideoSession`] that owns the project orders the
//! edits, reconciles those made at the same time and hands every committed
//! edit back to all clients; each [`WeframeClient`] replays them on its own
//! copy.
//!
//! The crate holds the state machines only. Sockets, clocks and the wire
//! encoding belong to the program around it, which passes plain values in and
//! carries the returned messages out. Points in time are milliseconds on a
//! clock of the caller's choosing; spans of time are [`TimeSpan`]s.

pub mod apply;
pub mod client;
pub mod clip;
pub mod config;
pub mod convergence;
pub mod effect;
pub mod entropy;
pub mod invariants;
pub mod laws;
pub mod manager;
pub mod message;
pub mod operation;
pub mod project;
pub mod sequences;
pub mod session;
pub mod text;
pub mod time;
pub mod transform;

pub use crate::client::{ClientError, WeframeClient};
pub use crate::clip::VideoClip;
pub use crate::config::ServerConfig;
pub use crate::effect::{Effect, EffectParameter, EffectType, Transition, TransitionType};
pub use crate::manager::SessionManager;
pub use crate::message::{Outbound, ServerMessage};
pub use crate::operation::{EditOperation, OTOperation};
pub use crate::project::{Collaborator, CursorPosition, VideoProject};
pub use crate::session::{ClientFrame, Joined, Metadata, VideoSession};
pub use crate::time::TimeSpan;
