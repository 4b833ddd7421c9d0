//! Window lifecycle coordination.
//!
//! A window that was asked to close cannot always be released at once: the
//! owner of its surface must first report that it is done with it. This crate
//! decides, tick by tick, which windows are despawned, which are kept waiting,
//! and when the application is told to exit.

pub mod close;
pub mod entity;
pub mod escape;
pub mod event;
pub mod exit;
pub mod pending;
pub mod sequences;
pub mod store;
pub mod surface;
pub mod ticks;

pub use close::close_when_requested;
pub use entity::Entity;
pub use event::{Command, WindowCloseRequested};
pub use escape::{close_focused_windows, close_on_esc};
pub use exit::{exit_on_all_closed, exit_on_primary_closed};
pub use pending::PendingCloses;
pub use store::{EntityRecord, EntityStore, SurfaceToken, Window};
pub use surface::fixup_window_surface;
