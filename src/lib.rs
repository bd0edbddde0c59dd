//! Core of an X11 compositing manager: a verified model of the top-level
//! window tree, the per-window GPU resource lifecycle, and the per-frame
//! compositing plan.
//!
//! The library never talks to the X server or to GL itself. It decides what
//! has to happen and hands that back as plain values (`Request`, `GlOp`);
//! the program around it performs those requests and reports the results.

mod errors;
mod event;
mod ewm;
mod gl_renderer;
mod rect;
mod stacking;
mod tracker;
mod win;

pub use errors::CompError;
pub use event::{
    ConfigureNotifyEvent, CreateNotifyEvent, DamageNotifyEvent, DestroyNotifyEvent, Event,
    MapNotifyEvent, PropertyNotifyEvent, UnmapNotifyEvent,
};
pub use ewm::{decode_window_ids, RootHintAtoms, RootWindowHintCodes};
pub use gl_renderer::{FboTexture, GLRenderer, GlOp, UniformLocations, WindowDrawDesc};
pub use rect::Rect;
pub use tracker::{WinTracker, WindowInfo};
pub use win::{Geometry, MapState, Request, WinAttributes, Win, WindowClass};
