//! The server events the tracker consumes, as plain values.
use crate::win::WindowClass;
use vstd::prelude::*;

verus! {

/// A new child of the root appeared.
#[derive(Debug, Clone, Copy, PartialEq, Eq)]
pub struct CreateNotifyEvent {
    pub window: u32,
    pub x: i16,
    pub y: i16,
    pub width: u16,
    pub height: u16,
    pub border_width: u16,
    pub override_redirect: bool,
}

/// A window became mapped.
#[derive(Debug, Clone, Copy, PartialEq, Eq)]
pub struct MapNotifyEvent {
    pub window: u32,
    pub override_redirect: bool,
}

/// A window became unmapped.
#[derive(Debug, Clone, Copy, PartialEq, Eq)]
pub struct UnmapNotifyEvent {
    pub window: u32,
}

/// A window changed geometry or stacking position. `above_sibling` is the
/// sibling it now sits directly above, or 0 when it is at the bottom.
#[derive(Debug, Clone, Copy, PartialEq, Eq)]
pub struct ConfigureNotifyEvent {
    pub window: u32,
    pub above_sibling: u32,
    pub x: i16,
    pub y: i16,
    pub width: u16,
    pub height: u16,
    pub border_width: u16,
    pub override_redirect: bool,
}

/// A window was destroyed.
#[derive(Debug, Clone, Copy, PartialEq, Eq)]
pub struct DestroyNotifyEvent {
    pub window: u32,
}

/// A property of a window changed.
#[derive(Debug, Clone, Copy, PartialEq, Eq)]
pub struct PropertyNotifyEvent {
    pub window: u32,
    pub atom: u32,
}

/// A damage object accumulated new damage.
#[derive(Debug, Clone, Copy, PartialEq, Eq)]
pub struct DamageNotifyEvent {
    pub damage: u32,
}

/// One event of the server's stream.
///
/// `CreateNotify` also carries what the program learnt around the event:
/// the class the server reports for the new window, and a fresh id that
/// names the window's damage object if the window gets one.
#[derive(Debug, Clone, Copy, PartialEq, Eq)]
pub enum Event {
    CreateNotify { event: CreateNotifyEvent, class: WindowClass, damage: u32 },
    MapNotify(MapNotifyEvent),
    UnmapNotify(UnmapNotifyEvent),
    ConfigureNotify(ConfigureNotifyEvent),
    DestroyNotify(DestroyNotifyEvent),
    PropertyNotify(PropertyNotifyEvent),
    DamageNotify(DamageNotifyEvent),
    Other,
}

} // verus!
