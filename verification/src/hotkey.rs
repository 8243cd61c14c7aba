//! The manual clip hotkey's events and what capturing a new binding gives.
use vstd::prelude::*;

verus! {

/// The hotkey was pressed.
#[derive(Debug, Clone, Copy, PartialEq, Eq, Structural)]
pub enum HotkeyEvent {
    Activated,
}

/// The outcome of capturing a key combination for the hotkey.
#[derive(Debug)]
pub enum BindingCapture {
    Captured(String),
    Unsupported,
    Ignored,
}

} // verus!
