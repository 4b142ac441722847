//! Detecting meetings on the local machine and recording them as WAV files.
//!
//! The library decides and computes; a host does what touches the system. The host
//! hands in what it finds (which processes use the microphone, which windows there
//! are, what a timer or a permission dialog came to, the samples that were captured)
//! and the library returns what follows from it:
//!
//! * [`detect`], [`apps`], [`process`] and [`window`] tell which process is in a
//!   meeting and which window is the meeting's; [`known_apps`] states what holds of the
//!   applications that are known.
//! * [`monitor`] tells when a meeting begins and when it ends, and
//!   [`window_watcher`] when its window is gone.
//! * [`recorder`] holds the listener itself: its settings, its handlers, the events
//!   that it emits and the course of a request to record; [`lifecycle`] states what
//!   holds of it over time.
//! * [`capture`], [`microphone`], [`channel`] and [`mix`] set up the audio streams,
//!   cut them into chunks, pass them on and mix them; [`wav`] and [`paths`] make files
//!   of them.
//! * [`tiles`] and [`speaker`] tell who is speaking.
//! * [`ffi`] and [`bindings`] put events into the form that other languages read.
use vstd::prelude::*;

pub mod apps;
pub mod bindings;
pub mod capture;
pub mod channel;
pub mod detect;
pub mod event;
pub mod ffi;
pub mod known_apps;
pub mod lifecycle;
pub mod microphone;
pub mod mix;
pub mod monitor;
pub mod paths;
pub mod process;
pub mod recorder;
pub mod speaker;
pub mod text;
pub mod tiles;
pub mod wav;
pub mod window;
pub mod window_watcher;

pub use crate::event::{CaptureKind, Error, Event, Permission, PermissionGranted};
pub use crate::recorder::MeetingListener;

verus! {

/// The version of the library.
pub const VERSION: &'static str = "0.1.0";

/// The version of the library.
pub fn version() -> (v: &'static str)
    ensures
        v@ == VERSION@,
{
    VERSION
}

} // verus!
