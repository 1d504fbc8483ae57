//! State behind an interactive front end: the registry, which device
//! is currently selected, and the user's own volume cap.  The front
//! end owns argument handling, printing and persistence; the decisions
//! live here.

use vstd::prelude::*;

use crate::device::Device;
use crate::remote::Remote;

verus! {

/// Default user volume cap for a fresh application state.
pub const DEFAULT_VOLUME_MAX_LEVEL: u8 = 30;

/// Front-end state: the registry, the selected index, and the volume
/// cap the user configured.
pub struct Application {
    pub remote: Remote,
    pub selected_device: usize,
    pub volume_max_level: u8,
}

impl Application {
    /// Fresh state: an empty registry, the first index selected, and
    /// the default volume cap.
    pub fn new() -> (a: Application)
        ensures
            a.remote.devices@.len() == 0,
            a.selected_device == 0,
            a.volume_max_level == DEFAULT_VOLUME_MAX_LEVEL,
    {
        Application {
            remote: Remote::new(),
            selected_device: 0,
            volume_max_level: DEFAULT_VOLUME_MAX_LEVEL,
        }
    }

    /// The selected device.  The selection must be in range; the front
    /// end checks that before calling, as an out-of-range selection is
    /// its error to report.
    pub fn device(&self) -> (d: &Device)
        requires
            self.selected_device < self.remote.devices@.len(),
        ensures
            *d == self.remote.devices@[self.selected_device as int],
    {
        match self.remote.device(self.selected_device) {
            Some(d) => d,
            None => vstd::pervasive::unreached(),
        }
    }

    /// Selects the device at `index`.  An index beyond the current
    /// sequence changes nothing and reports failure.
    pub fn select(&mut self, index: usize) -> (ok: bool)
        ensures
            ok == (index < old(self).remote.devices@.len()),
            ok ==> final(self).selected_device == index && final(self).remote == old(self).remote
                && final(self).volume_max_level == old(self).volume_max_level,
            !ok ==> *final(self) == *old(self),
    {
        if index >= self.remote.devices.len() {
            return false;
        }
        self.selected_device = index;
        true
    }

    /// The volume level actually forwarded to a device: the request
    /// capped at this application's configured maximum.
    pub fn checked_volume(&self, level: u8) -> (r: u8)
        ensures
            r == if level > self.volume_max_level {
                self.volume_max_level
            } else {
                level
            },
    {
        if level > self.volume_max_level {
            self.volume_max_level
        } else {
            level
        }
    }
}

} // verus!
