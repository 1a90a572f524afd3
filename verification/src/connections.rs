//! The devices whose MIDI port could not be opened, with the port and the
//! reason, one entry per device. A later failure replaces the entry; a
//! successful connection clears it.

use vstd::prelude::*;

use crate::named_map::NamedMap;
use crate::timing::DeviceConnectionError;

verus! {

/// The connection failures by device name.
pub struct DeviceConnectionErrors {
    errors: NamedMap<DeviceConnectionError>,
}

impl DeviceConnectionErrors {
    /// The failures, by device name.
    pub closed spec fn view(&self) -> Map<Seq<char>, DeviceConnectionError> {
        self.errors.view()
    }

    /// The table is well formed.
    pub closed spec fn wf(&self) -> bool {
        self.errors.wf()
    }

    /// No failures.
    pub fn new() -> (r: DeviceConnectionErrors)
        ensures
            r.wf(),
            r.view() == Map::<Seq<char>, DeviceConnectionError>::empty(),
    {
        DeviceConnectionErrors { errors: NamedMap::new() }
    }

    /// Records that the port `port` of the device `name` could not be
    /// opened, for the reason `message`; replaces an earlier entry.
    pub fn record_device_connection_error(&mut self, name: String, port: String, message: String)
        requires
            old(self).wf(),
        ensures
            final(self).wf(),
            final(self).view() == old(self).view().insert(name@, (DeviceConnectionError { port, message })),
    {
        self.errors.insert(name, DeviceConnectionError { port, message });
    }

    /// Clears the entry of the device `name` (it connected); nothing
    /// changes when it has none.
    pub fn clear_device_connection_error(&mut self, name: &str)
        requires
            old(self).wf(),
        ensures
            final(self).wf(),
            final(self).view() == old(self).view().remove(name@),
    {
        self.errors.remove(name);
    }

    /// The entry of the device `name`, if any.
    pub fn get(&self, name: &str) -> (r: Option<&DeviceConnectionError>)
        requires
            self.wf(),
        ensures
            match r {
                Some(e) => self.view().contains_key(name@) && *e == self.view()[name@],
                None => !self.view().contains_key(name@),
            },
    {
        self.errors.get(name)
    }

    /// Whether no device has an entry.
    pub fn is_empty(&self) -> (r: bool)
        requires
            self.wf(),
        ensures
            r == (self.view() == Map::<Seq<char>, DeviceConnectionError>::empty()),
    {
        self.errors.is_empty()
    }

    /// The number of devices with an entry.
    pub fn len(&self) -> (r: usize)
        requires
            self.wf(),
        ensures
            r == self.view().len(),
    {
        proof {
            self.errors.lemma_len();
        }
        self.errors.len()
    }
}

} // verus!
