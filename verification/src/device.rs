//! A controllable endpoint: its reachable address and the descriptive
//! metadata a discovery reply carries.  Opening connections and writing
//! frames is left to the caller; a device hands back the exact message
//! to transmit.

use vstd::prelude::*;

use crate::commands::Commands;
use crate::message::IscpMessage;

verus! {

/// Hardware identifiers are kept to at most this many bytes.
pub const DEVICE_MAC_MAX_LEN: usize = 12;

/// One discovered or manually configured endpoint.
pub struct Device {
    pub address: Vec<u8>,
    pub model: Vec<u8>,
    pub area: Vec<u8>,
    pub mac: Vec<u8>,
}

/// Mathematical model of a device: the same four fields over `Seq`.
pub struct DeviceView {
    pub address: Seq<u8>,
    pub model: Seq<u8>,
    pub area: Seq<u8>,
    pub mac: Seq<u8>,
}

impl View for Device {
    type V = DeviceView;

    open spec fn view(&self) -> DeviceView {
        DeviceView {
            address: self.address@,
            model: self.model@,
            area: self.area@,
            mac: self.mac@,
        }
    }
}

impl Device {
    /// A device with every field empty.
    pub fn new() -> (d: Device)
        ensures
            d@.address.len() == 0,
            d@.model.len() == 0,
            d@.area.len() == 0,
            d@.mac.len() == 0,
    {
        Device { address: Vec::new(), model: Vec::new(), area: Vec::new(), mac: Vec::new() }
    }

    /// A device from its four descriptive fields.
    pub fn from(address: Vec<u8>, model: Vec<u8>, area: Vec<u8>, mac: Vec<u8>) -> (d: Device)
        ensures
            d@.address == address@,
            d@.model == model@,
            d@.area == area@,
            d@.mac == mac@,
    {
        Device { address, model, area, mac }
    }

    /// A manually configured device known only by its address.
    pub fn from_address(address: &[u8]) -> (d: Device)
        ensures
            d@.address == address@,
            d@.model.len() == 0,
            d@.area.len() == 0,
            d@.mac.len() == 0,
    {
        Device {
            address: vstd::slice::slice_to_vec(address),
            model: Vec::new(),
            area: Vec::new(),
            mac: Vec::new(),
        }
    }

    /// The receiver-addressed message carrying the given raw command
    /// and parameter, ready for the caller to encode and transmit to
    /// this device's address.
    pub fn raw(&self, command: &[u8], parameter: &[u8]) -> (m: IscpMessage)
        requires
            command@.len() >= crate::message::ISCP_MSG_CMD_LEN,
        ensures
            m@.destination == crate::message::ISCP_MSG_DST_RECEIVER,
            m@.command == command@.subrange(0, crate::message::ISCP_MSG_CMD_LEN as int),
            command@.len() == crate::message::ISCP_MSG_CMD_LEN ==> m@.command == command@,
            m@.parameter == parameter@,
            m@.wf(),
    {
        IscpMessage::from(command, parameter)
    }

    /// The command builder bound to this device.
    pub fn commands(&self) -> (c: Commands)
        ensures
            *c.main.device == *self,
    {
        Commands::from(self)
    }
}

} // verus!
