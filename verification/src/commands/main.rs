//! The main command group: power, mute, volume and front-tone actions,
//! each mapped to its wire command and parameter.  Every method returns
//! the exact message to transmit to the bound device.

use vstd::prelude::*;

use crate::commands::{
    bytes2, bytes3, bytes4, bytes5, hex_digit, spec_signed_hex, spec_volume_param,
    to_signed_hex_str, TONE_MAX_LEVEL, TONE_MIN_LEVEL, VOLUME_MAX_LEVEL,
};
use crate::device::Device;
use crate::message::{IscpMessage, ISCP_MSG_DST_RECEIVER};

verus! {

/// The main commands, bound to one device.
pub struct MainCommands<'b> {
    pub device: &'b Device,
}

impl<'b> MainCommands<'b> {
    /// The main command group bound to `device`.
    pub fn from(device: &Device) -> (c: MainCommands)
        ensures
            *c.device == *device,
    {
        MainCommands { device }
    }

    /// Power off: `PWR 00`.
    pub fn power_off(&self) -> (m: IscpMessage)
        ensures
            m@.destination == ISCP_MSG_DST_RECEIVER,
            m@.command == seq![0x50u8, 0x57u8, 0x52u8],
            m@.parameter == seq![0x30u8, 0x30u8],
    {
        self.device.raw(bytes3(0x50, 0x57, 0x52).as_slice(), bytes2(0x30, 0x30).as_slice())
    }

    /// Power on: `PWR 01`.
    pub fn power_on(&self) -> (m: IscpMessage)
        ensures
            m@.destination == ISCP_MSG_DST_RECEIVER,
            m@.command == seq![0x50u8, 0x57u8, 0x52u8],
            m@.parameter == seq![0x30u8, 0x31u8],
    {
        self.device.raw(bytes3(0x50, 0x57, 0x52).as_slice(), bytes2(0x30, 0x31).as_slice())
    }

    /// Unmute: `AMT 00`.
    pub fn unmute(&self) -> (m: IscpMessage)
        ensures
            m@.destination == ISCP_MSG_DST_RECEIVER,
            m@.command == seq![0x41u8, 0x4du8, 0x54u8],
            m@.parameter == seq![0x30u8, 0x30u8],
    {
        self.device.raw(bytes3(0x41, 0x4d, 0x54).as_slice(), bytes2(0x30, 0x30).as_slice())
    }

    /// Mute: `AMT 01`.
    pub fn mute(&self) -> (m: IscpMessage)
        ensures
            m@.destination == ISCP_MSG_DST_RECEIVER,
            m@.command == seq![0x41u8, 0x4du8, 0x54u8],
            m@.parameter == seq![0x30u8, 0x31u8],
    {
        self.device.raw(bytes3(0x41, 0x4d, 0x54).as_slice(), bytes2(0x30, 0x31).as_slice())
    }

    /// Absolute volume: the level clamped to `VOLUME_MAX_LEVEL`, sent
    /// as two uppercase hexadecimal digits under `MVL`.
    pub fn set_volume(&self, level: u8) -> (m: IscpMessage)
        ensures
            m@.destination == ISCP_MSG_DST_RECEIVER,
            m@.command == seq![0x4du8, 0x56u8, 0x4cu8],
            m@.parameter == spec_volume_param(level),
    {
        let c = if level > VOLUME_MAX_LEVEL {
            VOLUME_MAX_LEVEL
        } else {
            level
        };
        let param = bytes2(hex_digit(c / 16), hex_digit(c % 16));
        self.device.raw(bytes3(0x4d, 0x56, 0x4c).as_slice(), param.as_slice())
    }

    /// One volume step up: `MVL UP`.
    pub fn set_volume_up(&self) -> (m: IscpMessage)
        ensures
            m@.destination == ISCP_MSG_DST_RECEIVER,
            m@.command == seq![0x4du8, 0x56u8, 0x4cu8],
            m@.parameter == seq![0x55u8, 0x50u8],
    {
        self.device.raw(bytes3(0x4d, 0x56, 0x4c).as_slice(), bytes2(0x55, 0x50).as_slice())
    }

    /// One volume step down: `MVL DOWN`.
    pub fn set_volume_down(&self) -> (m: IscpMessage)
        ensures
            m@.destination == ISCP_MSG_DST_RECEIVER,
            m@.command == seq![0x4du8, 0x56u8, 0x4cu8],
            m@.parameter == seq![0x44u8, 0x4fu8, 0x57u8, 0x4eu8],
    {
        self.device.raw(bytes3(0x4d, 0x56, 0x4c).as_slice(), bytes4(0x44, 0x4f, 0x57, 0x4e).as_slice())
    }

    /// Absolute front bass: `B` then the signed-hex level under `TFR`.
    pub fn set_tone_front_bass(&self, level: i8) -> (m: IscpMessage)
        ensures
            m@.destination == ISCP_MSG_DST_RECEIVER,
            m@.command == seq![0x54u8, 0x46u8, 0x52u8],
            m@.parameter == seq![0x42u8] + spec_signed_hex(level, TONE_MAX_LEVEL, TONE_MIN_LEVEL),
    {
        let mut param = to_signed_hex_str(level, TONE_MAX_LEVEL, TONE_MIN_LEVEL);
        param.insert(0, 0x42);
        assert(param@ =~= seq![0x42u8] + spec_signed_hex(level, TONE_MAX_LEVEL, TONE_MIN_LEVEL));
        self.device.raw(bytes3(0x54, 0x46, 0x52).as_slice(), param.as_slice())
    }

    /// Absolute front treble: `T` then the signed-hex level under `TFR`.
    pub fn set_tone_front_treble(&self, level: i8) -> (m: IscpMessage)
        ensures
            m@.destination == ISCP_MSG_DST_RECEIVER,
            m@.command == seq![0x54u8, 0x46u8, 0x52u8],
            m@.parameter == seq![0x54u8] + spec_signed_hex(level, TONE_MAX_LEVEL, TONE_MIN_LEVEL),
    {
        let mut param = to_signed_hex_str(level, TONE_MAX_LEVEL, TONE_MIN_LEVEL);
        param.insert(0, 0x54);
        assert(param@ =~= seq![0x54u8] + spec_signed_hex(level, TONE_MAX_LEVEL, TONE_MIN_LEVEL));
        self.device.raw(bytes3(0x54, 0x46, 0x52).as_slice(), param.as_slice())
    }

    /// One front bass step up: `TFR BUP`.
    pub fn set_tone_front_bass_up(&self) -> (m: IscpMessage)
        ensures
            m@.destination == ISCP_MSG_DST_RECEIVER,
            m@.command == seq![0x54u8, 0x46u8, 0x52u8],
            m@.parameter == seq![0x42u8, 0x55u8, 0x50u8],
    {
        self.device.raw(bytes3(0x54, 0x46, 0x52).as_slice(), bytes3(0x42, 0x55, 0x50).as_slice())
    }

    /// One front bass step down: `TFR BDOWN`.
    pub fn set_tone_front_bass_down(&self) -> (m: IscpMessage)
        ensures
            m@.destination == ISCP_MSG_DST_RECEIVER,
            m@.command == seq![0x54u8, 0x46u8, 0x52u8],
            m@.parameter == seq![0x42u8, 0x44u8, 0x4fu8, 0x57u8, 0x4eu8],
    {
        self.device.raw(
            bytes3(0x54, 0x46, 0x52).as_slice(),
            bytes5(0x42, 0x44, 0x4f, 0x57, 0x4e).as_slice(),
        )
    }

    /// One front treble step up: `TFR TUP`.
    pub fn set_tone_front_treble_up(&self) -> (m: IscpMessage)
        ensures
            m@.destination == ISCP_MSG_DST_RECEIVER,
            m@.command == seq![0x54u8, 0x46u8, 0x52u8],
            m@.parameter == seq![0x54u8, 0x55u8, 0x50u8],
    {
        self.device.raw(bytes3(0x54, 0x46, 0x52).as_slice(), bytes3(0x54, 0x55, 0x50).as_slice())
    }

    /// One front treble step down: `TFR TDOWN`.
    pub fn set_tone_front_treble_down(&self) -> (m: IscpMessage)
        ensures
            m@.destination == ISCP_MSG_DST_RECEIVER,
            m@.command == seq![0x54u8, 0x46u8, 0x52u8],
            m@.parameter == seq![0x54u8, 0x44u8, 0x4fu8, 0x57u8, 0x4eu8],
    {
        self.device.raw(
            bytes3(0x54, 0x46, 0x52).as_slice(),
            bytes5(0x54, 0x44, 0x4f, 0x57, 0x4e).as_slice(),
        )
    }
}

} // verus!
