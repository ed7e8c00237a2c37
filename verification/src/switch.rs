use vstd::prelude::*;

verus! {

/// How long the hardware is given to settle after a change of power or
/// reset, in milliseconds.
pub const SETTLE_MS: u64 = 500;

/// The whole addressable state of the switch. The switch applies one
/// selection per call; nothing is promised of the states in between.
#[derive(Clone, Copy, Debug, PartialEq, Eq, Structural)]
pub struct Selection {
    pub channel: u8,
    pub power_enabled: bool,
    pub usb_enabled: bool,
    pub reset_asserted: bool,
    pub boot0_asserted: bool,
}

/// One thing to do on the switch.
#[derive(Clone, Copy, Debug, PartialEq, Eq, Structural)]
pub enum SwitchStep {
    /// Apply this selection; a refusal is fatal.
    Apply(Selection),
    /// Wait this many milliseconds.
    Settle(u64),
}

impl Selection {
    /// The clean powered-off state on the same channel: reset asserted,
    /// boot mode deasserted, power and USB pass-through off.
    pub open spec fn powered_off(self) -> Selection {
        Selection {
            channel: self.channel,
            power_enabled: false,
            usb_enabled: false,
            reset_asserted: true,
            boot0_asserted: false,
        }
    }

    pub open spec fn on_channel(self, channel: u8) -> Selection {
        Selection { channel, ..self }
    }

    pub open spec fn powered(self, on: bool) -> Selection {
        Selection { power_enabled: on, ..self }
    }

    pub open spec fn usb(self, on: bool) -> Selection {
        Selection { usb_enabled: on, ..self }
    }

    pub open spec fn reset(self, asserted: bool) -> Selection {
        Selection { reset_asserted: asserted, ..self }
    }

    pub open spec fn boot0(self, asserted: bool) -> Selection {
        Selection { boot0_asserted: asserted, ..self }
    }

    pub fn power_off(self) -> (r: Selection)
        ensures
            r == self.powered_off(),
    {
        Selection {
            channel: self.channel,
            power_enabled: false,
            usb_enabled: false,
            reset_asserted: true,
            boot0_asserted: false,
        }
    }

    pub fn set_channel(self, channel: u8) -> (r: Selection)
        ensures
            r == self.on_channel(channel),
    {
        Selection { channel, ..self }
    }

    pub fn set_power_enabled(self, on: bool) -> (r: Selection)
        ensures
            r == self.powered(on),
    {
        Selection { power_enabled: on, ..self }
    }

    pub fn set_usb_enabled(self, on: bool) -> (r: Selection)
        ensures
            r == self.usb(on),
    {
        Selection { usb_enabled: on, ..self }
    }

    pub fn set_reset(self, asserted: bool) -> (r: Selection)
        ensures
            r == self.reset(asserted),
    {
        Selection { reset_asserted: asserted, ..self }
    }

    pub fn set_boot0(self, asserted: bool) -> (r: Selection)
        ensures
            r == self.boot0(asserted),
    {
        Selection { boot0_asserted: asserted, ..self }
    }
}

} // verus!
