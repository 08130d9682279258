//! What every backend speaks of: stream directions and driver identities.

use crate::text::same_text;
use crate::value::ArgValue;
use vstd::prelude::*;

verus! {

/// Direction of a stream or of a channel.
#[derive(Clone, Copy, Debug, PartialEq, Eq, Structural)]
pub enum Direction {
    /// Receive.
    Rx,
    /// Transmit.
    Tx,
}

/// The backends that can be built into the library.
#[derive(Clone, Copy, Debug, PartialEq, Eq, Structural)]
pub enum Driver {
    /// Nuand bladeRF x40 / x115.
    BladeRf,
}

impl Driver {
    /// The tag under which the driver appears in the `driver` argument.
    pub open spec fn tag(self) -> Seq<char> {
        match self {
            Driver::BladeRf => "bladerf"@,
        }
    }

    /// The tag under which the driver appears in the `driver` argument.
    pub fn name(&self) -> (r: &'static str)
        ensures
            r@ == self.tag(),
    {
        match self {
            Driver::BladeRf => "bladerf",
        }
    }
}

impl ArgValue for Driver {
    open spec fn accepts(text: Seq<char>) -> bool {
        text == Driver::BladeRf.tag()
    }

    open spec fn spells(text: Seq<char>, value: Driver) -> bool {
        text == value.tag()
    }

    fn from_text(text: &str) -> (r: Option<Driver>) {
        if same_text(text, "bladerf") {
            Some(Driver::BladeRf)
        } else {
            None
        }
    }
}

} // verus!
