//! Zones: the memory locations that hold the current values of a unit's
//! controls.

use vstd::prelude::*;

verus! {

/// A memory zone that holds the current value of one control, as the bit
/// pattern of an IEEE 754 single-precision number.
pub trait Zone: Sized {
    /// The address of the location.
    spec fn addr(&self) -> usize;

    /// The bits that the location holds.
    spec fn bits(&self) -> u32;

    /// Binds a zone to the location at `addr`.
    fn from_zone_ptr(addr: usize) -> (zone: Self)
        ensures
            zone.addr() == addr,
    ;

    /// Reads the value.
    fn cur_value(&self) -> (bits: u32)
        ensures
            bits == self.bits(),
    ;

    /// Writes the value; the zone stays bound to its location.
    fn set_value(&mut self, bits: u32)
        ensures
            final(self).bits() == bits,
            final(self).addr() == old(self).addr(),
    ;
}

/// A zone that owns its value instead of borrowing it from a running unit.
/// A new one holds zero.
#[derive(Debug, Clone, Copy, PartialEq, Eq, Structural)]
pub struct LocalZone {
    pub addr: usize,
    pub bits: u32,
}

impl Zone for LocalZone {
    open spec fn addr(&self) -> usize {
        self.addr
    }

    open spec fn bits(&self) -> u32 {
        self.bits
    }

    fn from_zone_ptr(addr: usize) -> (zone: Self)
        ensures
            zone.bits == 0,
    {
        LocalZone { addr, bits: 0 }
    }

    fn cur_value(&self) -> (bits: u32) {
        self.bits
    }

    fn set_value(&mut self, bits: u32) {
        self.bits = bits;
    }
}

} // verus!
