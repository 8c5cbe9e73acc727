//! Read-only memory mapped into the address space.
use vstd::prelude::*;

use crate::bus::{Bstate, Bus, BusView};
use crate::device::Device;

verus! {

/// The abstract state of a ROM.
#[verifier::ext_equal]
pub struct RomView {
    pub data: Seq<u8>,
    pub end: u16,
    pub start: u16,
}

impl RomView {
    /// True if logical address `addr` is in the ROM's address range.
    pub open spec fn in_range(self, addr: u16) -> bool {
        self.start <= addr <= self.end
    }

    /// The byte at logical address `addr`, or zero outside the ROM's range or past its
    /// data.
    pub open spec fn get(self, addr: u16) -> u8 {
        if self.in_range(addr) && addr - self.start < self.data.len() {
            self.data[addr - self.start]
        } else {
            0
        }
    }

    /// The ROM's response to the bus in one cycle: any memory request in range, read or
    /// write, puts the ROM byte on the data bus.
    pub open spec fn respond(self, bus: BusView) -> BusView {
        if bus.mem && self.in_range(bus.addr) {
            bus.request(seq![Bstate::Data(self.get(bus.addr))])
        } else {
            bus
        }
    }
}

/// A system ROM.
#[derive(Debug)]
pub struct Rom {
    /// Holds the ROM data.
    pub data: Vec<u8>,
    /// The last logical address mapped to this ROM.
    pub end: u16,
    /// The first logical address mapped to this ROM.
    pub start: u16,
}

impl View for Rom {
    type V = RomView;

    open spec fn view(&self) -> RomView {
        RomView { data: self.data@, end: self.end, start: self.start }
    }
}

impl Device for Rom {
    /// Responds to a memory request if the [`Bus::mem`] line is active.
    fn tick(&mut self, bus: &mut Bus)
        ensures
            final(self)@ == old(self)@,
            final(bus)@ == old(self)@.respond(old(bus)@),
    {
        self.serve(bus);
    }
}

impl Rom {
    /// Puts the ROM byte at the bus address on the data bus, if a memory request is in
    /// the ROM's range.
    pub fn serve(&self, bus: &mut Bus)
        ensures
            final(bus)@ == self@.respond(old(bus)@),
    {
        if bus.mem && self.in_range(bus.addr) {
            let data = self.get(bus.addr);
            bus.write_data(data);
        }
    }

    /// Returns the byte at logical address `addr`.
    ///
    /// Returns zero if the address is outside the ROM's range or past its data.
    pub fn get(&self, addr: u16) -> (r: u8)
        ensures
            r == self@.get(addr),
    {
        if self.in_range(addr) {
            let phys_addr = addr - self.start;
            if (phys_addr as usize) < self.data.len() {
                return self.data[phys_addr as usize];
            }
        }
        0
    }

    /// Returns true if logical address `addr` is in the ROM's address range.
    pub fn in_range(&self, addr: u16) -> (r: bool)
        ensures
            r == self@.in_range(addr),
    {
        self.start <= addr && addr <= self.end
    }
}

} // verus!
