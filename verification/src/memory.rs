//! The system RAM.
use vstd::prelude::*;

use crate::bus::{
    lemma_read_request_reconciled, lemma_write_request_reconciled, read_request, write_request,
    Bstate, Bus, BusView,
};
use crate::device::Device;

verus! {

/// The abstract state of a memory: its bytes and the logical address range mapped to
/// it.
#[verifier::ext_equal]
pub struct MemoryView {
    pub data: Seq<u8>,
    pub end: u16,
    pub start: u16,
}

impl MemoryView {
    /// True if `addr` is in the memory's address range and there is a byte of data for
    /// it.
    pub open spec fn backs(self, addr: u16) -> bool {
        self.in_range(addr) && addr - self.start < self.data.len()
    }

    /// The byte at logical address `addr`, or zero outside the range or past the data.
    pub open spec fn get(self, addr: u16) -> u8 {
        if self.backs(addr) {
            self.data[addr - self.start]
        } else {
            0
        }
    }

    /// The memory after storing `val` at logical address `addr` (no change outside the
    /// range or past the data).
    pub open spec fn set(self, addr: u16, val: u8) -> MemoryView {
        if self.backs(addr) {
            MemoryView { data: self.data.update(addr - self.start, val), ..self }
        } else {
            self
        }
    }

    /// True if `addr` is in the memory's address range.
    pub open spec fn in_range(self, addr: u16) -> bool {
        self.start <= addr <= self.end
    }

    /// The memory's response to the bus in one cycle: a read request in range puts the
    /// byte on the data bus, a write request in range stores the data bus value.
    pub open spec fn respond(self, bus: BusView) -> (MemoryView, BusView) {
        if bus.mem && self.in_range(bus.addr) {
            if !bus.write {
                (self, bus.request(seq![crate::bus::Bstate::Data(self.get(bus.addr))]))
            } else {
                (self.set(bus.addr, bus.data), bus)
            }
        } else {
            (self, bus)
        }
    }
}

/// Why a load into memory failed.
#[derive(Debug, Clone, Copy, PartialEq, Eq, Structural)]
pub enum LoadError {
    /// The load address is outside the memory's address range.
    OutOfRange,
    /// The end of the loaded data overflows the address computation.
    DataTooLong,
    /// The loaded data runs past the end of the memory.
    OutOfBounds,
}

/// The system memory.
#[non_exhaustive]
#[derive(Debug)]
pub struct Memory {
    pub data: Vec<u8>,
    pub end: u16,
    pub start: u16,
}

impl View for Memory {
    type V = MemoryView;

    open spec fn view(&self) -> MemoryView {
        MemoryView { data: self.data@, end: self.end, start: self.start }
    }
}

impl Default for Memory {
    /// 48KiB of zeroed RAM at logical addresses 0x0000-0xBFFF.
    fn default() -> (m: Memory)
        ensures
            m@.start == 0x0000,
            m@.end == 0xBFFF,
            m@.data == Seq::new(0xC000, |i: int| 0u8),
    {
        let mut data: Vec<u8> = Vec::new();
        let mut i: usize = 0;
        while i < 0xC000
            invariant
                i <= 0xC000,
                data@ == Seq::new(i as nat, |j: int| 0u8),
            decreases 0xC000 - i,
        {
            data.push(0);
            i = i + 1;
            assert(data@ =~= Seq::new(i as nat, |j: int| 0u8));
        }
        Memory { start: 0x0000, end: 0xBFFF, data }
    }
}

impl Device for Memory {
    /// Responds to a memory request if the [`Bus::mem`] line is active.
    fn tick(&mut self, bus: &mut Bus)
        ensures
            (final(self)@, final(bus)@) == old(self)@.respond(old(bus)@),
    {
        if bus.mem && self.in_range(bus.addr) {
            if !bus.write {
                // Memory read request
                let data = self.get(bus.addr);
                bus.write_data(data);
            } else {
                // Memory write request
                self.set(bus.addr, bus.data);
            }
        }
    }
}

impl Memory {
    /// Returns the byte at address `addr`.
    ///
    /// Returns zero if the address is outside the configured memory range.
    pub fn get(&self, log_addr: u16) -> (r: u8)
        ensures
            r == self@.get(log_addr),
    {
        if self.start <= log_addr && log_addr <= self.end {
            let addr = log_addr - self.start;
            if (addr as usize) < self.data.len() {
                return self.data[addr as usize];
            }
        }
        0
    }

    /// Returns true if `addr` is in the memory's address range.
    pub fn in_range(&self, addr: u16) -> (r: bool)
        ensures
            r == self@.in_range(addr),
    {
        self.start <= addr && addr <= self.end
    }

    /// Loads `data` into memory at address `addr`.
    ///
    /// # Errors
    ///
    /// If the address is out of range, or the data runs past the end of memory.
    pub fn load(&mut self, log_addr: u16, data: &[u8]) -> (r: Result<(), LoadError>)
        ensures
            !old(self)@.in_range(log_addr) ==> r == Err::<(), LoadError>(LoadError::OutOfRange)
                && final(self)@ == old(self)@,
            old(self)@.in_range(log_addr) ==> {
                let start = (log_addr - old(self).start) as int;
                let end = start + data@.len();
                &&& end > usize::MAX ==> r == Err::<(), LoadError>(LoadError::DataTooLong)
                    && final(self)@ == old(self)@
                &&& end <= usize::MAX && end > old(self)@.data.len() ==> r == Err::<(), LoadError>(
                    LoadError::OutOfBounds,
                ) && final(self)@ == old(self)@
                &&& end <= old(self)@.data.len() ==> r is Ok && final(self)@ == MemoryView {
                    data: old(self)@.data.subrange(0, start) + data@ + old(self)@.data.subrange(
                        end,
                        old(self)@.data.len() as int,
                    ),
                    ..old(self)@
                }
            },
    {
        if !self.in_range(log_addr) {
            return Err(LoadError::OutOfRange);
        }
        let addr = log_addr - self.start;
        let start = addr as usize;
        let len = self.data.len();
        let end = match start.checked_add(data.len()) {
            Some(end) => end,
            None => return Err(LoadError::DataTooLong),
        };
        if end > len {
            return Err(LoadError::OutOfBounds);
        }
        let ghost old_data = self.data@;
        let mut i: usize = 0;
        while i < data.len()
            invariant
                start + data@.len() == end,
                end <= self.data@.len(),
                i <= data@.len(),
                self.data@.len() == old_data.len(),
                self.start == old(self).start,
                self.end == old(self).end,
                forall|j: int| 0 <= j < start ==> self.data@[j] == old_data[j],
                forall|j: int| end <= j < old_data.len() ==> self.data@[j] == old_data[j],
                forall|j: int| 0 <= j < i ==> self.data@[start + j] == data@[j],
                forall|j: int| start + i <= j < end ==> self.data@[j] == old_data[j],
            decreases data.len() - i,
        {
            self.data.set(start + i, data[i]);
            i = i + 1;
        }
        assert(self.data@ =~= old_data.subrange(0, start as int) + data@ + old_data.subrange(
            end as int,
            old_data.len() as int,
        ));
        Ok(())
    }

    /// Sets the byte at address `addr` to `val`.
    ///
    /// If `addr` is out of range, this has no effect.
    pub fn set(&mut self, log_addr: u16, val: u8)
        ensures
            final(self)@ == old(self)@.set(log_addr, val),
    {
        if self.start <= log_addr && log_addr <= self.end {
            let addr = log_addr - self.start;
            if (addr as usize) < self.data.len() {
                self.data.set(addr as usize, val);
            }
        }
    }
}

/// Reading an address gives back the last byte stored there.
pub proof fn lemma_memory_set_get(m: MemoryView, addr: u16, val: u8, other: u16)
    requires
        m.backs(addr),
    ensures
        m.set(addr, val).get(addr) == val,
        other != addr ==> m.set(addr, val).get(other) == m.get(other),
{
}

/// After a successful load, each loaded byte reads back at its address.
pub proof fn lemma_memory_load_get(m: MemoryView, addr: u16, data: Seq<u8>, i: int)
    requires
        m.in_range(addr),
        (addr - m.start) + data.len() <= m.data.len(),
        0 <= i < data.len(),
        addr + i <= m.end,
    ensures
        ({
            let start = (addr - m.start) as int;
            let end = start + data.len();
            let loaded = MemoryView {
                data: m.data.subrange(0, start) + data + m.data.subrange(end, m.data.len() as int),
                ..m
            };
            loaded.get((addr + i) as u16) == data[i]
        }),
{
}

/// A byte written to memory over the bus reads back over the bus: a write request,
/// reconciled and served by the memory, stores the value; a read request at the same
/// address, reconciled and served, puts it on the data bus and changes no memory.
pub proof fn lemma_bus_write_then_read(m: MemoryView, bus: BusView, addr: u16, val: u8)
    requires
        bus.pending is None,
        m.backs(addr),
    ensures
        ({
            let b1 = bus.request(write_request(addr, val)).reconciled();
            let (m1, b2) = m.respond(b1);
            let b3 = b2.request(read_request(addr)).reconciled();
            let (m2, b4) = m1.respond(b3);
            &&& m1.get(addr) == val
            &&& m2 == m1
            &&& b4.reconciled().data == val
        }),
{
    lemma_write_request_reconciled(bus, addr, val);
    let b1 = bus.request(write_request(addr, val)).reconciled();
    let (m1, b2) = m.respond(b1);
    lemma_memory_set_get(m, addr, val, addr);
    lemma_read_request_reconciled(b2, addr);
    let b3 = b2.request(read_request(addr)).reconciled();
    let (m2, b4) = m1.respond(b3);
    assert(b4 == b3.request(seq![Bstate::Data(val)]));
    reveal_with_fuel(BusView::apply_all, 2);
}

} // verus!
