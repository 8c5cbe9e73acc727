//! The system bus: address and data lines, the `/MEM` and `/WR` control lines, and the
//! pending write that the first device to drive the bus in a cycle sets.
use vstd::prelude::*;

use crate::text::string_from;

verus! {

/// A desired or asserted bus state.
#[non_exhaustive]
#[derive(Clone, Copy, Debug, PartialEq, Eq, Structural)]
pub enum Bstate {
    /// Address bus value.
    Addr(u16),
    /// Data bus value.
    Data(u8),
    /// `/MEM` line state.
    Mem(bool),
    /// `/WR` line state.
    Write(bool),
}

/// The abstract state of the bus.
#[verifier::ext_equal]
pub struct BusView {
    pub addr: u16,
    pub data: u8,
    pub debug: bool,
    pub mem: bool,
    pub pending: Option<Seq<Bstate>>,
    pub write: bool,
}

impl BusView {
    /// The bus after a device asks to drive it with `states`: the request is taken only
    /// if no other device has driven the bus in this cycle ("bus grant" arbitration).
    pub open spec fn request(self, states: Seq<Bstate>) -> BusView {
        if self.pending is None {
            BusView { pending: Some(states), ..self }
        } else {
            self
        }
    }

    /// The bus with a memory read of `addr` driven at once, outside any cycle, and no
    /// request pending.
    pub open spec fn driven_read(self, addr: u16) -> BusView {
        BusView { addr, mem: true, write: false, pending: None, ..self }
    }

    /// The bus with the single line or value `s` driven.
    pub open spec fn apply(self, s: Bstate) -> BusView {
        match s {
            Bstate::Addr(a) => BusView { addr: a, ..self },
            Bstate::Data(d) => BusView { data: d, ..self },
            Bstate::Mem(m) => BusView { mem: m, ..self },
            Bstate::Write(w) => BusView { write: w, ..self },
        }
    }

    /// The bus with each of `states` driven in turn.
    pub open spec fn apply_all(self, states: Seq<Bstate>) -> BusView
        decreases states.len(),
    {
        if states.len() == 0 {
            self
        } else {
            self.apply(states[0]).apply_all(states.drop_first())
        }
    }

    /// The bus at the end of a cycle: any pending write applied, and none pending.
    pub open spec fn reconciled(self) -> BusView {
        match self.pending {
            Some(states) => BusView { pending: None, ..self }.apply_all(states),
            None => self,
        }
    }

    /// True if the bus shows state `s`.
    pub open spec fn holds(self, s: Bstate) -> bool {
        match s {
            Bstate::Addr(a) => self.addr == a,
            Bstate::Data(d) => self.data == d,
            Bstate::Mem(m) => self.mem == m,
            Bstate::Write(w) => self.write == w,
        }
    }

    /// The bus's current value of the line or lines that `s` describes.
    pub open spec fn current(self, s: Bstate) -> Bstate {
        match s {
            Bstate::Addr(_) => Bstate::Addr(self.addr),
            Bstate::Data(_) => Bstate::Data(self.data),
            Bstate::Mem(_) => Bstate::Mem(self.mem),
            Bstate::Write(_) => Bstate::Write(self.write),
        }
    }
}

/// The request that reads memory at `addr`.
pub open spec fn read_request(addr: u16) -> Seq<Bstate> {
    seq![Bstate::Addr(addr), Bstate::Mem(true), Bstate::Write(false)]
}

/// The request that writes `val` to memory at `addr`.
pub open spec fn write_request(addr: u16, val: u8) -> Seq<Bstate> {
    seq![Bstate::Addr(addr), Bstate::Data(val), Bstate::Mem(true), Bstate::Write(true)]
}

/// The system bus.
#[non_exhaustive]
#[derive(Debug)]
pub struct Bus {
    /// The 16-bit address bus.
    pub addr: u16,
    /// The 8-bit data bus.
    pub data: u8,
    /// Enables verbose debugging.
    pub debug: bool,
    /// CPU 'memory request' line.
    pub mem: bool,
    /// A possible pending write to the bus state during the current cycle.
    pub pending_write: Option<Vec<Bstate>>,
    /// CPU 'write request' line.
    pub write: bool,
}

impl View for Bus {
    type V = BusView;

    open spec fn view(&self) -> BusView {
        BusView {
            addr: self.addr,
            data: self.data,
            debug: self.debug,
            mem: self.mem,
            pending: match self.pending_write {
                Some(v) => Some(v@),
                None => None,
            },
            write: self.write,
        }
    }
}

impl Default for Bus {
    /// An idle bus: all lines low, nothing pending.
    fn default() -> (b: Bus)
        ensures
            b@ == (BusView {
                addr: 0,
                data: 0,
                debug: false,
                mem: false,
                pending: None,
                write: false,
            }),
    {
        Bus { addr: 0, data: 0, debug: false, mem: false, pending_write: None, write: false }
    }
}

impl Clone for Bus {
    /// A copy of the bus, pending write included.
    fn clone(&self) -> (b: Bus)
        ensures
            b@ == self@,
    {
        let pending_write = match &self.pending_write {
            Some(v) => {
                let c = v.clone();
                assert(c@ =~= v@);
                Some(c)
            },
            None => None,
        };
        Bus {
            addr: self.addr,
            data: self.data,
            debug: self.debug,
            mem: self.mem,
            pending_write,
            write: self.write,
        }
    }
}

/// The bus disagreed with an asserted state.
#[derive(Debug)]
pub struct BusMismatch {
    /// The asserted state.
    pub want: Bstate,
    /// What the bus showed for the same line or lines.
    pub got: Bstate,
    /// The message that went with the assertion.
    pub msg: String,
}

impl Bus {
    /// Drives the bus with `states`, unless another device already has in this cycle.
    fn request(&mut self, states: Vec<Bstate>)
        ensures
            final(self)@ == old(self)@.request(states@),
    {
        if self.pending_write.is_none() {
            self.pending_write = Some(states);
        }
    }

    /// Sets the `/MEM` line inactive.
    pub fn disable_mem(&mut self)
        ensures
            final(self)@ == old(self)@.request(seq![Bstate::Mem(false)]),
    {
        let v = vec![Bstate::Mem(false)];
        assert(v@ =~= seq![Bstate::Mem(false)]);
        self.request(v);
    }

    /// Issues a memory read request for `addr`.
    pub fn read_mem(&mut self, addr: u16)
        ensures
            final(self)@ == old(self)@.request(read_request(addr)),
    {
        let v = vec![Bstate::Addr(addr), Bstate::Mem(true), Bstate::Write(false)];
        assert(v@ =~= read_request(addr));
        self.request(v);
    }

    /// Drives a memory read of `addr` onto the bus at once, cancelling any pending
    /// request: what a reset does between cycles.
    pub fn drive_read(&mut self, addr: u16)
        ensures
            final(self)@ == old(self)@.driven_read(addr),
    {
        self.pending_write = None;
        self.addr = addr;
        self.mem = true;
        self.write = false;
    }

    /// Puts `data` on the data bus.
    pub fn write_data(&mut self, data: u8)
        ensures
            final(self)@ == old(self)@.request(seq![Bstate::Data(data)]),
    {
        let v = vec![Bstate::Data(data)];
        assert(v@ =~= seq![Bstate::Data(data)]);
        self.request(v);
    }

    /// Issues a memory write request for `addr` with `val`.
    pub fn write_mem(&mut self, addr: u16, val: u8)
        ensures
            final(self)@ == old(self)@.request(write_request(addr, val)),
    {
        let v = vec![Bstate::Addr(addr), Bstate::Data(val), Bstate::Mem(true), Bstate::Write(true)];
        assert(v@ =~= write_request(addr, val));
        self.request(v);
    }

    /// Applies any pending write to the bus.
    pub fn reconcile(&mut self)
        ensures
            final(self)@ == old(self)@.reconciled(),
    {
        let pending = self.pending_write.take();
        if let Some(states) = pending {
            assert(states@.subrange(0, states@.len() as int) =~= states@);
            let mut i: usize = 0;
            while i < states.len()
                invariant
                    i <= states@.len(),
                    self.pending_write is None,
                    old(self)@.reconciled() == self@.apply_all(states@.subrange(i as int, states@.len() as int)),
                decreases states.len() - i,
            {
                let ghost before = self@;
                match states[i] {
                    Bstate::Addr(addr) => self.addr = addr,
                    Bstate::Data(data) => self.data = data,
                    Bstate::Mem(mem) => self.mem = mem,
                    Bstate::Write(wr) => self.write = wr,
                }
                assert(states@.subrange(i as int, states@.len() as int).drop_first()
                    =~= states@.subrange(i + 1, states@.len() as int));
                assert(self@ == before.apply(states@[i as int]));
                i = i + 1;
            }
            assert(states@.subrange(i as int, states@.len() as int) =~= Seq::<Bstate>::empty());
        }
    }

    /// Asserts all the given bus states.
    ///
    /// # Errors
    ///
    /// On the first failed assertion: the asserted state and what the bus showed.
    pub fn assert_states(&self, states: &[Bstate], msg: &str) -> (r: Result<(), BusMismatch>)
        ensures
            r is Ok <==> forall|i: int| 0 <= i < states@.len() ==> self@.holds(#[trigger] states@[i]),
            r matches Err(e) ==> exists|i: int|
                0 <= i < states@.len() && !self@.holds(#[trigger] states@[i])
                && e.want == states@[i] && e.got == self@.current(states@[i])
                && (forall|j: int| 0 <= j < i ==> self@.holds(states@[j]))
                && e.msg@ == msg@,
    {
        let mut i: usize = 0;
        while i < states.len()
            invariant
                i <= states@.len(),
                forall|j: int| 0 <= j < i ==> self@.holds(#[trigger] states@[j]),
            decreases states.len() - i,
        {
            let want = states[i];
            let (ok, got) = match want {
                Bstate::Addr(addr) => (self.addr == addr, Bstate::Addr(self.addr)),
                Bstate::Data(data) => (self.data == data, Bstate::Data(self.data)),
                Bstate::Mem(mem) => (self.mem == mem, Bstate::Mem(self.mem)),
                Bstate::Write(wr) => (self.write == wr, Bstate::Write(self.write)),
            };
            if !ok {
                return Err(BusMismatch { want, got, msg: string_from(msg) });
            }
            i = i + 1;
        }
        Ok(())
    }
}

/// A device's request is taken only when the bus is free in this cycle: the first
/// device to drive the bus wins, and a later request in the same cycle changes nothing.
pub proof fn lemma_first_request_wins(bus: BusView, first: Seq<Bstate>, second: Seq<Bstate>)
    requires
        bus.pending is None,
    ensures
        bus.request(first).request(second) == bus.request(first),
        bus.request(first).pending == Some(first),
{
}

/// After a read request is reconciled, the address bus holds the address, `/MEM` is
/// active and `/WR` is inactive; the data bus is unchanged.
pub proof fn lemma_read_request_reconciled(bus: BusView, addr: u16)
    requires
        bus.pending is None,
    ensures
        bus.request(read_request(addr)).reconciled() == (BusView {
            addr,
            mem: true,
            write: false,
            pending: None,
            ..bus
        }),
{
    reveal_with_fuel(BusView::apply_all, 4);
}

/// After a write request is reconciled, the bus carries the address and the value with
/// `/MEM` and `/WR` active.
pub proof fn lemma_write_request_reconciled(bus: BusView, addr: u16, val: u8)
    requires
        bus.pending is None,
    ensures
        bus.request(write_request(addr, val)).reconciled() == (BusView {
            addr,
            data: val,
            mem: true,
            write: true,
            pending: None,
            ..bus
        }),
{
    reveal_with_fuel(BusView::apply_all, 5);
}

} // verus!
