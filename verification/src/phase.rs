//! The coarse phase of the CPU's instruction cycle.
use vstd::prelude::*;

verus! {

/// The phase of the CPU.
#[non_exhaustive]
#[derive(Clone, Copy, Debug, PartialEq, Eq, Structural)]
pub enum Phase {
    /// Decodes the opcode on the data bus.
    Decode,
    /// Executes the current instruction.
    Execute,
    /// Requests the next opcode from memory.
    Fetch,
    /// Waits for memory to respond.
    MemWait,
}

/// The four-letter label of a phase.
pub open spec fn phase_label(p: Phase) -> Seq<char> {
    match p {
        Phase::Decode => "DCOD"@,
        Phase::Execute => "EXEC"@,
        Phase::Fetch => "FTCH"@,
        Phase::MemWait => "WAIT"@,
    }
}

impl Default for Phase {
    /// A CPU starts by fetching.
    fn default() -> (p: Phase)
        ensures
            p == Phase::Fetch,
    {
        Phase::Fetch
    }
}

impl Phase {
    /// The phase's four-letter label, as shown in traces.
    pub fn label(&self) -> (s: &'static str)
        ensures
            s@ == phase_label(*self),
    {
        match *self {
            Phase::Decode => "DCOD",
            Phase::Execute => "EXEC",
            Phase::Fetch => "FTCH",
            Phase::MemWait => "WAIT",
        }
    }
}

} // verus!
