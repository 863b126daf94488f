//! What the operating system calls things.

use vstd::prelude::*;

verus! {

/// The number of a window.
pub type WinID = i32;

/// The number of a process.
pub type Pid = i32;

/// The number of a display.
pub type DisplayID = u32;

/// The number under which the system knows a process.
#[derive(Clone, Copy, Debug, PartialEq, Eq, Structural)]
pub struct ProcessSerialNumber {
    pub high: u32,
    pub low: u32,
}

impl ProcessSerialNumber {
    /// The two halves as one number.
    pub open spec fn number(self) -> int {
        self.high * 0x1_0000_0000 + self.low
    }

    /// The two halves as one number, which no other process has.
    pub fn key(&self) -> (key: u64)
        ensures
            key == self.number(),
    {
        self.high as u64 * 0x1_0000_0000 + self.low as u64
    }
}

/// Two processes with one number are one process.
pub proof fn lemma_number_identifies(a: ProcessSerialNumber, b: ProcessSerialNumber)
    requires
        a.number() == b.number(),
    ensures
        a == b,
{
}

/// A process that runs, with the observer that watches over its launch.
#[derive(Clone, Copy, Debug, PartialEq, Eq, Structural)]
pub struct Process {
    pub psn: ProcessSerialNumber,
    /// Stands for the observer.
    pub observer: u64,
}

/// An application, which has windows.
#[derive(Clone, Copy, Debug, PartialEq, Eq, Structural)]
pub struct Application {
    /// Stands for the application.
    pub handle: u64,
}

/// A window that is not managed yet.
#[derive(Clone, Copy, Debug, PartialEq, Eq, Structural)]
pub struct Window {
    pub id: WinID,
    /// Stands for the window.
    pub handle: u64,
}

/// The number of a process is its upper half and its lower half.
pub proof fn law_number_of_process(psn: ProcessSerialNumber)
    ensures
        psn.number() == psn.high * 4_294_967_296 + psn.low,
{
}

} // verus!
