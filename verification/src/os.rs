//! What the operating system reports about processes.

use vstd::prelude::*;

pub mod linux;

verus! {

/// Identity of a process at the time of a scan.
#[derive(Debug, PartialEq, Eq, Hash)]
pub struct ProcessInfo {
    pub name: String,
    pub pid: u32,
}

/// Mathematical value of a [`ProcessInfo`].
pub struct ProcessInfoView {
    pub name: Seq<char>,
    pub pid: u32,
}

impl View for ProcessInfo {
    type V = ProcessInfoView;

    open spec fn view(&self) -> ProcessInfoView {
        ProcessInfoView { name: self.name@, pid: self.pid }
    }
}

impl ProcessInfo {
    /// Records a process by its short command name and its id.
    pub fn new(name: &str, pid: u32) -> (info: Self)
        ensures
            info@ == (ProcessInfoView { name: name@, pid }),
    {
        ProcessInfo { name: name.to_owned(), pid }
    }
}

impl Clone for ProcessInfo {
    fn clone(&self) -> (copy: Self)
        ensures
            copy@ == self@,
    {
        ProcessInfo { name: self.name.clone(), pid: self.pid }
    }
}

} // verus!
