//! Placing frames in the modules of a crash: which module holds an address,
//! at which offset, and what a frame's status is when it cannot be placed.
use vstd::prelude::*;

verus! {

/// A module loaded at `image_addr`, spanning `image_size` bytes, whose object
/// was found or not.
#[derive(Clone, Copy, Debug, PartialEq, Eq, Structural)]
pub struct ModuleRange {
    pub image_addr: u64,
    pub image_size: u64,
    pub available: bool,
}

pub open spec fn holds(m: ModuleRange, addr: u64) -> bool {
    m.image_addr <= addr && (addr - m.image_addr) < m.image_size
}

/// Where a frame stands before its symbol is looked up.
#[derive(Clone, Copy, Debug, PartialEq, Eq, Structural)]
pub enum FramePlacement {
    /// No module holds the address.
    Missing,
    /// The module that holds it has no object.
    UnknownImage,
    /// Module `module` holds it, at offset `offset` from its start.
    InModule { module: usize, offset: u64 },
}

/// Places an instruction address: in the first module that holds it.
pub fn place_frame(modules: &Vec<ModuleRange>, addr: u64) -> (r: FramePlacement)
    ensures
        match r {
            FramePlacement::Missing => forall|j: int| 0 <= j < modules@.len() ==> !holds(#[trigger] modules@[j], addr),
            FramePlacement::UnknownImage => exists|i: int|
                0 <= i < modules@.len() && holds(modules@[i], addr) && !modules@[i].available && forall|j: int|
                    0 <= j < i ==> !holds(#[trigger] modules@[j], addr),
            FramePlacement::InModule { module, offset } => {
                &&& module < modules@.len()
                &&& holds(modules@[module as int], addr)
                &&& modules@[module as int].available
                &&& offset == addr - modules@[module as int].image_addr
                &&& forall|j: int| 0 <= j < module ==> !holds(#[trigger] modules@[j], addr)
            },
        },
{
    let mut i: usize = 0;
    while i < modules.len()
        invariant
            i <= modules@.len(),
            forall|j: int| 0 <= j < i ==> !holds(#[trigger] modules@[j], addr),
        decreases modules@.len() - i,
    {
        let m = modules[i];
        if m.image_addr <= addr && addr - m.image_addr < m.image_size {
            if m.available {
                return FramePlacement::InModule { module: i, offset: addr - m.image_addr };
            } else {
                return FramePlacement::UnknownImage;
            }
        }
        i = i + 1;
    }
    FramePlacement::Missing
}

} // verus!
