//! Choosing the object for a module among the candidates that the sources
//! offered.
use vstd::prelude::*;

verus! {

/// What a module's object is needed for.
#[derive(Clone, Copy, Debug, PartialEq, Eq, Structural)]
pub enum ObjectPurpose {
    Debug,
    Unwind,
    Source,
}

/// What parsing an object's headers tells of it.
#[derive(Clone, Copy, Debug, PartialEq, Eq, Structural)]
pub struct ObjectFeatures {
    pub has_debug_info: bool,
    pub has_unwind_info: bool,
    pub has_sources: bool,
}

pub open spec fn serves(f: ObjectFeatures, purpose: ObjectPurpose) -> bool {
    match purpose {
        ObjectPurpose::Debug => f.has_debug_info,
        ObjectPurpose::Unwind => f.has_unwind_info,
        ObjectPurpose::Source => f.has_sources,
    }
}

/// Whether an object with these features serves `purpose`.
pub fn has_feature(f: ObjectFeatures, purpose: ObjectPurpose) -> (r: bool)
    ensures
        r == serves(f, purpose),
{
    match purpose {
        ObjectPurpose::Debug => f.has_debug_info,
        ObjectPurpose::Unwind => f.has_unwind_info,
        ObjectPurpose::Source => f.has_sources,
    }
}

/// What became of one candidate, in the order of sources, then of file types.
#[derive(Clone, Copy, Debug, PartialEq, Eq, Structural)]
pub enum Candidate {
    /// The source does not hold it (a negative entry, or a confirmed miss).
    Absent,
    /// The source failed for this request.
    Failed,
    /// Downloaded and parsed, with these features.
    Found(ObjectFeatures),
}

pub open spec fn usable(c: Candidate, purpose: ObjectPurpose) -> bool {
    match c {
        Candidate::Found(f) => serves(f, purpose),
        _ => false,
    }
}

/// The candidate to use: the first that was found and serves `purpose`, or
/// none when no candidate does.
pub fn choose_object(candidates: &Vec<Candidate>, purpose: ObjectPurpose) -> (r: Option<usize>)
    ensures
        match r {
            Some(i) => i < candidates@.len() && usable(candidates@[i as int], purpose) && forall|j: int|
                0 <= j < i ==> !usable(#[trigger] candidates@[j], purpose),
            None => forall|j: int| 0 <= j < candidates@.len() ==> !usable(#[trigger] candidates@[j], purpose),
        },
{
    let mut i: usize = 0;
    while i < candidates.len()
        invariant
            i <= candidates@.len(),
            forall|j: int| 0 <= j < i ==> !usable(#[trigger] candidates@[j], purpose),
        decreases candidates@.len() - i,
    {
        if let Candidate::Found(f) = candidates[i] {
            if has_feature(f, purpose) {
                return Some(i);
            }
        }
        i = i + 1;
    }
    None
}

} // verus!
