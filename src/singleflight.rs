//! The single-flight table: for each cache key at most one computation runs,
//! and every other caller for that key waits for it.
use vstd::prelude::*;

use crate::text::str_eq;

verus! {

/// What a caller that asks for a key does.
#[derive(Clone, Copy, Debug, PartialEq, Eq, Structural)]
pub enum Join {
    /// No computation runs for the key: this caller runs it.
    Compute,
    /// A computation runs for the key: this caller waits for its result.
    Wait,
}

/// The answer to a caller that asks for `key` while `running` holds the keys
/// being computed.
pub open spec fn join_of(running: Set<Seq<char>>, key: Seq<char>) -> Join {
    if running.contains(key) {
        Join::Wait
    } else {
        Join::Compute
    }
}

/// The keys whose computation runs.
pub struct InFlight {
    keys: Vec<String>,
}

impl View for InFlight {
    type V = Set<Seq<char>>;

    closed spec fn view(&self) -> Set<Seq<char>> {
        Set::new(|k: Seq<char>| exists|i: int| 0 <= i < self.keys@.len() && self.keys@[i]@ == k)
    }
}

impl InFlight {
    pub closed spec fn wf(&self) -> bool {
        forall|i: int, j: int|
            0 <= i < j < self.keys@.len() ==> self.keys@[i]@ != self.keys@[j]@
    }

    pub fn new() -> (r: InFlight)
        ensures
            r.wf(),
            r@ == Set::<Seq<char>>::empty(),
    {
        let r = InFlight { keys: Vec::new() };
        assert(r@ =~= Set::<Seq<char>>::empty());
        r
    }

    fn find(&self, key: &str) -> (r: Option<usize>)
        ensures
            match r {
                Some(i) => i < self.keys@.len() && self.keys@[i as int]@ == key@,
                None => forall|j: int| 0 <= j < self.keys@.len() ==> self.keys@[j]@ != key@,
            },
    {
        let mut i: usize = 0;
        while i < self.keys.len()
            invariant
                i <= self.keys@.len(),
                forall|j: int| 0 <= j < i ==> self.keys@[j]@ != key@,
            decreases self.keys@.len() - i,
        {
            if str_eq(self.keys[i].as_str(), key) {
                return Some(i);
            }
            i = i + 1;
        }
        None
    }

    /// Whether a computation runs for `key`.
    pub fn is_running(&self, key: &str) -> (r: bool)
        ensures
            r == self@.contains(key@),
    {
        match self.find(key) {
            Some(_) => true,
            None => false,
        }
    }

    /// A caller asks for `key`: it computes if nobody does, and the key is then running.
    pub fn begin(&mut self, key: &str) -> (r: Join)
        requires
            old(self).wf(),
        ensures
            final(self).wf(),
            r == join_of(old(self)@, key@),
            final(self)@ == old(self)@.insert(key@),
    {
        match self.find(key) {
            Some(_) => {
                assert(self@ =~= self@.insert(key@));
                Join::Wait
            },
            None => {
                let ghost before = self@;
                let ghost old_keys = self.keys@;
                self.keys.push(key.to_string());
                assert(self.keys@.last()@ == key@);
                assert(forall|j: int| 0 <= j < old_keys.len() ==> self.keys@[j] == old_keys[j]);
                assert(self@ =~= before.insert(key@)) by {
                    assert forall|k: Seq<char>| #[trigger] before.insert(key@).contains(k) implies self@.contains(k) by {
                        if k != key@ {
                            let i = choose|i: int| 0 <= i < old_keys.len() && old_keys[i]@ == k;
                            assert(self.keys@[i]@ == k);
                        } else {
                            assert(self.keys@[self.keys@.len() - 1]@ == k);
                        }
                    }
                    assert forall|k: Seq<char>| #[trigger] self@.contains(k) implies before.insert(key@).contains(k) by {
                        let i = choose|i: int| 0 <= i < self.keys@.len() && self.keys@[i]@ == k;
                        if i < old_keys.len() {
                            assert(old_keys[i]@ == k);
                        }
                    }
                }
                Join::Compute
            },
        }
    }

    /// The computation for `key` has ended; the next caller computes again.
    pub fn finish(&mut self, key: &str)
        requires
            old(self).wf(),
        ensures
            final(self).wf(),
            final(self)@ == old(self)@.remove(key@),
    {
        if let Some(i) = self.find(key) {
            let ghost before = self.keys@;
            self.keys.remove(i);
            assert(self@ =~= old(self)@.remove(key@)) by {
                assert forall|k: Seq<char>| #[trigger] self@.contains(k) implies old(self)@.remove(key@).contains(k) by {
                    let j = choose|j: int| 0 <= j < self.keys@.len() && self.keys@[j]@ == k;
                    if j < i {
                        assert(before[j]@ == k);
                    } else {
                        assert(before[j + 1]@ == k);
                    }
                }
                assert forall|k: Seq<char>| #[trigger] old(self)@.remove(key@).contains(k) implies self@.contains(k) by {
                    let j = choose|j: int| 0 <= j < before.len() && before[j]@ == k;
                    if j < i {
                        assert(self.keys@[j]@ == k);
                    } else {
                        assert(self.keys@[j - 1]@ == k);
                    }
                }
            }
        } else {
            assert(self@ =~= old(self)@.remove(key@));
        }
    }
}

/// While a key's computation runs, every further caller for that key waits:
/// two computations of one key never overlap.
pub proof fn lemma_single_flight(running: Set<Seq<char>>, key: Seq<char>)
    ensures
        join_of(running.insert(key), key) == Join::Wait,
        join_of(running.insert(key).remove(key), key) == Join::Compute,
{
}

} // verus!
