use vstd::prelude::*;

verus! {

/// One value for each of the two schema snapshots being compared: the
/// previously observed snapshot and the desired next snapshot.
#[derive(Clone, Copy, Debug, PartialEq, Eq)]
pub struct Pair<T> {
    pub previous: T,
    pub next: T,
}

impl<T> Pair<T> {
    pub fn new(previous: T, next: T) -> (r: Pair<T>)
        ensures
            r.previous == previous,
            r.next == next,
    {
        Pair { previous, next }
    }
}

} // verus!
