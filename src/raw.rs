//! The release capability, the record that releases leave, and the
//! capability's implementation for a single owning handle.
use vstd::prelude::*;

use crate::order::{in_declaration_order, lemma_placed_at_root, placed};

verus! {

/// The positions of the handles given back so far, in the order in which
/// they went back.
///
/// Only the release of a single handle extends a record, and a record can
/// only be made empty by `clean`: no other code can write one. What a
/// grouping's release adds to it is therefore what its elements' releases
/// added, in the order in which they ran.
pub struct ReleaseLog {
    entries: Ghost<Seq<Seq<nat>>>,
}

impl ReleaseLog {
    /// The positions recorded so far, oldest first.
    pub closed spec fn logged(&self) -> Seq<Seq<nat>> {
        self.entries@
    }

    fn empty() -> (r: ReleaseLog)
        ensures
            r.logged() == Seq::<Seq<nat>>::empty(),
    {
        ReleaseLog { entries: Ghost(Seq::empty()) }
    }
}

/// A value that owns heap allocations through handles and can give them all
/// back to the allocator in one call.
///
/// A handle is moved into `clean`, so no handle can be released twice, nor
/// read once it has been released.
pub trait BoxRaw: Sized {
    /// The positions of the handles that `self` owns, in declaration order.
    spec fn release_order(&self) -> Seq<Seq<nat>>;

    /// The positions that `release_order` lists are in declaration order.
    proof fn lemma_release_order(&self)
        ensures
            in_declaration_order(self.release_order()),
    ;

    /// Gives back every handle that `self` owns. Each handle, as it goes,
    /// adds its position under `prefix` to `log`.
    fn clean_logged(self, prefix: Ghost<Seq<nat>>, log: &mut ReleaseLog)
        ensures
            final(log).logged() == old(log).logged() + placed(prefix@, self.release_order()),
    ;

    /// Gives back every handle that `self` owns, running the destructor of
    /// each pointee, and returns the record of what went back, in order.
    fn clean(self) -> (released: ReleaseLog)
        ensures
            released.logged() == self.release_order(),
    {
        let mut log = ReleaseLog::empty();
        proof {
            lemma_placed_at_root(self.release_order());
        }
        self.clean_logged(Ghost(Seq::empty()), &mut log);
        log
    }
}

/// An owning handle: releasing it drops the pointee and frees its memory.
impl<X> BoxRaw for Box<X> {
    open spec fn release_order(&self) -> Seq<Seq<nat>> {
        seq![Seq::empty()]
    }

    proof fn lemma_release_order(&self) {
    }

    fn clean_logged(self, prefix: Ghost<Seq<nat>>, log: &mut ReleaseLog) {
        let ghost start = log.logged();
        log.entries = Ghost(log.entries@.push(prefix@));
        proof {
            assert(self.release_order() == seq![Seq::<nat>::empty()]);
            assert(log.logged() =~= start + placed(prefix@, self.release_order()));
        }
        // The box goes out of scope here: its pointee's destructor runs and
        // its memory goes back to the allocator.
    }
}

} // verus!
