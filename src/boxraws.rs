//! A named wrapper that makes one releasable unit of a grouping.
use vstd::prelude::*;

use crate::raw::{BoxRaw, ReleaseLog};

verus! {

/// A grouping of handles under a name of its own. Releasing the wrapper
/// releases the grouping it holds, exactly as releasing the grouping would.
pub struct BoxRaws<X: BoxRaw>(pub X);

impl<X: BoxRaw> BoxRaws<X> {
    /// Wraps `raws`; nothing is checked or released.
    pub fn new(raws: X) -> (r: Self)
        ensures
            r.0 == raws,
            r.release_order() == raws.release_order(),
    {
        BoxRaws(raws)
    }
}

impl<X: BoxRaw> BoxRaw for BoxRaws<X> {
    open spec fn release_order(&self) -> Seq<Seq<nat>> {
        self.0.release_order()
    }

    proof fn lemma_release_order(&self) {
        self.0.lemma_release_order();
    }

    fn clean_logged(self, prefix: Ghost<Seq<nat>>, log: &mut ReleaseLog) {
        self.0.clean_logged(prefix, log);
    }
}

} // verus!
