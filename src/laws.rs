//! What holds of every release.
//!
//! `clean` returns the record of the handles it gave back, and its contract
//! says that the record is `release_order`. Only the release of a single
//! handle can extend a record, so that is the order in which the handles
//! went back. The lemmas below are what holds of that order.
use vstd::prelude::*;

use crate::boxraws::BoxRaws;
use crate::order::{
    handles, in_declaration_order, lemma_grouped_handles, lemma_in_order_no_duplicates,
};
use crate::raw::BoxRaw;

verus! {

/// Releasing any releasable value gives its handles back in declaration
/// order: left to right through each tuple, depth first through nested ones.
pub proof fn lemma_released_in_declaration_order<T: BoxRaw>(x: &T)
    ensures
        in_declaration_order(x.release_order()),
{
    x.lemma_release_order();
}

/// Releasing any releasable value gives back no handle twice.
pub proof fn lemma_released_at_most_once<T: BoxRaw>(x: &T)
    ensures
        x.release_order().no_duplicates(),
{
    x.lemma_release_order();
    lemma_in_order_no_duplicates(x.release_order());
}

/// Releasing a wrapped grouping gives back the same handles, in the same
/// order, as releasing the grouping itself.
pub proof fn lemma_wrapper_releases_as_grouping<X: BoxRaw>(g: X)
    ensures
        BoxRaws(g).release_order() == g.release_order(),
{
}

/// Releasing a single handle held in a tuple of one gives it back, once.
pub proof fn lemma_releases_one_handle<A>(g: &(Box<A>,))
    ensures
        g.release_order() == handles(1),
{
    lemma_grouped_handles(seq![g.0.release_order()]);
}

/// Releasing a tuple of two handles gives back all two, each once, in declaration order.
pub proof fn lemma_releases_two_handles<A, B>(g: &(Box<A>, Box<B>))
    ensures
        g.release_order() == handles(2),
{
    lemma_grouped_handles(seq![g.0.release_order(), g.1.release_order()]);
}

/// Releasing a tuple of three handles gives back all three, each once, in declaration order.
pub proof fn lemma_releases_three_handles<A, B, C>(g: &(Box<A>, Box<B>, Box<C>))
    ensures
        g.release_order() == handles(3),
{
    lemma_grouped_handles(seq![g.0.release_order(), g.1.release_order(), g.2.release_order()]);
}

/// Releasing a tuple of four handles gives back all four, each once, in declaration order.
pub proof fn lemma_releases_four_handles<A, B, C, D>(g: &(Box<A>, Box<B>, Box<C>, Box<D>))
    ensures
        g.release_order() == handles(4),
{
    lemma_grouped_handles(seq![
        g.0.release_order(),
        g.1.release_order(),
        g.2.release_order(),
        g.3.release_order(),
    ]);
}

/// Releasing a tuple of five handles gives back all five, each once, in declaration order.
pub proof fn lemma_releases_five_handles<A, B, C, D, E>(
    g: &(Box<A>, Box<B>, Box<C>, Box<D>, Box<E>),
)
    ensures
        g.release_order() == handles(5),
{
    lemma_grouped_handles(seq![
        g.0.release_order(),
        g.1.release_order(),
        g.2.release_order(),
        g.3.release_order(),
        g.4.release_order(),
    ]);
}

/// Releasing a tuple of six handles gives back all six, each once, in declaration order.
pub proof fn lemma_releases_six_handles<A, B, C, D, E, F>(
    g: &(Box<A>, Box<B>, Box<C>, Box<D>, Box<E>, Box<F>),
)
    ensures
        g.release_order() == handles(6),
{
    lemma_grouped_handles(seq![
        g.0.release_order(),
        g.1.release_order(),
        g.2.release_order(),
        g.3.release_order(),
        g.4.release_order(),
        g.5.release_order(),
    ]);
}

/// Releasing a tuple of seven handles gives back all seven, each once, in declaration order.
pub proof fn lemma_releases_seven_handles<A, B, C, D, E, F, G>(
    g: &(Box<A>, Box<B>, Box<C>, Box<D>, Box<E>, Box<F>, Box<G>),
)
    ensures
        g.release_order() == handles(7),
{
    lemma_grouped_handles(seq![
        g.0.release_order(),
        g.1.release_order(),
        g.2.release_order(),
        g.3.release_order(),
        g.4.release_order(),
        g.5.release_order(),
        g.6.release_order(),
    ]);
}

/// Releasing a tuple of eight handles gives back all eight, each once, in declaration order.
pub proof fn lemma_releases_eight_handles<A, B, C, D, E, F, G, H>(
    g: &(Box<A>, Box<B>, Box<C>, Box<D>, Box<E>, Box<F>, Box<G>, Box<H>),
)
    ensures
        g.release_order() == handles(8),
{
    lemma_grouped_handles(seq![
        g.0.release_order(),
        g.1.release_order(),
        g.2.release_order(),
        g.3.release_order(),
        g.4.release_order(),
        g.5.release_order(),
        g.6.release_order(),
        g.7.release_order(),
    ]);
}

/// Releasing a tuple of nine handles gives back all nine, each once, in declaration order.
pub proof fn lemma_releases_nine_handles<A, B, C, D, E, F, G, H, I>(
    g: &(Box<A>, Box<B>, Box<C>, Box<D>, Box<E>, Box<F>, Box<G>, Box<H>, Box<I>),
)
    ensures
        g.release_order() == handles(9),
{
    lemma_grouped_handles(seq![
        g.0.release_order(),
        g.1.release_order(),
        g.2.release_order(),
        g.3.release_order(),
        g.4.release_order(),
        g.5.release_order(),
        g.6.release_order(),
        g.7.release_order(),
        g.8.release_order(),
    ]);
}

/// Releasing a tuple of ten handles gives back all ten, each once, in declaration order.
pub proof fn lemma_releases_ten_handles<A, B, C, D, E, F, G, H, I, J>(
    g: &(Box<A>, Box<B>, Box<C>, Box<D>, Box<E>, Box<F>, Box<G>, Box<H>, Box<I>, Box<J>),
)
    ensures
        g.release_order() == handles(10),
{
    lemma_grouped_handles(seq![
        g.0.release_order(),
        g.1.release_order(),
        g.2.release_order(),
        g.3.release_order(),
        g.4.release_order(),
        g.5.release_order(),
        g.6.release_order(),
        g.7.release_order(),
        g.8.release_order(),
        g.9.release_order(),
    ]);
}

/// Releasing a tuple of eleven handles gives back all eleven, each once, in declaration order.
pub proof fn lemma_releases_eleven_handles<A, B, C, D, E, F, G, H, I, J, K>(
    g: &(Box<A>, Box<B>, Box<C>, Box<D>, Box<E>, Box<F>, Box<G>, Box<H>, Box<I>, Box<J>, Box<K>),
)
    ensures
        g.release_order() == handles(11),
{
    lemma_grouped_handles(seq![
        g.0.release_order(),
        g.1.release_order(),
        g.2.release_order(),
        g.3.release_order(),
        g.4.release_order(),
        g.5.release_order(),
        g.6.release_order(),
        g.7.release_order(),
        g.8.release_order(),
        g.9.release_order(),
        g.10.release_order(),
    ]);
}

/// Releasing a tuple of twelve handles gives back all twelve, each once, in declaration order.
pub proof fn lemma_releases_twelve_handles<A, B, C, D, E, F, G, H, I, J, K, L>(
    g: &(
        Box<A>,
        Box<B>,
        Box<C>,
        Box<D>,
        Box<E>,
        Box<F>,
        Box<G>,
        Box<H>,
        Box<I>,
        Box<J>,
        Box<K>,
        Box<L>,
    ),
)
    ensures
        g.release_order() == handles(12),
{
    lemma_grouped_handles(seq![
        g.0.release_order(),
        g.1.release_order(),
        g.2.release_order(),
        g.3.release_order(),
        g.4.release_order(),
        g.5.release_order(),
        g.6.release_order(),
        g.7.release_order(),
        g.8.release_order(),
        g.9.release_order(),
        g.10.release_order(),
        g.11.release_order(),
    ]);
}

} // verus!
