//! The release capability for tuples of one to twelve releasable values.
//!
//! A tuple gives back its elements' handles element by element, left to
//! right; a larger grouping is written as a tuple that holds tuples.
use vstd::prelude::*;

use crate::order::{grouped, lemma_grouped_in_order, lemma_log_start, lemma_log_step, placed};
use crate::raw::{BoxRaw, ReleaseLog};

verus! {

impl<A: BoxRaw> BoxRaw for (A,) {
    open spec fn release_order(&self) -> Seq<Seq<nat>> {
        grouped(seq![self.0.release_order()])
    }

    proof fn lemma_release_order(&self) {
        self.0.lemma_release_order();
        lemma_grouped_in_order(seq![self.0.release_order()]);
    }

    fn clean_logged(self, prefix: Ghost<Seq<nat>>, log: &mut ReleaseLog) {
        let ghost parts = seq![self.0.release_order()];
        let ghost start = log.logged();
        let (a,) = self;
        proof {
            lemma_log_start(start, prefix@, parts);
        }
        a.clean_logged(Ghost(prefix@.push(0)), log);
        proof {
            lemma_log_step(start, prefix@, parts, 0);
            assert(self.release_order() == grouped(parts));
        }
    }
}

impl<A: BoxRaw, B: BoxRaw> BoxRaw for (A, B) {
    open spec fn release_order(&self) -> Seq<Seq<nat>> {
        grouped(seq![self.0.release_order(), self.1.release_order()])
    }

    proof fn lemma_release_order(&self) {
        self.0.lemma_release_order();
        self.1.lemma_release_order();
        lemma_grouped_in_order(seq![self.0.release_order(), self.1.release_order()]);
    }

    fn clean_logged(self, prefix: Ghost<Seq<nat>>, log: &mut ReleaseLog) {
        let ghost parts = seq![self.0.release_order(), self.1.release_order()];
        let ghost start = log.logged();
        let (a, b) = self;
        proof {
            lemma_log_start(start, prefix@, parts);
        }
        a.clean_logged(Ghost(prefix@.push(0)), log);
        proof {
            lemma_log_step(start, prefix@, parts, 0);
        }
        b.clean_logged(Ghost(prefix@.push(1)), log);
        proof {
            lemma_log_step(start, prefix@, parts, 1);
            assert(self.release_order() == grouped(parts));
        }
    }
}

impl<A: BoxRaw, B: BoxRaw, C: BoxRaw> BoxRaw for (A, B, C) {
    open spec fn release_order(&self) -> Seq<Seq<nat>> {
        grouped(seq![self.0.release_order(), self.1.release_order(), self.2.release_order()])
    }

    proof fn lemma_release_order(&self) {
        self.0.lemma_release_order();
        self.1.lemma_release_order();
        self.2.lemma_release_order();
        lemma_grouped_in_order(seq![
            self.0.release_order(),
            self.1.release_order(),
            self.2.release_order(),
        ]);
    }

    fn clean_logged(self, prefix: Ghost<Seq<nat>>, log: &mut ReleaseLog) {
        let ghost parts = seq![
            self.0.release_order(),
            self.1.release_order(),
            self.2.release_order(),
        ];
        let ghost start = log.logged();
        let (a, b, c) = self;
        proof {
            lemma_log_start(start, prefix@, parts);
        }
        a.clean_logged(Ghost(prefix@.push(0)), log);
        proof {
            lemma_log_step(start, prefix@, parts, 0);
        }
        b.clean_logged(Ghost(prefix@.push(1)), log);
        proof {
            lemma_log_step(start, prefix@, parts, 1);
        }
        c.clean_logged(Ghost(prefix@.push(2)), log);
        proof {
            lemma_log_step(start, prefix@, parts, 2);
            assert(self.release_order() == grouped(parts));
        }
    }
}

impl<A: BoxRaw, B: BoxRaw, C: BoxRaw, D: BoxRaw> BoxRaw for (A, B, C, D) {
    open spec fn release_order(&self) -> Seq<Seq<nat>> {
        grouped(seq![
            self.0.release_order(),
            self.1.release_order(),
            self.2.release_order(),
            self.3.release_order(),
        ])
    }

    proof fn lemma_release_order(&self) {
        self.0.lemma_release_order();
        self.1.lemma_release_order();
        self.2.lemma_release_order();
        self.3.lemma_release_order();
        lemma_grouped_in_order(seq![
            self.0.release_order(),
            self.1.release_order(),
            self.2.release_order(),
            self.3.release_order(),
        ]);
    }

    fn clean_logged(self, prefix: Ghost<Seq<nat>>, log: &mut ReleaseLog) {
        let ghost parts = seq![
            self.0.release_order(),
            self.1.release_order(),
            self.2.release_order(),
            self.3.release_order(),
        ];
        let ghost start = log.logged();
        let (a, b, c, d) = self;
        proof {
            lemma_log_start(start, prefix@, parts);
        }
        a.clean_logged(Ghost(prefix@.push(0)), log);
        proof {
            lemma_log_step(start, prefix@, parts, 0);
        }
        b.clean_logged(Ghost(prefix@.push(1)), log);
        proof {
            lemma_log_step(start, prefix@, parts, 1);
        }
        c.clean_logged(Ghost(prefix@.push(2)), log);
        proof {
            lemma_log_step(start, prefix@, parts, 2);
        }
        d.clean_logged(Ghost(prefix@.push(3)), log);
        proof {
            lemma_log_step(start, prefix@, parts, 3);
            assert(self.release_order() == grouped(parts));
        }
    }
}

impl<A: BoxRaw, B: BoxRaw, C: BoxRaw, D: BoxRaw, E: BoxRaw> BoxRaw for (A, B, C, D, E) {
    open spec fn release_order(&self) -> Seq<Seq<nat>> {
        grouped(seq![
            self.0.release_order(),
            self.1.release_order(),
            self.2.release_order(),
            self.3.release_order(),
            self.4.release_order(),
        ])
    }

    proof fn lemma_release_order(&self) {
        self.0.lemma_release_order();
        self.1.lemma_release_order();
        self.2.lemma_release_order();
        self.3.lemma_release_order();
        self.4.lemma_release_order();
        lemma_grouped_in_order(seq![
            self.0.release_order(),
            self.1.release_order(),
            self.2.release_order(),
            self.3.release_order(),
            self.4.release_order(),
        ]);
    }

    fn clean_logged(self, prefix: Ghost<Seq<nat>>, log: &mut ReleaseLog) {
        let ghost parts = seq![
            self.0.release_order(),
            self.1.release_order(),
            self.2.release_order(),
            self.3.release_order(),
            self.4.release_order(),
        ];
        let ghost start = log.logged();
        let (a, b, c, d, e) = self;
        proof {
            lemma_log_start(start, prefix@, parts);
        }
        a.clean_logged(Ghost(prefix@.push(0)), log);
        proof {
            lemma_log_step(start, prefix@, parts, 0);
        }
        b.clean_logged(Ghost(prefix@.push(1)), log);
        proof {
            lemma_log_step(start, prefix@, parts, 1);
        }
        c.clean_logged(Ghost(prefix@.push(2)), log);
        proof {
            lemma_log_step(start, prefix@, parts, 2);
        }
        d.clean_logged(Ghost(prefix@.push(3)), log);
        proof {
            lemma_log_step(start, prefix@, parts, 3);
        }
        e.clean_logged(Ghost(prefix@.push(4)), log);
        proof {
            lemma_log_step(start, prefix@, parts, 4);
            assert(self.release_order() == grouped(parts));
        }
    }
}

impl<A, B, C, D, E, F> BoxRaw for (A, B, C, D, E, F) where
    A: BoxRaw,
    B: BoxRaw,
    C: BoxRaw,
    D: BoxRaw,
    E: BoxRaw,
    F: BoxRaw,
{
    open spec fn release_order(&self) -> Seq<Seq<nat>> {
        grouped(seq![
            self.0.release_order(),
            self.1.release_order(),
            self.2.release_order(),
            self.3.release_order(),
            self.4.release_order(),
            self.5.release_order(),
        ])
    }

    proof fn lemma_release_order(&self) {
        self.0.lemma_release_order();
        self.1.lemma_release_order();
        self.2.lemma_release_order();
        self.3.lemma_release_order();
        self.4.lemma_release_order();
        self.5.lemma_release_order();
        lemma_grouped_in_order(seq![
            self.0.release_order(),
            self.1.release_order(),
            self.2.release_order(),
            self.3.release_order(),
            self.4.release_order(),
            self.5.release_order(),
        ]);
    }

    fn clean_logged(self, prefix: Ghost<Seq<nat>>, log: &mut ReleaseLog) {
        let ghost parts = seq![
            self.0.release_order(),
            self.1.release_order(),
            self.2.release_order(),
            self.3.release_order(),
            self.4.release_order(),
            self.5.release_order(),
        ];
        let ghost start = log.logged();
        let (a, b, c, d, e, f) = self;
        proof {
            lemma_log_start(start, prefix@, parts);
        }
        a.clean_logged(Ghost(prefix@.push(0)), log);
        proof {
            lemma_log_step(start, prefix@, parts, 0);
        }
        b.clean_logged(Ghost(prefix@.push(1)), log);
        proof {
            lemma_log_step(start, prefix@, parts, 1);
        }
        c.clean_logged(Ghost(prefix@.push(2)), log);
        proof {
            lemma_log_step(start, prefix@, parts, 2);
        }
        d.clean_logged(Ghost(prefix@.push(3)), log);
        proof {
            lemma_log_step(start, prefix@, parts, 3);
        }
        e.clean_logged(Ghost(prefix@.push(4)), log);
        proof {
            lemma_log_step(start, prefix@, parts, 4);
        }
        f.clean_logged(Ghost(prefix@.push(5)), log);
        proof {
            lemma_log_step(start, prefix@, parts, 5);
            assert(self.release_order() == grouped(parts));
        }
    }
}

impl<A, B, C, D, E, F, G> BoxRaw for (A, B, C, D, E, F, G) where
    A: BoxRaw,
    B: BoxRaw,
    C: BoxRaw,
    D: BoxRaw,
    E: BoxRaw,
    F: BoxRaw,
    G: BoxRaw,
{
    open spec fn release_order(&self) -> Seq<Seq<nat>> {
        grouped(seq![
            self.0.release_order(),
            self.1.release_order(),
            self.2.release_order(),
            self.3.release_order(),
            self.4.release_order(),
            self.5.release_order(),
            self.6.release_order(),
        ])
    }

    proof fn lemma_release_order(&self) {
        self.0.lemma_release_order();
        self.1.lemma_release_order();
        self.2.lemma_release_order();
        self.3.lemma_release_order();
        self.4.lemma_release_order();
        self.5.lemma_release_order();
        self.6.lemma_release_order();
        lemma_grouped_in_order(seq![
            self.0.release_order(),
            self.1.release_order(),
            self.2.release_order(),
            self.3.release_order(),
            self.4.release_order(),
            self.5.release_order(),
            self.6.release_order(),
        ]);
    }

    fn clean_logged(self, prefix: Ghost<Seq<nat>>, log: &mut ReleaseLog) {
        let ghost parts = seq![
            self.0.release_order(),
            self.1.release_order(),
            self.2.release_order(),
            self.3.release_order(),
            self.4.release_order(),
            self.5.release_order(),
            self.6.release_order(),
        ];
        let ghost start = log.logged();
        let (a, b, c, d, e, f, g) = self;
        proof {
            lemma_log_start(start, prefix@, parts);
        }
        a.clean_logged(Ghost(prefix@.push(0)), log);
        proof {
            lemma_log_step(start, prefix@, parts, 0);
        }
        b.clean_logged(Ghost(prefix@.push(1)), log);
        proof {
            lemma_log_step(start, prefix@, parts, 1);
        }
        c.clean_logged(Ghost(prefix@.push(2)), log);
        proof {
            lemma_log_step(start, prefix@, parts, 2);
        }
        d.clean_logged(Ghost(prefix@.push(3)), log);
        proof {
            lemma_log_step(start, prefix@, parts, 3);
        }
        e.clean_logged(Ghost(prefix@.push(4)), log);
        proof {
            lemma_log_step(start, prefix@, parts, 4);
        }
        f.clean_logged(Ghost(prefix@.push(5)), log);
        proof {
            lemma_log_step(start, prefix@, parts, 5);
        }
        g.clean_logged(Ghost(prefix@.push(6)), log);
        proof {
            lemma_log_step(start, prefix@, parts, 6);
            assert(self.release_order() == grouped(parts));
        }
    }
}

impl<A, B, C, D, E, F, G, H> BoxRaw for (A, B, C, D, E, F, G, H) where
    A: BoxRaw,
    B: BoxRaw,
    C: BoxRaw,
    D: BoxRaw,
    E: BoxRaw,
    F: BoxRaw,
    G: BoxRaw,
    H: BoxRaw,
{
    open spec fn release_order(&self) -> Seq<Seq<nat>> {
        grouped(seq![
            self.0.release_order(),
            self.1.release_order(),
            self.2.release_order(),
            self.3.release_order(),
            self.4.release_order(),
            self.5.release_order(),
            self.6.release_order(),
            self.7.release_order(),
        ])
    }

    proof fn lemma_release_order(&self) {
        self.0.lemma_release_order();
        self.1.lemma_release_order();
        self.2.lemma_release_order();
        self.3.lemma_release_order();
        self.4.lemma_release_order();
        self.5.lemma_release_order();
        self.6.lemma_release_order();
        self.7.lemma_release_order();
        lemma_grouped_in_order(seq![
            self.0.release_order(),
            self.1.release_order(),
            self.2.release_order(),
            self.3.release_order(),
            self.4.release_order(),
            self.5.release_order(),
            self.6.release_order(),
            self.7.release_order(),
        ]);
    }

    fn clean_logged(self, prefix: Ghost<Seq<nat>>, log: &mut ReleaseLog) {
        let ghost parts = seq![
            self.0.release_order(),
            self.1.release_order(),
            self.2.release_order(),
            self.3.release_order(),
            self.4.release_order(),
            self.5.release_order(),
            self.6.release_order(),
            self.7.release_order(),
        ];
        let ghost start = log.logged();
        let (a, b, c, d, e, f, g, h) = self;
        proof {
            lemma_log_start(start, prefix@, parts);
        }
        a.clean_logged(Ghost(prefix@.push(0)), log);
        proof {
            lemma_log_step(start, prefix@, parts, 0);
        }
        b.clean_logged(Ghost(prefix@.push(1)), log);
        proof {
            lemma_log_step(start, prefix@, parts, 1);
        }
        c.clean_logged(Ghost(prefix@.push(2)), log);
        proof {
            lemma_log_step(start, prefix@, parts, 2);
        }
        d.clean_logged(Ghost(prefix@.push(3)), log);
        proof {
            lemma_log_step(start, prefix@, parts, 3);
        }
        e.clean_logged(Ghost(prefix@.push(4)), log);
        proof {
            lemma_log_step(start, prefix@, parts, 4);
        }
        f.clean_logged(Ghost(prefix@.push(5)), log);
        proof {
            lemma_log_step(start, prefix@, parts, 5);
        }
        g.clean_logged(Ghost(prefix@.push(6)), log);
        proof {
            lemma_log_step(start, prefix@, parts, 6);
        }
        h.clean_logged(Ghost(prefix@.push(7)), log);
        proof {
            lemma_log_step(start, prefix@, parts, 7);
            assert(self.release_order() == grouped(parts));
        }
    }
}

impl<A, B, C, D, E, F, G, H, I> BoxRaw for (A, B, C, D, E, F, G, H, I) where
    A: BoxRaw,
    B: BoxRaw,
    C: BoxRaw,
    D: BoxRaw,
    E: BoxRaw,
    F: BoxRaw,
    G: BoxRaw,
    H: BoxRaw,
    I: BoxRaw,
{
    open spec fn release_order(&self) -> Seq<Seq<nat>> {
        grouped(seq![
            self.0.release_order(),
            self.1.release_order(),
            self.2.release_order(),
            self.3.release_order(),
            self.4.release_order(),
            self.5.release_order(),
            self.6.release_order(),
            self.7.release_order(),
            self.8.release_order(),
        ])
    }

    proof fn lemma_release_order(&self) {
        self.0.lemma_release_order();
        self.1.lemma_release_order();
        self.2.lemma_release_order();
        self.3.lemma_release_order();
        self.4.lemma_release_order();
        self.5.lemma_release_order();
        self.6.lemma_release_order();
        self.7.lemma_release_order();
        self.8.lemma_release_order();
        lemma_grouped_in_order(seq![
            self.0.release_order(),
            self.1.release_order(),
            self.2.release_order(),
            self.3.release_order(),
            self.4.release_order(),
            self.5.release_order(),
            self.6.release_order(),
            self.7.release_order(),
            self.8.release_order(),
        ]);
    }

    fn clean_logged(self, prefix: Ghost<Seq<nat>>, log: &mut ReleaseLog) {
        let ghost parts = seq![
            self.0.release_order(),
            self.1.release_order(),
            self.2.release_order(),
            self.3.release_order(),
            self.4.release_order(),
            self.5.release_order(),
            self.6.release_order(),
            self.7.release_order(),
            self.8.release_order(),
        ];
        let ghost start = log.logged();
        let (a, b, c, d, e, f, g, h, i) = self;
        proof {
            lemma_log_start(start, prefix@, parts);
        }
        a.clean_logged(Ghost(prefix@.push(0)), log);
        proof {
            lemma_log_step(start, prefix@, parts, 0);
        }
        b.clean_logged(Ghost(prefix@.push(1)), log);
        proof {
            lemma_log_step(start, prefix@, parts, 1);
        }
        c.clean_logged(Ghost(prefix@.push(2)), log);
        proof {
            lemma_log_step(start, prefix@, parts, 2);
        }
        d.clean_logged(Ghost(prefix@.push(3)), log);
        proof {
            lemma_log_step(start, prefix@, parts, 3);
        }
        e.clean_logged(Ghost(prefix@.push(4)), log);
        proof {
            lemma_log_step(start, prefix@, parts, 4);
        }
        f.clean_logged(Ghost(prefix@.push(5)), log);
        proof {
            lemma_log_step(start, prefix@, parts, 5);
        }
        g.clean_logged(Ghost(prefix@.push(6)), log);
        proof {
            lemma_log_step(start, prefix@, parts, 6);
        }
        h.clean_logged(Ghost(prefix@.push(7)), log);
        proof {
            lemma_log_step(start, prefix@, parts, 7);
        }
        i.clean_logged(Ghost(prefix@.push(8)), log);
        proof {
            lemma_log_step(start, prefix@, parts, 8);
            assert(self.release_order() == grouped(parts));
        }
    }
}

impl<A, B, C, D, E, F, G, H, I, J> BoxRaw for (A, B, C, D, E, F, G, H, I, J) where
    A: BoxRaw,
    B: BoxRaw,
    C: BoxRaw,
    D: BoxRaw,
    E: BoxRaw,
    F: BoxRaw,
    G: BoxRaw,
    H: BoxRaw,
    I: BoxRaw,
    J: BoxRaw,
{
    open spec fn release_order(&self) -> Seq<Seq<nat>> {
        grouped(seq![
            self.0.release_order(),
            self.1.release_order(),
            self.2.release_order(),
            self.3.release_order(),
            self.4.release_order(),
            self.5.release_order(),
            self.6.release_order(),
            self.7.release_order(),
            self.8.release_order(),
            self.9.release_order(),
        ])
    }

    proof fn lemma_release_order(&self) {
        self.0.lemma_release_order();
        self.1.lemma_release_order();
        self.2.lemma_release_order();
        self.3.lemma_release_order();
        self.4.lemma_release_order();
        self.5.lemma_release_order();
        self.6.lemma_release_order();
        self.7.lemma_release_order();
        self.8.lemma_release_order();
        self.9.lemma_release_order();
        lemma_grouped_in_order(seq![
            self.0.release_order(),
            self.1.release_order(),
            self.2.release_order(),
            self.3.release_order(),
            self.4.release_order(),
            self.5.release_order(),
            self.6.release_order(),
            self.7.release_order(),
            self.8.release_order(),
            self.9.release_order(),
        ]);
    }

    fn clean_logged(self, prefix: Ghost<Seq<nat>>, log: &mut ReleaseLog) {
        let ghost parts = seq![
            self.0.release_order(),
            self.1.release_order(),
            self.2.release_order(),
            self.3.release_order(),
            self.4.release_order(),
            self.5.release_order(),
            self.6.release_order(),
            self.7.release_order(),
            self.8.release_order(),
            self.9.release_order(),
        ];
        let ghost start = log.logged();
        let (a, b, c, d, e, f, g, h, i, j) = self;
        proof {
            lemma_log_start(start, prefix@, parts);
        }
        a.clean_logged(Ghost(prefix@.push(0)), log);
        proof {
            lemma_log_step(start, prefix@, parts, 0);
        }
        b.clean_logged(Ghost(prefix@.push(1)), log);
        proof {
            lemma_log_step(start, prefix@, parts, 1);
        }
        c.clean_logged(Ghost(prefix@.push(2)), log);
        proof {
            lemma_log_step(start, prefix@, parts, 2);
        }
        d.clean_logged(Ghost(prefix@.push(3)), log);
        proof {
            lemma_log_step(start, prefix@, parts, 3);
        }
        e.clean_logged(Ghost(prefix@.push(4)), log);
        proof {
            lemma_log_step(start, prefix@, parts, 4);
        }
        f.clean_logged(Ghost(prefix@.push(5)), log);
        proof {
            lemma_log_step(start, prefix@, parts, 5);
        }
        g.clean_logged(Ghost(prefix@.push(6)), log);
        proof {
            lemma_log_step(start, prefix@, parts, 6);
        }
        h.clean_logged(Ghost(prefix@.push(7)), log);
        proof {
            lemma_log_step(start, prefix@, parts, 7);
        }
        i.clean_logged(Ghost(prefix@.push(8)), log);
        proof {
            lemma_log_step(start, prefix@, parts, 8);
        }
        j.clean_logged(Ghost(prefix@.push(9)), log);
        proof {
            lemma_log_step(start, prefix@, parts, 9);
            assert(self.release_order() == grouped(parts));
        }
    }
}

impl<A, B, C, D, E, F, G, H, I, J, K> BoxRaw for (A, B, C, D, E, F, G, H, I, J, K) where
    A: BoxRaw,
    B: BoxRaw,
    C: BoxRaw,
    D: BoxRaw,
    E: BoxRaw,
    F: BoxRaw,
    G: BoxRaw,
    H: BoxRaw,
    I: BoxRaw,
    J: BoxRaw,
    K: BoxRaw,
{
    open spec fn release_order(&self) -> Seq<Seq<nat>> {
        grouped(seq![
            self.0.release_order(),
            self.1.release_order(),
            self.2.release_order(),
            self.3.release_order(),
            self.4.release_order(),
            self.5.release_order(),
            self.6.release_order(),
            self.7.release_order(),
            self.8.release_order(),
            self.9.release_order(),
            self.10.release_order(),
        ])
    }

    proof fn lemma_release_order(&self) {
        self.0.lemma_release_order();
        self.1.lemma_release_order();
        self.2.lemma_release_order();
        self.3.lemma_release_order();
        self.4.lemma_release_order();
        self.5.lemma_release_order();
        self.6.lemma_release_order();
        self.7.lemma_release_order();
        self.8.lemma_release_order();
        self.9.lemma_release_order();
        self.10.lemma_release_order();
        lemma_grouped_in_order(seq![
            self.0.release_order(),
            self.1.release_order(),
            self.2.release_order(),
            self.3.release_order(),
            self.4.release_order(),
            self.5.release_order(),
            self.6.release_order(),
            self.7.release_order(),
            self.8.release_order(),
            self.9.release_order(),
            self.10.release_order(),
        ]);
    }

    fn clean_logged(self, prefix: Ghost<Seq<nat>>, log: &mut ReleaseLog) {
        let ghost parts = seq![
            self.0.release_order(),
            self.1.release_order(),
            self.2.release_order(),
            self.3.release_order(),
            self.4.release_order(),
            self.5.release_order(),
            self.6.release_order(),
            self.7.release_order(),
            self.8.release_order(),
            self.9.release_order(),
            self.10.release_order(),
        ];
        let ghost start = log.logged();
        let (a, b, c, d, e, f, g, h, i, j, k) = self;
        proof {
            lemma_log_start(start, prefix@, parts);
        }
        a.clean_logged(Ghost(prefix@.push(0)), log);
        proof {
            lemma_log_step(start, prefix@, parts, 0);
        }
        b.clean_logged(Ghost(prefix@.push(1)), log);
        proof {
            lemma_log_step(start, prefix@, parts, 1);
        }
        c.clean_logged(Ghost(prefix@.push(2)), log);
        proof {
            lemma_log_step(start, prefix@, parts, 2);
        }
        d.clean_logged(Ghost(prefix@.push(3)), log);
        proof {
            lemma_log_step(start, prefix@, parts, 3);
        }
        e.clean_logged(Ghost(prefix@.push(4)), log);
        proof {
            lemma_log_step(start, prefix@, parts, 4);
        }
        f.clean_logged(Ghost(prefix@.push(5)), log);
        proof {
            lemma_log_step(start, prefix@, parts, 5);
        }
        g.clean_logged(Ghost(prefix@.push(6)), log);
        proof {
            lemma_log_step(start, prefix@, parts, 6);
        }
        h.clean_logged(Ghost(prefix@.push(7)), log);
        proof {
            lemma_log_step(start, prefix@, parts, 7);
        }
        i.clean_logged(Ghost(prefix@.push(8)), log);
        proof {
            lemma_log_step(start, prefix@, parts, 8);
        }
        j.clean_logged(Ghost(prefix@.push(9)), log);
        proof {
            lemma_log_step(start, prefix@, parts, 9);
        }
        k.clean_logged(Ghost(prefix@.push(10)), log);
        proof {
            lemma_log_step(start, prefix@, parts, 10);
            assert(self.release_order() == grouped(parts));
        }
    }
}

impl<A, B, C, D, E, F, G, H, I, J, K, L> BoxRaw for (A, B, C, D, E, F, G, H, I, J, K, L) where
    A: BoxRaw,
    B: BoxRaw,
    C: BoxRaw,
    D: BoxRaw,
    E: BoxRaw,
    F: BoxRaw,
    G: BoxRaw,
    H: BoxRaw,
    I: BoxRaw,
    J: BoxRaw,
    K: BoxRaw,
    L: BoxRaw,
{
    open spec fn release_order(&self) -> Seq<Seq<nat>> {
        grouped(seq![
            self.0.release_order(),
            self.1.release_order(),
            self.2.release_order(),
            self.3.release_order(),
            self.4.release_order(),
            self.5.release_order(),
            self.6.release_order(),
            self.7.release_order(),
            self.8.release_order(),
            self.9.release_order(),
            self.10.release_order(),
            self.11.release_order(),
        ])
    }

    proof fn lemma_release_order(&self) {
        self.0.lemma_release_order();
        self.1.lemma_release_order();
        self.2.lemma_release_order();
        self.3.lemma_release_order();
        self.4.lemma_release_order();
        self.5.lemma_release_order();
        self.6.lemma_release_order();
        self.7.lemma_release_order();
        self.8.lemma_release_order();
        self.9.lemma_release_order();
        self.10.lemma_release_order();
        self.11.lemma_release_order();
        lemma_grouped_in_order(seq![
            self.0.release_order(),
            self.1.release_order(),
            self.2.release_order(),
            self.3.release_order(),
            self.4.release_order(),
            self.5.release_order(),
            self.6.release_order(),
            self.7.release_order(),
            self.8.release_order(),
            self.9.release_order(),
            self.10.release_order(),
            self.11.release_order(),
        ]);
    }

    fn clean_logged(self, prefix: Ghost<Seq<nat>>, log: &mut ReleaseLog) {
        let ghost parts = seq![
            self.0.release_order(),
            self.1.release_order(),
            self.2.release_order(),
            self.3.release_order(),
            self.4.release_order(),
            self.5.release_order(),
            self.6.release_order(),
            self.7.release_order(),
            self.8.release_order(),
            self.9.release_order(),
            self.10.release_order(),
            self.11.release_order(),
        ];
        let ghost start = log.logged();
        let (a, b, c, d, e, f, g, h, i, j, k, l) = self;
        proof {
            lemma_log_start(start, prefix@, parts);
        }
        a.clean_logged(Ghost(prefix@.push(0)), log);
        proof {
            lemma_log_step(start, prefix@, parts, 0);
        }
        b.clean_logged(Ghost(prefix@.push(1)), log);
        proof {
            lemma_log_step(start, prefix@, parts, 1);
        }
        c.clean_logged(Ghost(prefix@.push(2)), log);
        proof {
            lemma_log_step(start, prefix@, parts, 2);
        }
        d.clean_logged(Ghost(prefix@.push(3)), log);
        proof {
            lemma_log_step(start, prefix@, parts, 3);
        }
        e.clean_logged(Ghost(prefix@.push(4)), log);
        proof {
            lemma_log_step(start, prefix@, parts, 4);
        }
        f.clean_logged(Ghost(prefix@.push(5)), log);
        proof {
            lemma_log_step(start, prefix@, parts, 5);
        }
        g.clean_logged(Ghost(prefix@.push(6)), log);
        proof {
            lemma_log_step(start, prefix@, parts, 6);
        }
        h.clean_logged(Ghost(prefix@.push(7)), log);
        proof {
            lemma_log_step(start, prefix@, parts, 7);
        }
        i.clean_logged(Ghost(prefix@.push(8)), log);
        proof {
            lemma_log_step(start, prefix@, parts, 8);
        }
        j.clean_logged(Ghost(prefix@.push(9)), log);
        proof {
            lemma_log_step(start, prefix@, parts, 9);
        }
        k.clean_logged(Ghost(prefix@.push(10)), log);
        proof {
            lemma_log_step(start, prefix@, parts, 10);
        }
        l.clean_logged(Ghost(prefix@.push(11)), log);
        proof {
            lemma_log_step(start, prefix@, parts, 11);
            assert(self.release_order() == grouped(parts));
        }
    }
}

} // verus!
