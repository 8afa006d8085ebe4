//! One pass at a time. Two passes over the same sync root with the same
//! store would interleave their transfers, so a pass begins only if none
//! is under way for its root and store, and says when it has ended.

use crate::reconcile::Provider;
use vstd::prelude::*;

verus! {

/// The passes that are under way, each by its sync root and its store.
pub struct ActiveRuns {
    roots: Vec<String>,
    providers: Vec<Provider>,
}

impl ActiveRuns {
    #[verifier::type_invariant]
    spec fn inv(&self) -> bool {
        self.wf()
    }

    /// The passes under way, in the order in which they began.
    pub closed spec fn runs(&self) -> Seq<(Seq<char>, Provider)> {
        Seq::new(self.roots@.len(), |i: int| (self.roots@[i]@, self.providers@[i]))
    }

    /// There is a store for each root, and no pass is listed twice. It is
    /// so at all times.
    pub closed spec fn wf(&self) -> bool {
        self.roots@.len() == self.providers@.len() && self.runs().no_duplicates()
    }

    /// Whether a pass over `root` with `provider` is under way.
    pub open spec fn active(&self, root: Seq<char>, provider: Provider) -> bool {
        self.runs().contains((root, provider))
    }

    /// No pass is under way.
    pub fn new() -> (runs: ActiveRuns)
        ensures
            runs.wf(),
            runs.runs() == Seq::<(Seq<char>, Provider)>::empty(),
    {
        let runs = ActiveRuns { roots: Vec::new(), providers: Vec::new() };
        assert(runs.runs() =~= Seq::empty());
        runs
    }

    fn position(&self, root: &str, provider: Provider) -> (position: Option<usize>)
        ensures
            self.wf(),
            position is Some <==> self.active(root@, provider),
            position matches Some(i) ==> i < self.runs().len() && self.runs()[i as int] == (
                root@,
                provider,
            ),
    {
        proof {
            use_type_invariant(self);
        }
        let mut i: usize = 0;
        while i < self.roots.len()
            invariant
                i <= self.roots.len(),
                self.wf(),
                forall|k: int| 0 <= k < i ==> self.runs()[k] != (root@, provider),
            decreases self.roots.len() - i,
        {
            if self.roots[i].as_str().eq(root) && self.providers[i] == provider {
                assert(self.runs()[i as int] == (root@, provider));
                return Some(i);
            }
            i += 1;
        }
        None
    }

    /// Begins a pass over `root` with `provider`, unless one is under way.
    /// Says whether the pass may go ahead.
    pub fn try_begin(&mut self, root: &str, provider: Provider) -> (begun: bool)
        ensures
            final(self).wf(),
            begun == !old(self).active(root@, provider),
            final(self).active(root@, provider),
            begun ==> final(self).runs() == old(self).runs().push((root@, provider)),
            !begun ==> final(self).runs() == old(self).runs(),
    {
        match self.position(root, provider) {
            Some(_) => false,
            None => {
                let ghost before = self.runs();
                let mut taken = ActiveRuns::new();
                core::mem::swap(self, &mut taken);
                let ActiveRuns { roots, providers } = taken;
                let mut roots = roots;
                let mut providers = providers;
                roots.push(root.to_owned());
                providers.push(provider);
                let ghost after = Seq::new(roots@.len(), |i: int| (roots@[i]@, providers@[i]));
                assert(after =~= before.push((root@, provider)));
                assert(after[before.len() as int] == (root@, provider));
                *self = ActiveRuns { roots, providers };
                assert(self.runs() =~= after);
                true
            },
        }
    }

    /// Notes that the pass over `root` with `provider` has ended.
    pub fn end(&mut self, root: &str, provider: Provider)
        ensures
            final(self).wf(),
            !final(self).active(root@, provider),
            forall|other: (Seq<char>, Provider)|
                other != (root@, provider) ==> (final(self).runs().contains(other) <==> old(
                    self,
                ).runs().contains(other)),
    {
        match self.position(root, provider) {
            None => {},
            Some(i) => {
                let ghost before = self.runs();
                let mut taken = ActiveRuns::new();
                core::mem::swap(self, &mut taken);
                let ActiveRuns { roots, providers } = taken;
                let mut roots = roots;
                let mut providers = providers;
                roots.remove(i);
                providers.remove(i);
                let ghost after = Seq::new(roots@.len(), |i: int| (roots@[i]@, providers@[i]));
                proof {
                    assert(after =~= before.remove(i as int));
                    assert forall|a: int, b: int|
                        0 <= a < after.len() && 0 <= b < after.len() && a != b implies after[a]
                        != after[b] by {
                        let a0 = if a < i { a } else { a + 1 };
                        let b0 = if b < i { b } else { b + 1 };
                        assert(after[a] == before[a0] && after[b] == before[b0]);
                    }
                    assert forall|other: (Seq<char>, Provider)| after.contains(other) <==> (
                    before.contains(other) && other != (root@, provider)) by {
                        if after.contains(other) {
                            let a = choose|a: int| 0 <= a < after.len() && after[a] == other;
                            let a0 = if a < i { a } else { a + 1 };
                            assert(before[a0] == other);
                        }
                        if before.contains(other) && other != (root@, provider) {
                            let a0 = choose|a0: int| 0 <= a0 < before.len() && before[a0] == other;
                            let a = if a0 < i { a0 } else { a0 - 1 };
                            assert(after[a] == other);
                        }
                    }
                }
                *self = ActiveRuns { roots, providers };
                assert(self.runs() =~= after);
            },
        }
    }
}

} // verus!
