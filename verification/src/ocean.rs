use crate::beach::{Beach, BeachView};
use crate::reef::{Prey, Reef};
use vstd::prelude::*;

verus! {

/// The mathematical content of an ocean: its beaches and the contents of
/// its reefs, both in creation order.
#[verifier::ext_equal]
pub ghost struct OceanView {
    pub beaches: Seq<BeachView>,
    pub reefs: Seq<Seq<Prey>>,
}

/// A shared handle to one reef of an ocean. Handles are freely copied;
/// every copy with the same position reaches the same underlying reef,
/// so a mutation made through one holder's handle is observed through
/// every other.
#[derive(Clone, Copy, PartialEq, Eq, Structural, Debug)]
pub struct ReefHandle {
    index: usize,
}

impl View for ReefHandle {
    type V = int;

    closed spec fn view(&self) -> int {
        self.index as int
    }
}

/// The population a freshly generated reef holds: the requested number
/// of minnows (speed 25), then shrimp (energy 1), then clams, then
/// algae, in that order.
pub open spec fn reef_population(
    n_minnows: int,
    n_shrimp: int,
    n_clams: int,
    n_algae: int,
) -> Seq<Prey> {
    Seq::new(n_minnows as nat, |i: int| Prey::Minnow { speed: 25 }) + Seq::new(
        n_shrimp as nat,
        |i: int| Prey::Shrimp { energy: 1 },
    ) + Seq::new(n_clams as nat, |i: int| Prey::Clam) + Seq::new(n_algae as nat, |i: int| Prey::Algae)
}

/// An ocean: an owning sequence of beaches, and an arena of reefs
/// reached through `ReefHandle`s. The ocean keeps every reef it ever
/// generated; handles to one reef may be held by many parties at once.
#[derive(Debug)]
pub struct Ocean {
    beaches: Vec<Beach>,
    reefs: Vec<Reef>,
}

impl View for Ocean {
    type V = OceanView;

    closed spec fn view(&self) -> OceanView {
        OceanView {
            beaches: self.beaches.deep_view(),
            reefs: self.reefs.deep_view(),
        }
    }
}

impl Ocean {
    /// Creates an empty ocean.
    pub fn new() -> (o: Ocean)
        ensures
            o@.beaches == Seq::<BeachView>::empty(),
            o@.reefs == Seq::<Seq<Prey>>::empty(),
    {
        let o = Ocean { beaches: Vec::new(), reefs: Vec::new() };
        proof {
            assert(o@.beaches =~= Seq::<BeachView>::empty());
            assert(o@.reefs =~= Seq::<Seq<Prey>>::empty());
        }
        o
    }

    /// Takes ownership of `beach` and appends it at the end of the beach
    /// sequence.
    pub fn add_beach(&mut self, beach: Beach)
        ensures
            final(self)@.beaches == old(self)@.beaches.push(beach@),
            final(self)@.reefs == old(self)@.reefs,
    {
        let ghost pre = self@.beaches;
        proof {
            assert(pre.len() == self.beaches@.len());
        }
        self.beaches.push(beach);
        proof {
            assert(self@.beaches.len() == self.beaches@.len());
            assert(self@.beaches =~~= pre.push(beach@));
            assert(self@.reefs =~~= old(self)@.reefs);
        }
    }

    /// All beaches in creation order, for read-only traversal.
    pub fn beaches(&self) -> (r: &Vec<Beach>)
        ensures
            r.deep_view() == self@.beaches,
    {
        &self.beaches
    }

    /// Fresh handles to all reefs, in creation order; each yielded handle
    /// is one more holder of the same underlying reef.
    pub fn reefs(&self) -> (r: Vec<ReefHandle>)
        ensures
            r@.len() == self@.reefs.len(),
            forall|k: int| 0 <= k < r@.len() ==> (#[trigger] r@[k])@ == k,
    {
        proof {
            assert(self@.reefs.len() == self.reefs@.len());
        }
        let mut handles: Vec<ReefHandle> = Vec::new();
        let mut i: usize = 0;
        while i < self.reefs.len()
            invariant
                self@.reefs.len() == self.reefs@.len(),
                i <= self.reefs@.len(),
                handles@.len() == i,
                forall|k: int| 0 <= k < i ==> (#[trigger] handles@[k])@ == k,
            decreases self.reefs@.len() - i,
        {
            handles.push(ReefHandle { index: i });
            i += 1;
        }
        handles
    }

    /// Read access to the reef a handle designates.
    pub fn reef(&self, handle: &ReefHandle) -> (r: &Reef)
        requires
            0 <= handle@ < self@.reefs.len(),
        ensures
            r@ == self@.reefs[handle@],
    {
        proof {
            assert(self@.reefs.len() == self.reefs@.len());
        }
        &self.reefs[handle.index]
    }

    /// Mutates the reef a handle designates: appends one prey to it.
    /// Every holder of a handle to the same reef observes the change.
    pub fn add_prey_to_reef(&mut self, handle: &ReefHandle, prey: Prey)
        requires
            0 <= handle@ < old(self)@.reefs.len(),
        ensures
            final(self)@.reefs == old(self)@.reefs.update(
                handle@,
                old(self)@.reefs[handle@].push(prey),
            ),
            final(self)@.beaches == old(self)@.beaches,
    {
        proof {
            assert(self@.reefs.len() == self.reefs@.len());
        }
        let mut reef = self.reefs.remove(handle.index);
        reef.add_prey(prey);
        self.reefs.insert(handle.index, reef);
        proof {
            assert(self@.reefs.len() == self.reefs@.len());
            assert(self@.reefs =~~= old(self)@.reefs.update(
                handle@,
                old(self)@.reefs[handle@].push(prey),
            ));
            assert(self@.beaches =~~= old(self)@.beaches);
        }
    }

    /// Generates a reef populated with `n_minnows` minnows of speed 25,
    /// then `n_shrimp` shrimp of energy 1, then `n_clams` clams, then
    /// `n_algae` algae, registers it in the ocean, and returns a handle
    /// to it. The ocean and the caller thereafter hold handles to the
    /// same underlying reef. Counts of zero are valid; generation never
    /// fails.
    pub fn generate_reef(
        &mut self,
        n_minnows: u32,
        n_shrimp: u32,
        n_clams: u32,
        n_algae: u32,
    ) -> (handle: ReefHandle)
        ensures
            final(self)@.reefs == old(self)@.reefs.push(
                reef_population(n_minnows as int, n_shrimp as int, n_clams as int, n_algae as int),
            ),
            final(self)@.beaches == old(self)@.beaches,
            handle@ == old(self)@.reefs.len(),
    {
        let mut reef = Reef::new();
        let mut i: u32 = 0;
        while i < n_minnows
            invariant
                i <= n_minnows,
                reef@ == Seq::new(i as nat, |k: int| Prey::Minnow { speed: 25 }),
            decreases n_minnows - i,
        {
            reef.add_prey(Prey::Minnow { speed: 25 });
            proof {
                assert(reef@ =~= Seq::new((i + 1) as nat, |k: int| Prey::Minnow { speed: 25 }));
            }
            i += 1;
        }
        let mut j: u32 = 0;
        while j < n_shrimp
            invariant
                j <= n_shrimp,
                reef@ == Seq::new(n_minnows as nat, |k: int| Prey::Minnow { speed: 25 }) + Seq::new(
                    j as nat,
                    |k: int| Prey::Shrimp { energy: 1 },
                ),
            decreases n_shrimp - j,
        {
            reef.add_prey(Prey::Shrimp { energy: 1 });
            proof {
                assert(reef@ =~= Seq::new(n_minnows as nat, |k: int| Prey::Minnow { speed: 25 })
                    + Seq::new((j + 1) as nat, |k: int| Prey::Shrimp { energy: 1 }));
            }
            j += 1;
        }
        let mut c: u32 = 0;
        while c < n_clams
            invariant
                c <= n_clams,
                reef@ == Seq::new(n_minnows as nat, |k: int| Prey::Minnow { speed: 25 }) + Seq::new(
                    n_shrimp as nat,
                    |k: int| Prey::Shrimp { energy: 1 },
                ) + Seq::new(c as nat, |k: int| Prey::Clam),
            decreases n_clams - c,
        {
            reef.add_prey(Prey::Clam);
            proof {
                assert(reef@ =~= Seq::new(n_minnows as nat, |k: int| Prey::Minnow { speed: 25 })
                    + Seq::new(n_shrimp as nat, |k: int| Prey::Shrimp { energy: 1 }) + Seq::new(
                    (c + 1) as nat,
                    |k: int| Prey::Clam,
                ));
            }
            c += 1;
        }
        let mut a: u32 = 0;
        while a < n_algae
            invariant
                a <= n_algae,
                reef@ == Seq::new(n_minnows as nat, |k: int| Prey::Minnow { speed: 25 }) + Seq::new(
                    n_shrimp as nat,
                    |k: int| Prey::Shrimp { energy: 1 },
                ) + Seq::new(n_clams as nat, |k: int| Prey::Clam) + Seq::new(
                    a as nat,
                    |k: int| Prey::Algae,
                ),
            decreases n_algae - a,
        {
            reef.add_prey(Prey::Algae);
            proof {
                assert(reef@ =~= Seq::new(n_minnows as nat, |k: int| Prey::Minnow { speed: 25 })
                    + Seq::new(n_shrimp as nat, |k: int| Prey::Shrimp { energy: 1 }) + Seq::new(
                    n_clams as nat,
                    |k: int| Prey::Clam,
                ) + Seq::new((a + 1) as nat, |k: int| Prey::Algae));
            }
            a += 1;
        }
        let ghost pre = self@.reefs;
        proof {
            assert(pre.len() == self.reefs@.len());
            assert(reef@ == reef_population(
                n_minnows as int,
                n_shrimp as int,
                n_clams as int,
                n_algae as int,
            ));
        }
        let index = self.reefs.len();
        self.reefs.push(reef);
        proof {
            assert(self@.reefs.len() == self.reefs@.len());
            assert(self@.reefs =~~= pre.push(
                reef_population(n_minnows as int, n_shrimp as int, n_clams as int, n_algae as int),
            ));
            assert(self@.beaches =~~= old(self)@.beaches);
        }
        ReefHandle { index }
    }
}

/// Two handles with the same position designate the same reef: what one
/// holder observes through its handle, every other holder of an equal
/// handle observes too.
pub proof fn lemma_handles_observe_same_reef(o: Ocean, h1: ReefHandle, h2: ReefHandle)
    requires
        h1@ == h2@,
        0 <= h1@ < o@.reefs.len(),
    ensures
        o@.reefs[h1@] == o@.reefs[h2@],
{
}

} // verus!
