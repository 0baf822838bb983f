use vstd::prelude::*;

verus! {

/// A prey organism: one of a closed set of variants. A reef holds them
/// behind one shared behavioral contract and never inspects the
/// variant-specific fields.
#[derive(Clone, Copy, PartialEq, Eq, Structural, Debug)]
pub enum Prey {
    Minnow { speed: u32 },
    Shrimp { energy: u32 },
    Clam,
    Algae,
}

/// A reef: an ordered, order-preserving collection of prey. A reef is
/// reached through `ReefHandle`s handed out by the owning `Ocean`, so
/// several holders can observe and mutate the same reef over time.
#[derive(Debug)]
pub struct Reef {
    prey: Vec<Prey>,
}

impl View for Reef {
    type V = Seq<Prey>;

    closed spec fn view(&self) -> Seq<Prey> {
        self.prey@
    }
}

impl DeepView for Reef {
    type V = Seq<Prey>;

    open spec fn deep_view(&self) -> Seq<Prey> {
        self.view()
    }
}

impl Reef {
    /// Creates an empty reef.
    pub fn new() -> (r: Reef)
        ensures
            r@ == Seq::<Prey>::empty(),
    {
        let r = Reef { prey: Vec::new() };
        proof {
            assert(r@ =~= Seq::<Prey>::empty());
        }
        r
    }

    /// The number of prey currently in the reef.
    pub fn size(&self) -> (n: usize)
        ensures
            n == self@.len(),
    {
        self.prey.len()
    }

    /// Appends one prey at the end of the reef.
    pub fn add_prey(&mut self, prey: Prey)
        ensures
            final(self)@ == old(self)@.push(prey),
    {
        self.prey.push(prey);
    }

    /// The prey at a given position, in storage order.
    pub fn prey_at(&self, index: usize) -> (p: &Prey)
        requires
            index < self@.len(),
        ensures
            *p == self@[index as int],
    {
        &self.prey[index]
    }
}

} // verus!
