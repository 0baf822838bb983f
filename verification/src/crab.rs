use crate::color::Color;
use crate::diet::Diet;
use vstd::prelude::*;

verus! {

/// The mathematical content of a crab; contracts speak of this view.
#[verifier::ext_equal]
pub ghost struct CrabView {
    pub name: Seq<char>,
    pub speed: u32,
    pub color: Color,
    pub diet: Diet,
}

/// A crab: a named creature with a speed, a shell color and a diet.
/// Each crab is owned by exactly one beach; crabs are never copied.
#[derive(Debug)]
pub struct Crab {
    name: String,
    speed: u32,
    color: Color,
    diet: Diet,
}

impl View for Crab {
    type V = CrabView;

    closed spec fn view(&self) -> CrabView {
        CrabView { name: self.name@, speed: self.speed, color: self.color, diet: self.diet }
    }
}

impl DeepView for Crab {
    type V = CrabView;

    open spec fn deep_view(&self) -> CrabView {
        self.view()
    }
}

impl Crab {
    /// Builds a crab from its four attributes.
    pub fn new(name: String, speed: u32, color: Color, diet: Diet) -> (c: Crab)
        ensures
            c@ == (CrabView { name: name@, speed, color, diet }),
    {
        Crab { name, speed, color, diet }
    }

    pub fn name(&self) -> (r: &String)
        ensures
            r@ == self@.name,
    {
        &self.name
    }

    pub fn speed(&self) -> (r: u32)
        ensures
            r == self@.speed,
    {
        self.speed
    }

    pub fn color(&self) -> (r: Color)
        ensures
            r == self@.color,
    {
        self.color
    }

    pub fn diet(&self) -> (r: Diet)
        ensures
            r == self@.diet,
    {
        self.diet
    }
}

} // verus!
