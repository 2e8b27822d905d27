//! Named substances.

use vstd::prelude::*;

verus! {

/// A named chemical species together with its molar mass.  The engine only
/// stores the molar-mass magnitude and hands it back, so the magnitude type
/// is the caller's choice.
#[derive(Clone, Debug)]
pub struct Substance<M> {
    pub name: String,
    pub molar_mass: M,
}

impl<M> Substance<M> {
    /// A substance record with the given name and molar mass.
    pub fn create(name: String, molar_mass: M) -> (r: Self)
        ensures
            r.name == name,
            r.molar_mass == molar_mass,
    {
        Substance { name, molar_mass }
    }

    /// The substance's name.
    pub fn get_name(&self) -> (r: &String)
        ensures
            r == &self.name,
    {
        &self.name
    }

    /// The substance's molar mass.
    pub fn get_molar_mass(&self) -> (r: &M)
        ensures
            r == &self.molar_mass,
    {
        &self.molar_mass
    }
}

} // verus!
