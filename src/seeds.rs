use vstd::prelude::*;

verus! {

/// A named group of seed words that defines one pole of a bias axis.
#[derive(Clone, Debug)]
pub struct SubspaceSeeds {
    pub name: String,
    pub seeds: Vec<String>,
}

impl SubspaceSeeds {
    pub fn new(name: String, seeds: Vec<String>) -> (r: SubspaceSeeds)
        ensures
            r.name == name,
            r.seeds == seeds,
    {
        SubspaceSeeds { name, seeds }
    }
}

} // verus!
