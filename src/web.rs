use vstd::prelude::*;
use vstd::string::*;

verus! {

/// The version of this library.
pub fn version() -> (r: String)
    ensures
        r@ == "0.1.0"@,
{
    String::from_str("0.1.0")
}

/// Settings of the local file server that shows the results.
#[derive(Clone, Debug)]
pub struct Web {
    pub port: u16,
    pub version: String,
}

impl Web {
    pub fn new(port: u16) -> (r: Web)
        ensures
            r.port == port,
            r.version@ == "0.1.0"@,
    {
        Web { port, version: version() }
    }
}

} // verus!
