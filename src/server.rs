use vstd::prelude::*;

verus! {

/// A server bound, once started, to one address.
#[derive(Debug)]
pub struct Server {
    ip: String,
}

impl Server {
    pub closed spec fn spec_ip(&self) -> Seq<char> {
        self.ip@
    }

    pub fn new(ip: String) -> (r: Server)
        ensures
            r.spec_ip() == ip@,
    {
        Server { ip }
    }

    /// The address the server listens on.
    pub fn ip(&self) -> (r: &str)
        ensures
            r@ == self.spec_ip(),
    {
        self.ip.as_str()
    }
}

} // verus!
