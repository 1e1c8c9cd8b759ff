use vstd::prelude::*;

verus! {

/// An IPv4 address held as its four dotted-quad octets.
#[derive(Clone, Copy, Debug, PartialEq, Eq, Structural)]
pub struct Ipv4 {
    pub o0: u8,
    pub o1: u8,
    pub o2: u8,
    pub o3: u8,
}

impl Ipv4 {
    pub fn new(o0: u8, o1: u8, o2: u8, o3: u8) -> (r: Ipv4)
        ensures
            r == (Ipv4 { o0, o1, o2, o3 }),
    {
        Ipv4 { o0, o1, o2, o3 }
    }

    /// The all-zero sentinel that stands for "currently no known address".
    pub open spec fn spec_unspecified() -> Ipv4 {
        Ipv4 { o0: 0, o1: 0, o2: 0, o3: 0 }
    }

    pub fn unspecified() -> (r: Ipv4)
        ensures
            r == Ipv4::spec_unspecified(),
    {
        Ipv4 { o0: 0, o1: 0, o2: 0, o3: 0 }
    }

    pub open spec fn is_unspecified(self) -> bool {
        self == Ipv4::spec_unspecified()
    }

    pub fn octets(&self) -> (r: (u8, u8, u8, u8))
        ensures
            r == ((self.o0, self.o1, self.o2, self.o3)),
    {
        (self.o0, self.o1, self.o2, self.o3)
    }
}

} // verus!
