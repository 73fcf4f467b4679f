//! Account and contract addresses, identified by their strkey text.
use vstd::prelude::*;

verus! {

/// An account or contract address, held as its strkey (`G...`/`C...`).
/// Two addresses are the same when their strkeys are.
#[derive(Debug, PartialEq, Eq)]
pub struct Address {
    pub strkey: String,
}

impl View for Address {
    type V = Seq<char>;

    open spec fn view(&self) -> Seq<char> {
        self.strkey@
    }
}

impl Address {
    /// The address with the given strkey.
    pub fn new(strkey: &str) -> (a: Address)
        ensures
            a@ == strkey@,
    {
        Address { strkey: strkey.to_owned() }
    }

    /// Whether both name the same address.
    pub fn same_as(&self, other: &Address) -> (r: bool)
        ensures
            r == (self@ == other@),
    {
        self.strkey == other.strkey
    }

    /// The strkey text of this address.
    pub fn as_str(&self) -> (s: &str)
        ensures
            s@ == self@,
    {
        self.strkey.as_str()
    }
}

impl Clone for Address {
    fn clone(&self) -> (r: Self)
        ensures
            r == *self,
    {
        Address { strkey: self.strkey.clone() }
    }
}

/// Clones an optional address.
pub fn clone_opt_address(a: &Option<Address>) -> (r: Option<Address>)
    ensures
        r == *a,
{
    match a {
        Some(x) => Some(x.clone()),
        None => None,
    }
}

} // verus!
