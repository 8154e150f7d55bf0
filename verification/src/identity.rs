//! Identities: who creates a record, and who may change it afterwards.

use vstd::prelude::*;

verus! {

/// An opaque handle for a party that can prove who it is to the host.
///
/// The store never looks inside a handle. It only asks whether two handles
/// name the same party, which they do exactly when their keys are the same
/// text.
#[derive(Debug)]
pub struct Identity {
    key: String,
}

impl View for Identity {
    type V = Seq<char>;

    closed spec fn view(&self) -> Seq<char> {
        self.key@
    }
}

impl Identity {
    /// The identity that the host knows under `key`.
    pub fn new(key: String) -> (identity: Identity)
        ensures
            identity@ == key@,
    {
        Identity { key }
    }

    /// The key that this identity was made from.
    pub fn key(&self) -> (key: &String)
        ensures
            key@ == self@,
    {
        &self.key
    }

    /// Whether `self` and `other` name the same party.
    pub fn same_as(&self, other: &Identity) -> (same: bool)
        ensures
            same == (self@ == other@),
    {
        self.key == other.key
    }
}

impl Clone for Identity {
    fn clone(&self) -> (copy: Identity)
        ensures
            copy@ == self@,
    {
        Identity { key: self.key.clone() }
    }
}

impl PartialEq for Identity {
    fn eq(&self, other: &Identity) -> (same: bool) {
        self.key == other.key
    }
}

impl Eq for Identity {

}

impl vstd::std_specs::cmp::PartialEqSpecImpl for Identity {
    open spec fn obeys_eq_spec() -> bool {
        true
    }

    open spec fn eq_spec(&self, other: &Identity) -> bool {
        self@ == other@
    }
}

} // verus!
