use vstd::prelude::*;

verus! {

/// The concrete message shape that the typed wrappers and codecs carry: a
/// numeric identifier and a text payload.
#[derive(Clone, Debug)]
pub struct Record {
    pub id: u32,
    pub name: String,
}

impl Record {
    pub fn new(id: u32, name: String) -> (r: Record)
        ensures
            r.id == id,
            r.name@ == name@,
    {
        Record { id, name }
    }

    /// Field-wise equality; `String` blocks a structural derive, so it is
    /// spelled out.
    pub fn same_as(&self, other: &Record) -> (r: bool)
        ensures
            r == (self.id == other.id && self.name@ == other.name@),
    {
        self.id == other.id && self.name == other.name
    }
}

impl PartialEq for Record {
    fn eq(&self, other: &Record) -> (r: bool) {
        self.id == other.id && self.name == other.name
    }
}

impl Eq for Record {

}

impl vstd::std_specs::cmp::PartialEqSpecImpl for Record {
    open spec fn obeys_eq_spec() -> bool {
        true
    }

    open spec fn eq_spec(&self, other: &Record) -> bool {
        self.id == other.id && self.name@ == other.name@
    }
}

} // verus!
