use vstd::prelude::*;

verus! {

/// Any other peripheral as mounted into the application.
#[derive(Debug)]
pub struct OtherPeripheral {
    pub reference: String,
    pub name: String,
    pub device_nodes: Vec<String>,
}

/// The runtime descriptor reads back every field of the configuration model.
pub open spec fn other_matches(r: OtherPeripheral, m: crate::models::OtherPeripheral) -> bool {
    &&& r.reference@ == m.reference@
    &&& r.name@ == m.name@
    &&& r.device_nodes@ == m.device_nodes@
}

impl OtherPeripheral {
    pub fn from_model(m: &crate::models::OtherPeripheral) -> (r: OtherPeripheral)
        ensures
            other_matches(r, *m),
    {
        OtherPeripheral {
            reference: m.reference.clone(),
            name: m.name.clone(),
            device_nodes: crate::peripherals::clone_strings(&m.device_nodes),
        }
    }
}

} // verus!
