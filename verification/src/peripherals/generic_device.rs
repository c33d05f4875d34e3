use vstd::prelude::*;

verus! {

/// A generic device node as mounted into the application.
#[derive(Debug)]
pub struct GenericDevicePeripheral {
    pub name: String,
    pub device_node: String,
}

/// The runtime descriptor reads back every field of the configuration model.
pub open spec fn generic_device_matches(r: GenericDevicePeripheral, m: crate::models::GenericDevicePeripheral) -> bool {
    &&& r.name@ == m.name@
    &&& r.device_node@ == m.device_node@
}

impl GenericDevicePeripheral {
    pub fn from_model(m: &crate::models::GenericDevicePeripheral) -> (r: GenericDevicePeripheral)
        ensures
            generic_device_matches(r, *m),
    {
        GenericDevicePeripheral {
            name: m.name.clone(),
            device_node: m.device_node.clone(),
        }
    }
}

} // verus!
