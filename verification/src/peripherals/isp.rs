use vstd::prelude::*;

verus! {

/// An image signal processor as mounted into the application.
#[derive(Debug)]
pub struct IspPeripheral {
    pub name: String,
    pub supported_features: Vec<String>,
    pub device_nodes: Vec<String>,
}

/// The runtime descriptor reads back every field of the configuration model.
pub open spec fn isp_matches(r: IspPeripheral, m: crate::models::IspPeripheral) -> bool {
    &&& r.name@ == m.name@
    &&& r.supported_features@ == m.supported_features@
    &&& r.device_nodes@ == m.device_nodes@
}

impl IspPeripheral {
    pub fn from_model(m: &crate::models::IspPeripheral) -> (r: IspPeripheral)
        ensures
            isp_matches(r, *m),
    {
        IspPeripheral {
            name: m.name.clone(),
            supported_features: crate::peripherals::clone_strings(&m.supported_features),
            device_nodes: crate::peripherals::clone_strings(&m.device_nodes),
        }
    }
}

} // verus!
