use vstd::prelude::*;

verus! {

/// A rendering device as mounted into the application.
#[derive(Debug)]
pub struct RenderingPeripheral {
    pub name: String,
    pub supported_apis: Vec<String>,
    pub max_performance: Option<u32>,
    pub device_nodes: Vec<String>,
}

/// The runtime descriptor reads back every field of the configuration model.
pub open spec fn rendering_matches(r: RenderingPeripheral, m: crate::models::RenderingPeripheral) -> bool {
    &&& r.name@ == m.name@
    &&& r.supported_apis@ == m.supported_apis@
    &&& r.max_performance == m.max_performance
    &&& r.device_nodes@ == m.device_nodes@
}

impl RenderingPeripheral {
    pub fn from_model(m: &crate::models::RenderingPeripheral) -> (r: RenderingPeripheral)
        ensures
            rendering_matches(r, *m),
    {
        RenderingPeripheral {
            name: m.name.clone(),
            supported_apis: crate::peripherals::clone_strings(&m.supported_apis),
            max_performance: m.max_performance,
            device_nodes: crate::peripherals::clone_strings(&m.device_nodes),
        }
    }
}

} // verus!
