use vstd::prelude::*;

verus! {

/// A GPU as mounted into the application.
#[derive(Debug)]
pub struct GpuPeripheral {
    pub name: String,
    pub model: String,
    pub index: Option<u32>,
    pub device_nodes: Vec<String>,
    pub vram: Option<u32>,
}

/// The runtime descriptor reads back every field of the configuration model.
pub open spec fn gpu_matches(r: GpuPeripheral, m: crate::models::GpuPeripheral) -> bool {
    &&& r.name@ == m.name@
    &&& r.model@ == m.model@
    &&& r.index == m.index
    &&& r.device_nodes@ == m.device_nodes@
    &&& r.vram == m.vram
}

impl GpuPeripheral {
    pub fn from_model(m: &crate::models::GpuPeripheral) -> (r: GpuPeripheral)
        ensures
            gpu_matches(r, *m),
    {
        GpuPeripheral {
            name: m.name.clone(),
            model: m.model.clone(),
            index: m.index,
            device_nodes: crate::peripherals::clone_strings(&m.device_nodes),
            vram: m.vram,
        }
    }
}

} // verus!
