use vstd::prelude::*;

verus! {

/// A camera as mounted into the application.
#[derive(Debug)]
pub struct CameraPeripheral {
    pub reference: String,
    pub name: String,
    pub device_nodes: Vec<String>,
    pub volumes: Vec<(String, String)>,
    pub camera_type: Option<String>,
    pub protocol: Option<String>,
}

/// The runtime descriptor reads back every field of the configuration model.
pub open spec fn camera_matches(r: CameraPeripheral, m: crate::models::CameraPeripheral) -> bool {
    &&& r.reference@ == m.reference@
    &&& r.name@ == m.name@
    &&& r.device_nodes@ == m.device_nodes@
    &&& r.volumes@ == m.volumes@
    &&& r.camera_type == m.camera_type
    &&& r.protocol == m.protocol
}

impl CameraPeripheral {
    pub fn from_model(m: &crate::models::CameraPeripheral) -> (r: CameraPeripheral)
        ensures
            camera_matches(r, *m),
    {
        CameraPeripheral {
            reference: m.reference.clone(),
            name: m.name.clone(),
            device_nodes: crate::peripherals::clone_strings(&m.device_nodes),
            volumes: crate::peripherals::clone_string_pairs(&m.volumes),
            camera_type: crate::peripherals::clone_opt_string(&m.camera_type),
            protocol: crate::peripherals::clone_opt_string(&m.protocol),
        }
    }
}

} // verus!
