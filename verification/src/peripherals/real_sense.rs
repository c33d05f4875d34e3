use vstd::prelude::*;

verus! {

/// A depth camera as mounted into the application.
#[derive(Debug)]
pub struct RealSenseCameraPeripheral {
    pub name: String,
    pub device_nodes: Vec<String>,
    pub serial_number: String,
    pub model: String,
}

/// The runtime descriptor reads back every field of the configuration model.
pub open spec fn real_sense_matches(r: RealSenseCameraPeripheral, m: crate::models::RealSenseCameraPeripheral) -> bool {
    &&& r.name@ == m.name@
    &&& r.device_nodes@ == m.device_nodes@
    &&& r.serial_number@ == m.serial_number@
    &&& r.model@ == m.model@
}

impl RealSenseCameraPeripheral {
    pub fn from_model(m: &crate::models::RealSenseCameraPeripheral) -> (r: RealSenseCameraPeripheral)
        ensures
            real_sense_matches(r, *m),
    {
        RealSenseCameraPeripheral {
            name: m.name.clone(),
            device_nodes: crate::peripherals::clone_strings(&m.device_nodes),
            serial_number: m.serial_number.clone(),
            model: m.model.clone(),
        }
    }
}

} // verus!
