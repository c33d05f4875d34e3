use vstd::prelude::*;

verus! {

/// One device detected on an I2C bus.
#[derive(Debug)]
pub struct I2cDetectedDevice {
    pub address: String,
    pub description: Option<String>,
}

/// The runtime device descriptor reads back every field of the model.
pub open spec fn i2c_device_matches(r: I2cDetectedDevice, m: crate::models::I2cDetectedDevice) -> bool {
    &&& r.address@ == m.address@
    &&& r.description == m.description
}

impl I2cDetectedDevice {
    pub fn from_model(m: &crate::models::I2cDetectedDevice) -> (r: I2cDetectedDevice)
        ensures
            i2c_device_matches(r, *m),
    {
        I2cDetectedDevice {
            address: m.address.clone(),
            description: crate::peripherals::clone_opt_string(&m.description),
        }
    }
}

/// An I2C bus as mounted into the application.
#[derive(Debug)]
pub struct I2cPeripheral {
    pub bus_number: u32,
    pub name: String,
    pub device_nodes: Vec<String>,
    pub detected_devices: Vec<I2cDetectedDevice>,
}

/// The runtime descriptor reads back every field of the model, device by
/// device.
pub open spec fn i2c_matches(r: I2cPeripheral, m: crate::models::I2cPeripheral) -> bool {
    &&& r.bus_number == m.bus_number
    &&& r.name@ == m.name@
    &&& r.device_nodes@ == m.device_nodes@
    &&& r.detected_devices@.len() == m.detected_devices@.len()
    &&& forall|i: int|
        0 <= i < r.detected_devices@.len() ==> i2c_device_matches(
            #[trigger] r.detected_devices@[i],
            m.detected_devices@[i],
        )
}

impl I2cPeripheral {
    pub fn from_model(m: &crate::models::I2cPeripheral) -> (r: I2cPeripheral)
        ensures
            i2c_matches(r, *m),
    {
        let mut detected_devices: Vec<I2cDetectedDevice> = Vec::new();
        let n: usize = m.detected_devices.len();
        let mut i: usize = 0;
        while i < n
            invariant
                n == m.detected_devices@.len(),
                0 <= i <= n,
                detected_devices@.len() == i,
                forall|j: int|
                    0 <= j < i ==> i2c_device_matches(
                        #[trigger] detected_devices@[j],
                        m.detected_devices@[j],
                    ),
            decreases n - i,
        {
            detected_devices.push(I2cDetectedDevice::from_model(&m.detected_devices[i]));
            i = i + 1;
        }
        I2cPeripheral {
            bus_number: m.bus_number,
            name: m.name.clone(),
            device_nodes: crate::peripherals::clone_strings(&m.device_nodes),
            detected_devices,
        }
    }
}

} // verus!
