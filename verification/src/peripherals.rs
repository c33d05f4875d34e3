use vstd::prelude::*;

pub mod base;
pub mod camera;
pub mod codec;
pub mod generic_device;
pub mod gpio;
pub mod gpu;
pub mod i2c;
pub mod isp;
pub mod other;
pub mod real_sense;
pub mod rendering;

pub use base::{create_peripheral_from_model, Peripheral, PeripheralManager};
pub use camera::CameraPeripheral;
pub use codec::CodecPeripheral;
pub use generic_device::GenericDevicePeripheral;
pub use gpio::{GpioLineInfo, GpioPeripheral};
pub use gpu::GpuPeripheral;
pub use i2c::{I2cDetectedDevice, I2cPeripheral};
pub use isp::IspPeripheral;
pub use other::OtherPeripheral;
pub use real_sense::RealSenseCameraPeripheral;
pub use rendering::RenderingPeripheral;

verus! {

use crate::index::NameIndex;

/// The device node a mounted peripheral name resolves to.
pub fn resolve_peripheral_name(mounts: &NameIndex<String>, name: &str) -> (r: Option<String>)
    ensures
        r == mounts.spec_get(name@),
{
    match mounts.get(name) {
        Some(mount) => Some(mount.clone()),
        None => None,
    }
}

/// Copies a list of strings; the copy reads back identically.
pub(crate) fn clone_strings(v: &Vec<String>) -> (r: Vec<String>)
    ensures
        r@ == v@,
{
    let mut out: Vec<String> = Vec::new();
    let n: usize = v.len();
    let mut i: usize = 0;
    while i < n
        invariant
            n == v@.len(),
            0 <= i <= n,
            out@ == v@.take(i as int),
        decreases n - i,
    {
        out.push(v[i].clone());
        proof {
            assert(out@ =~= v@.take(i as int + 1));
        }
        i = i + 1;
    }
    proof {
        assert(v@.take(n as int) =~= v@);
    }
    out
}

/// Copies a list of string pairs.
pub(crate) fn clone_string_pairs(v: &Vec<(String, String)>) -> (r: Vec<(String, String)>)
    ensures
        r@ == v@,
{
    let mut out: Vec<(String, String)> = Vec::new();
    let n: usize = v.len();
    let mut i: usize = 0;
    while i < n
        invariant
            n == v@.len(),
            0 <= i <= n,
            out@ == v@.take(i as int),
        decreases n - i,
    {
        let pair = &v[i];
        out.push((pair.0.clone(), pair.1.clone()));
        proof {
            assert(out@ =~= v@.take(i as int + 1));
        }
        i = i + 1;
    }
    proof {
        assert(v@.take(n as int) =~= v@);
    }
    out
}

/// Copies an optional string.
pub(crate) fn clone_opt_string(v: &Option<String>) -> (r: Option<String>)
    ensures
        r == *v,
{
    match v {
        Some(s) => Some(s.clone()),
        None => None,
    }
}

} // verus!
