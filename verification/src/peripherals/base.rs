use vstd::prelude::*;

verus! {

use crate::index::NameIndex;
use crate::models::{ApplicationConfig, MountedPeripheral};
use crate::peripherals::camera::{camera_matches, CameraPeripheral};
use crate::peripherals::codec::{codec_matches, CodecPeripheral};
use crate::peripherals::generic_device::{generic_device_matches, GenericDevicePeripheral};
use crate::peripherals::gpio::{gpio_matches, GpioPeripheral};
use crate::peripherals::gpu::{gpu_matches, GpuPeripheral};
use crate::peripherals::i2c::{i2c_matches, I2cPeripheral};
use crate::peripherals::isp::{isp_matches, IspPeripheral};
use crate::peripherals::other::{other_matches, OtherPeripheral};
use crate::peripherals::real_sense::{real_sense_matches, RealSenseCameraPeripheral};
use crate::peripherals::rendering::{rendering_matches, RenderingPeripheral};

/// A mounted peripheral as the application works with it.
#[derive(Debug)]
pub enum Peripheral {
    Camera(CameraPeripheral),
    Gpu(GpuPeripheral),
    Gpio(GpioPeripheral),
    I2c(I2cPeripheral),
    Isp(IspPeripheral),
    Codec(CodecPeripheral),
    Rendering(RenderingPeripheral),
    RealSense(RealSenseCameraPeripheral),
    GenericDevice(GenericDevicePeripheral),
    Other(OtherPeripheral),
}

/// The runtime peripheral carries the declared role and reads back the
/// model's fields; the speaker, keyboard and mouse roles all land in the
/// catch-all descriptor.
pub open spec fn peripheral_matches(p: Peripheral, m: crate::models::Peripheral) -> bool {
    match m {
        crate::models::Peripheral::Camera(c) => p matches Peripheral::Camera(r)
            && camera_matches(r, c),
        crate::models::Peripheral::GPU(g) => p matches Peripheral::Gpu(r) && gpu_matches(r, g),
        crate::models::Peripheral::GPIO(g) => p matches Peripheral::Gpio(r) && gpio_matches(r, g),
        crate::models::Peripheral::I2C(d) => p matches Peripheral::I2c(r) && i2c_matches(r, d),
        crate::models::Peripheral::ISP(d) => p matches Peripheral::Isp(r) && isp_matches(r, d),
        crate::models::Peripheral::Codec(d) => p matches Peripheral::Codec(r) && codec_matches(
            r,
            d,
        ),
        crate::models::Peripheral::Rendering(d) => p matches Peripheral::Rendering(r)
            && rendering_matches(r, d),
        crate::models::Peripheral::RealSense(d) => p matches Peripheral::RealSense(r)
            && real_sense_matches(r, d),
        crate::models::Peripheral::GenericDevice(d) => p matches Peripheral::GenericDevice(r)
            && generic_device_matches(r, d),
        crate::models::Peripheral::Speaker(d) => p matches Peripheral::Other(r) && other_matches(
            r,
            d,
        ),
        crate::models::Peripheral::Keyboard(d) => p matches Peripheral::Other(r) && other_matches(
            r,
            d,
        ),
        crate::models::Peripheral::Mouse(d) => p matches Peripheral::Other(r) && other_matches(
            r,
            d,
        ),
        crate::models::Peripheral::Other(d) => p matches Peripheral::Other(r) && other_matches(
            r,
            d,
        ),
    }
}

/// Builds the runtime descriptor for one peripheral model.
pub fn create_peripheral_from_model(mp: &crate::models::Peripheral) -> (r: Peripheral)
    ensures
        peripheral_matches(r, *mp),
{
    match mp {
        crate::models::Peripheral::Camera(c) => Peripheral::Camera(CameraPeripheral::from_model(c)),
        crate::models::Peripheral::GPU(g) => Peripheral::Gpu(GpuPeripheral::from_model(g)),
        crate::models::Peripheral::GPIO(g) => Peripheral::Gpio(GpioPeripheral::from_model(g)),
        crate::models::Peripheral::I2C(d) => Peripheral::I2c(I2cPeripheral::from_model(d)),
        crate::models::Peripheral::ISP(d) => Peripheral::Isp(IspPeripheral::from_model(d)),
        crate::models::Peripheral::Codec(d) => Peripheral::Codec(CodecPeripheral::from_model(d)),
        crate::models::Peripheral::Rendering(d) => Peripheral::Rendering(
            RenderingPeripheral::from_model(d),
        ),
        crate::models::Peripheral::RealSense(d) => Peripheral::RealSense(
            RealSenseCameraPeripheral::from_model(d),
        ),
        crate::models::Peripheral::GenericDevice(d) => Peripheral::GenericDevice(
            GenericDevicePeripheral::from_model(d),
        ),
        crate::models::Peripheral::Speaker(d) => Peripheral::Other(OtherPeripheral::from_model(d)),
        crate::models::Peripheral::Keyboard(d) => Peripheral::Other(OtherPeripheral::from_model(d)),
        crate::models::Peripheral::Mouse(d) => Peripheral::Other(OtherPeripheral::from_model(d)),
        crate::models::Peripheral::Other(d) => Peripheral::Other(OtherPeripheral::from_model(d)),
    }
}

/// The last mounted entry under `name`; a later mount shadows an earlier one
/// with the same name.
pub open spec fn find_mounted(mounts: Seq<MountedPeripheral>, name: Seq<char>) -> Option<
    MountedPeripheral,
>
    decreases mounts.len(),
{
    if mounts.len() == 0 {
        None
    } else if mounts.last().name@ == name {
        Some(mounts.last())
    } else {
        find_mounted(mounts.drop_last(), name)
    }
}

/// How many distinct mounted names the list declares; a repeated name keeps
/// one registry entry.
pub open spec fn mounted_name_count(mounts: Seq<MountedPeripheral>) -> nat
    decreases mounts.len(),
{
    if mounts.len() == 0 {
        0
    } else {
        mounted_name_count(mounts.drop_last()) + if find_mounted(
            mounts.drop_last(),
            mounts.last().name@,
        ) is Some {
            0nat
        } else {
            1nat
        }
    }
}

/// The peripheral registry: runtime descriptors indexed by mounted name,
/// built once from the application configuration.
pub struct PeripheralManager {
    peripherals: NameIndex<Peripheral>,
    pub config: ApplicationConfig,
}

impl PeripheralManager {
    pub closed spec fn spec_peripheral(&self, name: Seq<char>) -> Option<Peripheral> {
        self.peripherals.spec_get(name)
    }

    pub closed spec fn spec_len(&self) -> nat {
        self.peripherals.spec_len()
    }

    pub closed spec fn spec_entries(&self) -> Seq<(String, Peripheral)> {
        self.peripherals.entries_seq()
    }

    pub closed spec fn spec_config(&self) -> ApplicationConfig {
        self.config
    }

    /// Builds the registry: each mounted peripheral of the configuration is
    /// turned into its runtime descriptor under its mounted name.
    pub fn new(config: ApplicationConfig) -> (r: PeripheralManager)
        ensures
            forall|nm: Seq<char>|
                match #[trigger] r.spec_peripheral(nm) {
                    Some(p) => match find_mounted(r.spec_config().peripherals.peripherals@, nm) {
                        Some(mp) => peripheral_matches(p, mp.peripheral),
                        None => false,
                    },
                    None => find_mounted(r.spec_config().peripherals.peripherals@, nm) is None,
                },
            r.spec_len() == mounted_name_count(r.spec_config().peripherals.peripherals@),
            r.spec_config() == config,
    {
        let mut peripherals: NameIndex<Peripheral> = NameIndex::new();
        let n: usize = config.peripherals.peripherals.len();
        let mut i: usize = 0;
        proof {
            assert(config.peripherals.peripherals@.take(0) =~= Seq::<MountedPeripheral>::empty());
        }
        while i < n
            invariant
                n == config.peripherals.peripherals@.len(),
                0 <= i <= n,
                peripherals.wf(),
                forall|nm: Seq<char>|
                    match #[trigger] peripherals.spec_get(nm) {
                        Some(p) => match find_mounted(
                            config.peripherals.peripherals@.take(i as int),
                            nm,
                        ) {
                            Some(mp) => peripheral_matches(p, mp.peripheral),
                            None => false,
                        },
                        None => find_mounted(
                            config.peripherals.peripherals@.take(i as int),
                            nm,
                        ) is None,
                    },
                peripherals.spec_len() == mounted_name_count(
                    config.peripherals.peripherals@.take(i as int),
                ),
            decreases n - i,
        {
            let ghost prefix = config.peripherals.peripherals@.take(i as int);
            let ghost next_prefix = config.peripherals.peripherals@.take(i as int + 1);
            proof {
                assert(next_prefix.drop_last() =~= prefix);
                assert(next_prefix.last() == config.peripherals.peripherals@[i as int]);
            }
            let mp = &config.peripherals.peripherals[i];
            let peripheral = create_peripheral_from_model(&mp.peripheral);
            peripherals.insert(mp.name.clone(), peripheral);
            i = i + 1;
        }
        proof {
            assert(config.peripherals.peripherals@.take(n as int)
                =~= config.peripherals.peripherals@);
        }
        PeripheralManager { peripherals, config }
    }

    /// The runtime descriptor mounted under `name`, if any.
    pub fn get_peripheral_by_name<'a>(&'a self, name: &str) -> (r: Option<&'a Peripheral>)
        ensures
            match r {
                Some(p) => self.spec_peripheral(name@) == Some(*p),
                None => self.spec_peripheral(name@) is None,
            },
    {
        self.peripherals.get(name)
    }

    /// All mounted descriptors, one per mounted name.
    pub fn list_peripherals(&self) -> (r: &Vec<(String, Peripheral)>)
        ensures
            r@ == self.spec_entries(),
    {
        self.peripherals.pairs()
    }

    /// The mounted names with their descriptors.
    pub fn iter(&self) -> (r: &Vec<(String, Peripheral)>)
        ensures
            r@ == self.spec_entries(),
    {
        self.peripherals.pairs()
    }

    pub fn len(&self) -> (r: usize)
        ensures
            r == self.spec_len(),
    {
        self.peripherals.len()
    }

    pub fn contains(&self, name: &str) -> (r: bool)
        ensures
            r == (self.spec_peripheral(name@) is Some),
    {
        self.peripherals.contains_key(name)
    }
}

} // verus!
