use vstd::prelude::*;

verus! {

use crate::config::ConfigValue;
use crate::index::NameIndex;
use vstd::string::StringExecFns;

/// Version tag of the configuration schema this layer consumes.
pub const CURRENT_CONFIG_VERSION: &'static str = "1.0.0";

/// Where a bound peer can be reached.
#[derive(Clone, Debug)]
pub struct AccessPoint {
    pub vpn_ip: String,
    pub vpn_port: u16,
    pub public_ip: Option<String>,
    pub public_port: Option<u16>,
    pub same_node: bool,
}

#[derive(Clone, Debug)]
pub struct StorageConfig {
    pub url: String,
    pub endpoint_url: String,
    pub access_key: String,
    pub secret_key: String,
}

#[derive(Clone, Debug)]
pub struct ApplicationInfo {
    pub deployed_application_id: String,
    pub deployed_application_name: String,
    pub system_id: String,
    pub application_id: String,
    pub application_name: String,
    pub git_url: Option<String>,
    pub git_branch: Option<String>,
    pub is_release_version: bool,
}

/// A publish-side topic declaration: logical name, routing key, declared
/// message type, and the free-form transport settings.
#[derive(Debug)]
pub struct PublisherTopicConfig {
    pub topic_name: String,
    pub topic_key: String,
    pub message_type: String,
    pub interface_name: String,
    pub config: NameIndex<ConfigValue>,
    pub protocol: String,
    pub encoding: Option<String>,
}

#[derive(Debug)]
pub struct SubscriberTopicConfig {
    pub topic_name: String,
    pub topic_key: String,
    pub message_type: String,
    pub interface_name: String,
    pub config: NameIndex<ConfigValue>,
    pub protocol: String,
    pub encoding: Option<String>,
}

#[derive(Debug)]
pub struct RequesterEndpointConfig {
    pub endpoint_name: String,
    pub endpoint_key: String,
    pub requester_message_type: String,
    pub provider_message_type: String,
    pub interface_name: String,
    pub config: NameIndex<ConfigValue>,
    pub protocol: String,
    pub encoding: Option<String>,
}

#[derive(Debug)]
pub struct ProviderEndpointConfig {
    pub endpoint_name: String,
    pub endpoint_key: String,
    pub requester_message_type: String,
    pub provider_message_type: String,
    pub interface_name: String,
    pub config: NameIndex<ConfigValue>,
    pub protocol: String,
    pub encoding: Option<String>,
}

#[derive(Debug)]
pub struct ClientServiceConfig {
    pub name: String,
    pub spec_path: String,
    pub key: String,
    pub interface_name: String,
    pub config: NameIndex<ConfigValue>,
    pub protocol: String,
}

#[derive(Debug)]
pub struct ServerServiceConfig {
    pub name: String,
    pub key: String,
    pub spec_path: String,
    pub interface_name: String,
    pub config: NameIndex<ConfigValue>,
    pub protocol: String,
}

#[derive(Debug)]
pub struct BoundSubscriber {
    pub access_point: AccessPoint,
    pub config: SubscriberTopicConfig,
}

#[derive(Debug)]
pub struct BoundRequester {
    pub access_point: AccessPoint,
    pub config: RequesterEndpointConfig,
}

#[derive(Debug)]
pub struct BoundClient {
    pub access_point: AccessPoint,
    pub config: ClientServiceConfig,
}

/// Everything one interface declares, indexed by logical name per role.
#[derive(Debug)]
pub struct InterfaceConfig {
    pub name: String,
    pub publishers: NameIndex<PublisherTopicConfig>,
    pub subscribers: NameIndex<BoundSubscriber>,
    pub requesters: NameIndex<BoundRequester>,
    pub providers: NameIndex<ProviderEndpointConfig>,
    pub clients: NameIndex<BoundClient>,
    pub servers: NameIndex<ServerServiceConfig>,
}

impl InterfaceConfig {
    /// An interface with the given name and no declarations.
    pub fn empty(name: String) -> (r: InterfaceConfig)
        ensures
            r.name@ == name@,
            r.publishers.wf() && r.publishers.spec_len() == 0,
            r.subscribers.wf() && r.subscribers.spec_len() == 0,
            r.requesters.wf() && r.requesters.spec_len() == 0,
            r.providers.wf() && r.providers.spec_len() == 0,
            r.clients.wf() && r.clients.spec_len() == 0,
            r.servers.wf() && r.servers.spec_len() == 0,
            forall|k: Seq<char>| r.publishers.spec_get(k) is None,
            forall|k: Seq<char>| r.subscribers.spec_get(k) is None,
            forall|k: Seq<char>| r.requesters.spec_get(k) is None,
            forall|k: Seq<char>| r.providers.spec_get(k) is None,
            forall|k: Seq<char>| r.clients.spec_get(k) is None,
            forall|k: Seq<char>| r.servers.spec_get(k) is None,
    {
        InterfaceConfig {
            name,
            publishers: NameIndex::new(),
            subscribers: NameIndex::new(),
            requesters: NameIndex::new(),
            providers: NameIndex::new(),
            clients: NameIndex::new(),
            servers: NameIndex::new(),
        }
    }
}

/// The whole parsed application configuration.
#[derive(Debug)]
pub struct ApplicationEnvConfig {
    pub interfaces: NameIndex<InterfaceConfig>,
    pub peripherals: MountedPeripherals,
    pub config: ConfigValue,
    pub storage: Option<StorageConfig>,
    pub application_info: ApplicationInfo,
}

pub type ApplicationConfig = ApplicationEnvConfig;

pub fn default_interface_name() -> (r: String)
    ensures
        r@ == "zenoh"@,
{
    String::from_str("zenoh")
}

pub fn default_protocol() -> (r: String)
    ensures
        r@ == "zenoh"@,
{
    String::from_str("zenoh")
}

pub fn default_encoding() -> (r: Option<String>)
    ensures
        match r {
            Some(e) => e@ == "proto"@,
            None => false,
        },
{
    Some(String::from_str("proto"))
}

// ---------------------------------------------------------------------------
// Peripheral descriptors, as the configuration document delivers them.
// ---------------------------------------------------------------------------

#[derive(Clone, Debug)]
pub enum PeripheralType {
    Camera,
    RealSense,
    Speaker,
    Keyboard,
    Mouse,
    Microphone,
    GPU,
    I2C,
    GPIO,
    ISP,
    Codec,
    Rendering,
    GenericDevice,
    Other(String),
}

#[derive(Clone, Debug)]
pub struct GpuPeripheral {
    pub peripheral_type: PeripheralType,
    pub name: String,
    pub model: String,
    pub index: Option<u32>,
    pub device_nodes: Vec<String>,
    pub vram: Option<u32>,
}

#[derive(Clone, Debug)]
pub struct GenericDevicePeripheral {
    pub peripheral_type: PeripheralType,
    pub name: String,
    pub device_node: String,
}

#[derive(Clone, Debug)]
pub struct GenericDeviceConstraints {
    pub path_prefix: Option<String>,
    pub path_suffix: Option<String>,
    pub contains: Option<Vec<String>>,
    pub contains_not: Option<Vec<String>>,
}

#[derive(Clone, Debug)]
pub struct I2cDetectedDevice {
    pub address: String,
    pub description: Option<String>,
}

#[derive(Clone, Debug)]
pub struct I2cPeripheral {
    pub peripheral_type: PeripheralType,
    pub bus_number: u32,
    pub name: String,
    pub device_nodes: Vec<String>,
    pub detected_devices: Vec<I2cDetectedDevice>,
}

#[derive(Clone, Debug)]
pub struct GpioLineInfo {
    pub line_offset: u32,
    pub name: Option<String>,
    pub consumer: Option<String>,
    pub direction: String,
    pub active_state: String,
    pub used: bool,
}

#[derive(Clone, Debug)]
pub struct GpioPeripheral {
    pub peripheral_type: PeripheralType,
    pub chip_name: String,
    pub label: String,
    pub num_lines: u32,
    pub device_nodes: Vec<String>,
    pub lines: Vec<GpioLineInfo>,
}

#[derive(Clone, Debug)]
pub struct CameraPeripheral {
    pub reference: String,
    pub peripheral_type: PeripheralType,
    pub name: String,
    pub device_nodes: Vec<String>,
    pub volumes: Vec<(String, String)>,
    pub camera_type: Option<String>,
    pub protocol: Option<String>,
}

#[derive(Clone, Debug)]
pub struct CameraConstraints {
    pub camera_types: Option<Vec<String>>,
    pub protocols: Option<Vec<String>>,
}

#[derive(Clone, Debug)]
pub struct RealSenseCameraPeripheral {
    pub peripheral_type: PeripheralType,
    pub name: String,
    pub device_nodes: Vec<String>,
    pub serial_number: String,
    pub model: String,
}

#[derive(Clone, Debug)]
pub struct IspPeripheral {
    pub peripheral_type: PeripheralType,
    pub name: String,
    pub supported_features: Vec<String>,
    pub device_nodes: Vec<String>,
}

#[derive(Clone, Debug)]
pub struct CodecPeripheral {
    pub peripheral_type: PeripheralType,
    pub name: String,
    pub supported_codecs: Vec<String>,
    pub device_nodes: Vec<String>,
}

#[derive(Clone, Debug)]
pub struct RenderingPeripheral {
    pub peripheral_type: PeripheralType,
    pub name: String,
    pub supported_apis: Vec<String>,
    pub max_performance: Option<u32>,
    pub device_nodes: Vec<String>,
}

#[derive(Clone, Debug)]
pub struct OtherPeripheral {
    pub reference: String,
    pub peripheral_type: PeripheralType,
    pub name: String,
    pub device_nodes: Vec<String>,
}

#[derive(Clone, Debug)]
pub enum Peripheral {
    GPU(GpuPeripheral),
    I2C(I2cPeripheral),
    GPIO(GpioPeripheral),
    Camera(CameraPeripheral),
    RealSense(RealSenseCameraPeripheral),
    ISP(IspPeripheral),
    Codec(CodecPeripheral),
    Rendering(RenderingPeripheral),
    Speaker(OtherPeripheral),
    Keyboard(OtherPeripheral),
    Mouse(OtherPeripheral),
    GenericDevice(GenericDevicePeripheral),
    Other(OtherPeripheral),
}

#[derive(Clone, Debug)]
pub struct GpuConstraints {
    pub min_vram: Option<u32>,
    pub model: Option<String>,
    pub min_driver_version: Option<String>,
    pub min_cuda_version: Option<String>,
}

#[derive(Clone, Debug)]
pub enum PeripheralConstraints {
    GPU(GpuConstraints),
    Camera(CameraConstraints),
    GenericDevice(GenericDeviceConstraints),
}

#[derive(Clone, Debug)]
pub struct PeripheralRequirement {
    pub peripheral_type: PeripheralType,
    pub name: String,
    pub constraints: Option<PeripheralConstraints>,
}

#[derive(Clone, Debug)]
pub struct MountedPeripheral {
    pub name: String,
    pub peripheral: Peripheral,
}

#[derive(Clone, Debug)]
pub struct MountedPeripherals {
    pub peripherals: Vec<MountedPeripheral>,
}

#[derive(Clone, Debug)]
pub enum RestartPolicy {
    Always,
    OnFailure,
    Never,
}

} // verus!
