use make87::config::ConfigValue;
use make87::index::NameIndex;
use make87::models;
use make87::models::{ApplicationEnvConfig, ApplicationInfo, MountedPeripheral, MountedPeripherals};
use make87::peripherals::{
    CameraPeripheral, CodecPeripheral, GenericDevicePeripheral, GpioLineInfo, GpioPeripheral,
    GpuPeripheral, I2cDetectedDevice, I2cPeripheral, IspPeripheral, OtherPeripheral, Peripheral,
    PeripheralManager, RealSenseCameraPeripheral, RenderingPeripheral,
};

fn camera_model() -> models::CameraPeripheral {
    models::CameraPeripheral {
        reference: "ref1".to_string(),
        peripheral_type: models::PeripheralType::Camera,
        name: "cam1".to_string(),
        device_nodes: vec!["/dev/video0".to_string()],
        volumes: vec![("/host/path".to_string(), "/container/path".to_string())],
        camera_type: Some("usb".to_string()),
        protocol: Some("v4l2".to_string()),
    }
}

fn make_test_config() -> ApplicationEnvConfig {
    ApplicationEnvConfig {
        interfaces: NameIndex::new(),
        peripherals: MountedPeripherals {
            peripherals: vec![MountedPeripheral {
                name: "cam1".to_string(),
                peripheral: models::Peripheral::Camera(camera_model()),
            }],
        },
        config: ConfigValue::Null,
        storage: None,
        application_info: ApplicationInfo {
            deployed_application_id: "id1".into(),
            deployed_application_name: "app".into(),
            system_id: "sysid".into(),
            application_id: "appid".into(),
            application_name: "myapp".into(),
            git_url: None,
            git_branch: None,
            is_release_version: true,
        },
    }
}

#[test]
fn camera_test_from_model() {
    let model = camera_model();
    let cam = CameraPeripheral::from_model(&model);
    assert_eq!(cam.reference, model.reference);
    assert_eq!(cam.name, model.name);
    assert_eq!(cam.device_nodes, model.device_nodes);
    assert_eq!(cam.volumes, model.volumes);
    assert_eq!(cam.camera_type, model.camera_type);
    assert_eq!(cam.protocol, model.protocol);
}

#[test]
fn codec_test_from_model() {
    let model = models::CodecPeripheral {
        peripheral_type: models::PeripheralType::Codec,
        name: "codec1".to_string(),
        supported_codecs: vec!["H.264".to_string(), "H.265".to_string()],
        device_nodes: vec!["/dev/video10".to_string()],
    };
    let codec = CodecPeripheral::from_model(&model);
    assert_eq!(codec.name, model.name);
    assert_eq!(codec.supported_codecs, model.supported_codecs);
    assert_eq!(codec.device_nodes, model.device_nodes);
}

#[test]
fn generic_device_test_from_model() {
    let model = models::GenericDevicePeripheral {
        peripheral_type: models::PeripheralType::GenericDevice,
        name: "dev1".to_string(),
        device_node: "/dev/some_device".to_string(),
    };
    let dev = GenericDevicePeripheral::from_model(&model);
    assert_eq!(dev.name, model.name);
    assert_eq!(dev.device_node, model.device_node);
}

#[test]
fn gpio_test_from_model() {
    let line_model = models::GpioLineInfo {
        line_offset: 1,
        name: Some("line1".to_string()),
        consumer: Some("consumer1".to_string()),
        direction: "in".to_string(),
        active_state: "high".to_string(),
        used: true,
    };
    let model = models::GpioPeripheral {
        peripheral_type: models::PeripheralType::GPIO,
        chip_name: "chip0".to_string(),
        label: "label0".to_string(),
        num_lines: 1,
        device_nodes: vec!["/dev/gpiochip0".to_string()],
        lines: vec![line_model.clone()],
    };
    let gpio = GpioPeripheral::from_model(&model);
    assert_eq!(gpio.chip_name, model.chip_name);
    assert_eq!(gpio.label, model.label);
    assert_eq!(gpio.num_lines, model.num_lines);
    assert_eq!(gpio.device_nodes, model.device_nodes);
    assert_eq!(gpio.lines.len(), 1);
    assert_eq!(gpio.lines[0].line_offset, line_model.line_offset);
    assert_eq!(gpio.lines[0].name, line_model.name);
    assert_eq!(gpio.lines[0].consumer, line_model.consumer);
    assert_eq!(gpio.lines[0].direction, line_model.direction);
    assert_eq!(gpio.lines[0].active_state, line_model.active_state);
    assert_eq!(gpio.lines[0].used, line_model.used);
}

#[test]
fn gpio_line_test_from_model() {
    let line_model = models::GpioLineInfo {
        line_offset: 4,
        name: None,
        consumer: None,
        direction: "out".to_string(),
        active_state: "low".to_string(),
        used: false,
    };
    let line = GpioLineInfo::from_model(&line_model);
    assert_eq!(line.line_offset, 4);
    assert_eq!(line.name, None);
    assert_eq!(line.consumer, None);
    assert_eq!(line.direction, "out");
    assert_eq!(line.active_state, "low");
    assert!(!line.used);
}

#[test]
fn gpu_test_from_model() {
    let model = models::GpuPeripheral {
        peripheral_type: models::PeripheralType::GPU,
        name: "gpu1".to_string(),
        model: "RTX 3090".to_string(),
        index: Some(0),
        device_nodes: vec!["/dev/nvidia0".to_string()],
        vram: Some(24576),
    };
    let gpu = GpuPeripheral::from_model(&model);
    assert_eq!(gpu.name, model.name);
    assert_eq!(gpu.model, model.model);
    assert_eq!(gpu.index, model.index);
    assert_eq!(gpu.device_nodes, model.device_nodes);
    assert_eq!(gpu.vram, model.vram);
}

#[test]
fn i2c_test_from_model() {
    let detected_model = models::I2cDetectedDevice {
        address: "0x40".to_string(),
        description: Some("sensor".to_string()),
    };
    let model = models::I2cPeripheral {
        peripheral_type: models::PeripheralType::I2C,
        bus_number: 1,
        name: "i2c1".to_string(),
        device_nodes: vec!["/dev/i2c-1".to_string()],
        detected_devices: vec![detected_model.clone()],
    };
    let i2c = I2cPeripheral::from_model(&model);
    assert_eq!(i2c.bus_number, model.bus_number);
    assert_eq!(i2c.name, model.name);
    assert_eq!(i2c.device_nodes, model.device_nodes);
    assert_eq!(i2c.detected_devices.len(), 1);
    assert_eq!(i2c.detected_devices[0].address, detected_model.address);
    assert_eq!(i2c.detected_devices[0].description, detected_model.description);
}

#[test]
fn i2c_device_test_from_model() {
    let detected_model =
        models::I2cDetectedDevice { address: "0x21".to_string(), description: None };
    let detected = I2cDetectedDevice::from_model(&detected_model);
    assert_eq!(detected.address, "0x21");
    assert_eq!(detected.description, None);
}

#[test]
fn isp_test_from_model() {
    let model = models::IspPeripheral {
        peripheral_type: models::PeripheralType::ISP,
        name: "isp1".to_string(),
        supported_features: vec!["denoise".to_string(), "scale".to_string()],
        device_nodes: vec!["/dev/video13".to_string()],
    };
    let isp = IspPeripheral::from_model(&model);
    assert_eq!(isp.name, model.name);
    assert_eq!(isp.supported_features, model.supported_features);
    assert_eq!(isp.device_nodes, model.device_nodes);
}

#[test]
fn other_test_from_model() {
    let model = models::OtherPeripheral {
        reference: "ref2".to_string(),
        peripheral_type: models::PeripheralType::Other("test".to_string()),
        name: "other1".to_string(),
        device_nodes: vec!["/dev/other0".to_string()],
    };
    let other = OtherPeripheral::from_model(&model);
    assert_eq!(other.reference, model.reference);
    assert_eq!(other.name, model.name);
    assert_eq!(other.device_nodes, model.device_nodes);
}

#[test]
fn real_sense_test_from_model() {
    let model = models::RealSenseCameraPeripheral {
        peripheral_type: models::PeripheralType::RealSense,
        name: "rs1".to_string(),
        device_nodes: vec!["/dev/rs0".to_string()],
        serial_number: "123456789".to_string(),
        model: "D435".to_string(),
    };
    let rs = RealSenseCameraPeripheral::from_model(&model);
    assert_eq!(rs.name, model.name);
    assert_eq!(rs.device_nodes, model.device_nodes);
    assert_eq!(rs.serial_number, model.serial_number);
    assert_eq!(rs.model, model.model);
}

#[test]
fn rendering_test_from_model() {
    let model = models::RenderingPeripheral {
        peripheral_type: models::PeripheralType::Rendering,
        name: "render1".to_string(),
        supported_apis: vec!["OpenGL".to_string(), "Vulkan".to_string()],
        max_performance: Some(1000),
        device_nodes: vec!["/dev/renderD128".to_string()],
    };
    let rendering = RenderingPeripheral::from_model(&model);
    assert_eq!(rendering.name, model.name);
    assert_eq!(rendering.supported_apis, model.supported_apis);
    assert_eq!(rendering.max_performance, model.max_performance);
    assert_eq!(rendering.device_nodes, model.device_nodes);
}

#[test]
fn test_new_and_get_peripheral_by_name() {
    let config = make_test_config();
    let manager = PeripheralManager::new(config);
    assert_eq!(manager.len(), 1);
    assert!(manager.contains("cam1"));
    let p = manager.get_peripheral_by_name("cam1");
    assert!(matches!(p, Some(Peripheral::Camera(_))));
}

#[test]
fn test_list_peripherals_and_iter() {
    let config = make_test_config();
    let manager = PeripheralManager::new(config);
    let peripherals = manager.list_peripherals();
    assert_eq!(peripherals.len(), 1);
    let mut iter_count = 0;
    for (name, p) in manager.iter() {
        assert_eq!(name.as_str(), "cam1");
        assert!(matches!(p, Peripheral::Camera(_)));
        iter_count += 1;
    }
    assert_eq!(iter_count, 1);
}

#[test]
fn test_resolve_peripheral_name() {
    let mut mounts: NameIndex<String> = NameIndex::new();
    mounts.insert("cam1".to_string(), "/dev/video0".to_string());
    assert_eq!(
        make87::peripherals::resolve_peripheral_name(&mounts, "cam1"),
        Some("/dev/video0".to_string())
    );
    assert_eq!(make87::peripherals::resolve_peripheral_name(&mounts, "cam2"), None);
}
