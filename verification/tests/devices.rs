use usb_platform::windows_winusb::enumeration::{
    configuration_request, get_driver_name, is_usbccgp, list_devices, list_function_interfaces,
    list_interfaces_from_desc, probe_device, serial_number_request, sort_interfaces,
    AltSettingDesc, ConfigurationDesc, DescriptorRequest, DeviceDescriptor, FunctionNode,
    InterfaceDesc, InterfaceInfo, PortInfo, ProbedDevice, Speed,
};
use usb_platform::windows_winusb::ids::DevInst;

fn text(s: &str) -> Option<String> {
    Some(s.to_string())
}

fn descriptor(i_serial_number: u8) -> DeviceDescriptor {
    DeviceDescriptor {
        id_vendor: 0x1234,
        id_product: 0x5678,
        bcd_device: 0x0102,
        b_device_class: 1,
        b_device_sub_class: 2,
        b_device_protocol: 3,
        i_serial_number,
    }
}

fn interface_desc(interface_number: u8) -> InterfaceDesc {
    let first = AltSettingDesc { class: 8, subclass: 6, protocol: 80 };
    InterfaceDesc::new(interface_number, vec![first]).unwrap()
}

fn configuration() -> Option<ConfigurationDesc> {
    Some(ConfigurationDesc {
        configuration_value: 1,
        interfaces: vec![interface_desc(2), interface_desc(0), interface_desc(1)],
    })
}

fn function(hardware_id: &str, compatible_id: &str, name: Option<&str>) -> FunctionNode {
    FunctionNode {
        hardware_ids: Some(vec![text(hardware_id)]),
        compatible_ids: Some(vec![text("USB\\COMPOSITE"), text(compatible_id)]),
        interface_string: name.and_then(text),
    }
}

fn device(service: Option<&str>) -> ProbedDevice<&'static str> {
    ProbedDevice {
        devinst: DevInst(42),
        instance_id: Some("USB\\A"),
        parent_instance_id: Some("USB\\ROOT"),
        port: Some(PortInfo {
            device_desc: descriptor(3),
            speed: Some(Speed::High),
            active_config: 1,
            address: 9,
        }),
        product_string: text("Thing"),
        serial_string: text("0001"),
        service: service.and_then(text),
        functions: vec![
            function("&MI_02", "USB\\Class_03&SubClass_01&Prot_02", Some("Keys")),
            function("none", "USB\\Class_03&SubClass_01&Prot_02", None),
            function("&MI_04", "none", None),
            function("&MI_00", "USB\\Class_ff&SubClass_00&Prot_00", None),
        ],
        configuration: configuration(),
        bus_number: 2,
        port_chain: vec![7, 3],
    }
}

fn numbers(interfaces: &[InterfaceInfo]) -> Vec<u8> {
    interfaces.iter().map(|i| i.interface_number).collect()
}

#[test]
fn whole_device_is_described() {
    let info = probe_device(device(Some("WinUSB"))).unwrap();
    assert_eq!(info.instance_id, "USB\\A");
    assert_eq!(info.parent_instance_id, "USB\\ROOT");
    assert_eq!(info.devinst, DevInst(42));
    assert_eq!(info.driver, text("WinUSB"));
    assert_eq!((info.bus_number, info.port_number), (2, 3));
    assert_eq!(info.port_chain, vec![7, 3]);
    assert_eq!(info.device_address, 9);
    assert_eq!((info.vendor_id, info.product_id, info.device_version), (0x1234, 0x5678, 0x0102));
    assert_eq!((info.class, info.subclass, info.protocol), (1, 2, 3));
    assert_eq!(info.speed, Some(Speed::High));
    assert_eq!(info.manufacturer_string, None);
    assert_eq!(info.product_string, text("Thing"));
    assert_eq!(info.serial_number, text("0001"));
    assert_eq!(numbers(&info.interfaces), vec![0, 1, 2]);
    assert_eq!(info.interfaces[0].class, 8);
    assert_eq!(info.interfaces[0].interface_string, None);
}

#[test]
fn composite_device_is_described_by_its_functions() {
    let info = probe_device(device(Some("UsbCcgp"))).unwrap();
    assert_eq!(numbers(&info.interfaces), vec![0, 2]);
    assert_eq!(info.interfaces[0].class, 255);
    assert_eq!(
        info.interfaces[1],
        InterfaceInfo {
            interface_number: 2,
            class: 3,
            subclass: 1,
            protocol: 2,
            interface_string: text("Keys"),
        }
    );
}

#[test]
fn incomplete_nodes_are_no_devices() {
    let mut node = device(None);
    node.instance_id = None;
    assert!(probe_device(node).is_none());
    let mut node = device(None);
    node.parent_instance_id = None;
    assert!(probe_device(node).is_none());
    let mut node = device(None);
    node.port = None;
    assert!(probe_device(node).is_none());
}

#[test]
fn what_is_not_known_is_left_out() {
    let mut node = device(None);
    node.port.as_mut().unwrap().device_desc.i_serial_number = 0;
    node.port.as_mut().unwrap().active_config = 2;
    node.port_chain = vec![];
    let info = probe_device(node).unwrap();
    assert_eq!(info.driver, None);
    assert_eq!(info.serial_number, None);
    assert_eq!(info.port_number, 0);
    assert!(info.interfaces.is_empty());

    let mut node = device(Some(""));
    node.configuration = None;
    let info = probe_device(node).unwrap();
    assert_eq!(info.driver, None);
    assert!(info.interfaces.is_empty());
}

#[test]
fn devices_keep_their_order() {
    let mut first = device(None);
    first.instance_id = Some("1");
    let mut incomplete = device(None);
    incomplete.port = None;
    let mut second = device(None);
    second.instance_id = Some("2");
    let found = list_devices(vec![None, Some(first), Some(incomplete), Some(second), None]).unwrap();
    let ids: Vec<&str> = found.iter().map(|d| d.instance_id).collect();
    assert_eq!(ids, vec!["1", "2"]);
    assert!(list_devices::<String>(vec![]).unwrap().is_empty());
}

#[test]
fn interfaces_of_the_active_configuration() {
    let interfaces = list_interfaces_from_desc(&configuration(), 1).unwrap();
    assert_eq!(numbers(&interfaces), vec![2, 0, 1]);
    assert_eq!((interfaces[0].class, interfaces[0].subclass, interfaces[0].protocol), (8, 6, 80));
    assert_eq!(list_interfaces_from_desc(&configuration(), 2), None);
    assert_eq!(list_interfaces_from_desc(&None, 1), None);
}

#[test]
fn first_alternate_setting_counts() {
    let first = AltSettingDesc { class: 14, subclass: 2, protocol: 1 };
    let second = AltSettingDesc { class: 255, subclass: 9, protocol: 7 };
    let desc = || InterfaceDesc::new(4, vec![first, second, second]).unwrap();
    assert_eq!(desc().interface_number(), 4);
    assert_eq!(desc().first_alt_setting(), first);
    let configuration =
        || Some(ConfigurationDesc { configuration_value: 1, interfaces: vec![desc()] });
    let expected = InterfaceInfo {
        interface_number: 4,
        class: 14,
        subclass: 2,
        protocol: 1,
        interface_string: None,
    };
    assert_eq!(list_interfaces_from_desc(&configuration(), 1).unwrap()[0], expected);
    let mut node = device(None);
    node.configuration = configuration();
    assert_eq!(probe_device(node).unwrap().interfaces, vec![expected]);
    assert!(InterfaceDesc::new(4, vec![]).is_none());
}

#[test]
fn interfaces_of_functions_keep_their_order() {
    assert_eq!(numbers(&list_function_interfaces(&device(None).functions)), vec![2, 0]);
    let bare = FunctionNode { hardware_ids: None, compatible_ids: None, interface_string: None };
    assert!(list_function_interfaces(&vec![bare]).is_empty());
}

#[test]
fn interfaces_are_sorted_by_number() {
    let make = |n: u8, class: u8| InterfaceInfo {
        interface_number: n,
        class,
        subclass: 0,
        protocol: 0,
        interface_string: None,
    };
    let sorted = sort_interfaces(vec![make(3, 1), make(1, 2), make(3, 3), make(0, 4), make(255, 5)]);
    assert_eq!(numbers(&sorted), vec![0, 1, 3, 3, 255]);
    let mut classes: Vec<u8> = sorted.iter().map(|i| i.class).collect();
    classes.sort();
    assert_eq!(classes, vec![1, 2, 3, 4, 5]);
    assert!(sort_interfaces(vec![]).is_empty());
}

#[test]
fn requests() {
    assert_eq!(
        serial_number_request(&descriptor(3)),
        Some(DescriptorRequest { descriptor_type: 3, index: 3, language_id: 0x0409 })
    );
    assert_eq!(serial_number_request(&descriptor(0)), None);
    assert_eq!(
        configuration_request(1),
        DescriptorRequest { descriptor_type: 2, index: 0, language_id: 0 }
    );
    assert_eq!(configuration_request(0).index, 0);
    assert_eq!(configuration_request(255).index, 254);
}

#[test]
fn driver_names() {
    assert_eq!(get_driver_name(text("WinUSB")), "WinUSB");
    assert_eq!(get_driver_name(None), "");
    assert!(is_usbccgp("USBCCGP"));
    assert!(!is_usbccgp("usbccg"));
    assert!(!is_usbccgp(""));
}
