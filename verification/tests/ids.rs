use usb_platform::windows_winusb::ids::{
    find_usbccgp_child, get_interface_class, get_interface_number, parse_compatible_id,
    parse_hardware_id, ChildNode, DevInst,
};

fn id(text: &str) -> Option<String> {
    Some(text.to_string())
}

fn child(devinst: u32, hardware_id: &str) -> ChildNode {
    ChildNode {
        devinst: DevInst(devinst),
        hardware_ids: Some(vec![id(hardware_id)]),
    }
}

#[test]
fn test_parse_hardware_id() {
    assert_eq!(parse_hardware_id(""), None);
    assert_eq!(
        parse_hardware_id("USB\\VID_1234&PID_5678&MI_0A"),
        Some(10)
    );
    assert_eq!(
        parse_hardware_id("USB\\VID_9999&PID_AAAA&REV_0101&MI_01"),
        Some(1)
    );
}

#[test]
fn test_parse_compatible_id() {
    assert_eq!(parse_compatible_id(""), None);
    assert_eq!(parse_compatible_id("USB\\Class_03"), None);
    assert_eq!(
        parse_compatible_id("USB\\Class_03&SubClass_11&Prot_22"),
        Some((3, 17, 34))
    );
}

#[test]
fn hardware_id_edges() {
    assert_eq!(parse_hardware_id("&MI_"), None);
    assert_eq!(parse_hardware_id("&MI_1"), None);
    assert_eq!(parse_hardware_id("&MI_1g"), None);
    assert_eq!(parse_hardware_id("&MI_fE"), Some(254));
    assert_eq!(parse_hardware_id("&MI_+7"), Some(7));
    assert_eq!(parse_hardware_id("&MI_-7"), None);
    assert_eq!(parse_hardware_id("&MI_012"), Some(1));
    assert_eq!(parse_hardware_id("&MI_01&MI_02"), Some(2));
    assert_eq!(parse_hardware_id("&MI_01&MI_"), None);
    assert_eq!(parse_hardware_id("&mi_01"), None);
    assert_eq!(parse_hardware_id("\u{e9}&MI_1\u{e9}"), None);
    assert_eq!(parse_hardware_id("\u{e9}&MI_\u{e9}"), None);
    assert_eq!(parse_hardware_id("\u{e9}&MI_0b\u{e9}"), Some(11));
}

#[test]
fn compatible_id_edges() {
    assert_eq!(
        parse_compatible_id("USB\\Class_fF&SubClass_00&Prot_01&More"),
        Some((255, 0, 1))
    );
    assert_eq!(parse_compatible_id("xUSB\\Class_03&SubClass_11&Prot_22"), None);
    assert_eq!(parse_compatible_id("USB\\Class_03&SubClass_11"), None);
    assert_eq!(parse_compatible_id("USB\\Class_03&SubClass_11&Prot_2"), None);
    assert_eq!(parse_compatible_id("USB\\Class_0x&SubClass_11&Prot_22"), None);
    assert_eq!(parse_compatible_id("USB\\Class_003&SubClass_11&Prot_22"), None);
    assert_eq!(parse_compatible_id("USB\\Class_03&SubClass_zz&Prot_22"), None);
    assert_eq!(parse_compatible_id("USB\\Class_03&SubClass_11&Prot_\u{e9}"), None);
}

#[test]
fn every_number_reads_back() {
    for n in 0..=255u8 {
        let lower = format!("USB\\VID_1&MI_{:02x}&x", n);
        let upper = format!("&MI_{:02X}", n);
        assert_eq!(parse_hardware_id(&lower), Some(n));
        assert_eq!(parse_hardware_id(&upper), Some(n));
        let class = format!("USB\\Class_{:02x}&SubClass_{:02X}&Prot_{:02x}", n, 255 - n, n / 2);
        assert_eq!(parse_compatible_id(&class), Some((n, 255 - n, n / 2)));
    }
}

#[test]
fn first_id_that_names_something_counts() {
    let ids = Some(vec![None, id("USB\\VID_1"), id("&MI_05"), id("&MI_06")]);
    assert_eq!(get_interface_number(&ids), Some(5));
    assert_eq!(get_interface_number(&Some(vec![])), None);
    assert_eq!(get_interface_number(&Some(vec![None])), None);
    assert_eq!(get_interface_number(&None), None);

    let ids = Some(vec![
        None,
        id("USB\\Class_03"),
        id("USB\\Class_03&SubClass_01&Prot_02"),
        id("USB\\Class_04&SubClass_01&Prot_02"),
    ]);
    assert_eq!(get_interface_class(&ids), Some((3, 1, 2)));
    assert_eq!(get_interface_class(&None), None);
}

#[test]
fn child_for_an_interface() {
    let children = vec![child(10, "&MI_00"), child(11, "&MI_02"), child(12, "none"), child(13, "&MI_05")];
    assert_eq!(find_usbccgp_child(&children, 0), Some((0, DevInst(10))));
    assert_eq!(find_usbccgp_child(&children, 1), Some((0, DevInst(10))));
    assert_eq!(find_usbccgp_child(&children, 2), Some((2, DevInst(11))));
    assert_eq!(find_usbccgp_child(&children, 4), Some((2, DevInst(11))));
    assert_eq!(find_usbccgp_child(&children, 255), Some((5, DevInst(13))));
    assert_eq!(find_usbccgp_child(&children[1..], 1), None);
    assert_eq!(find_usbccgp_child(&[], 9), None);
}

#[test]
fn last_of_equal_children_is_found() {
    let children = vec![child(1, "&MI_03"), child(2, "&MI_03"), child(3, "&MI_01")];
    assert_eq!(find_usbccgp_child(&children, 7), Some((3, DevInst(2))));
}
