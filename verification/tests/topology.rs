use usb_platform::windows_winusb::port_chain::{Answer, BusTable, PortChainWalk, Question};
use usb_platform::windows_winusb::port_number::{get_port_number, is_readable, Location};

fn location(info: Option<&str>, paths: Option<&[&str]>, address: Option<u32>) -> Location {
    Location {
        info: info.map(|s| s.to_string()),
        paths: paths.map(|paths| paths.iter().map(|s| s.to_string()).collect()),
        address,
    }
}

fn port_of(info: Option<&str>, paths: Option<&[&str]>, address: Option<u32>) -> Option<u32> {
    let location = location(info, paths, address);
    assert!(is_readable(&location));
    get_port_number(&location)
}

#[test]
fn port_from_location_info() {
    assert_eq!(port_of(Some("Port_#0002.Hub_#000D"), None, Some(9)), Some(2));
    assert_eq!(port_of(Some("Port_#9999"), None, None), Some(9999));
    assert_eq!(port_of(Some("Port_#+012"), None, None), Some(12));
    assert_eq!(port_of(Some("Port_#00x2"), None, Some(9)), Some(9));
    assert_eq!(port_of(Some("port_#0002"), None, Some(9)), Some(9));
    assert_eq!(port_of(Some("PCI bus 0"), None, None), None);
    assert_eq!(port_of(None, None, Some(4)), Some(4));
    assert_eq!(port_of(None, None, None), None);
}

#[test]
fn every_port_number_reads_back() {
    for port in 0..=9999u32 {
        let info = format!("Port_#{:04}.Hub_#0001", port);
        assert_eq!(port_of(Some(&info), Some(&["USB(5)"]), Some(1)), Some(port));
    }
}

#[test]
fn port_from_location_paths() {
    let documented = "PCIROOT(B2)#PCI(0300)#PCI(0000)#USBROOT(0)#USB(1)#USB(2)#USBMI(3)";
    assert_eq!(port_of(None, Some(&[documented]), Some(7)), Some(2));
    assert_eq!(port_of(Some("nothing"), Some(&[documented]), Some(7)), Some(2));
    assert_eq!(port_of(Some("Port_#0004"), Some(&[documented]), Some(7)), Some(4));
    assert_eq!(port_of(None, Some(&["USB(12)"]), Some(7)), Some(12));
    assert_eq!(port_of(None, Some(&["A#USB(12)#B"]), Some(7)), Some(12));
    assert_eq!(port_of(None, Some(&["\u{e9}#USB(12)#\u{e9}"]), Some(7)), Some(12));
    assert_eq!(port_of(None, Some(&["A#USB(0)"]), Some(7)), Some(0));
    assert_eq!(port_of(None, Some(&["USBROOT(0)", "A#USB(3)", "A#USB(4)"]), Some(7)), Some(3));
    assert_eq!(port_of(None, Some(&["A#USB(4294967295)"]), Some(7)), Some(4294967295));
}

#[test]
fn location_paths_that_name_no_port() {
    for path in [
        "", "#", "USBROOT(0)#USBMI(3)", "USB(", "USB()", "USB(1", "USB(x)", "USB(-1)", "USB(1))",
        "xUSB(1)", "USB(1)x", "USB(\u{e9})", "usb(1)", "USB(4294967296)", "A#USB(1)#USB()",
        "A#USB(1)#USB(x)#B", "A#USB(1)#USB(4294967296)",
    ] {
        assert_eq!(port_of(None, Some(&[path]), Some(7)), Some(7));
        assert_eq!(port_of(None, Some(&[path]), None), None);
    }
    assert_eq!(port_of(None, Some(&[]), Some(7)), Some(7));
}

#[test]
fn segments_that_do_not_read_usb_are_passed_over() {
    for segment in [
        "", "#", "xUSB(2", "xUSB(2)", "USB(", "USB(2", "USB(2)x", "USB(\u{e9}", "\u{e9}USB(2)",
        "usb(2)", "USB)", ")",
    ] {
        let path = format!("A#USB(1)#{}", segment);
        assert_eq!(port_of(None, Some(&[&path]), Some(7)), Some(1));
        let path = format!("A#USB(1)#{}#B", segment);
        assert_eq!(port_of(None, Some(&[&path]), Some(7)), Some(1));
        let path = format!("{}#USB(3)", segment);
        assert_eq!(port_of(None, Some(&[&path]), Some(7)), Some(3));
    }
}

#[test]
fn every_port_number_reads_back_from_a_path() {
    for port in 0..=9999u32 {
        let path = format!("PCIROOT(0)#USBROOT(0)#USB(3)#USB({})#USBMI(1)", port);
        assert_eq!(port_of(None, Some(&[&path]), Some(1)), Some(port));
    }
}

#[test]
fn location_infos_that_cannot_be_cut() {
    assert!(!is_readable(&location(Some("short"), None, None)));
    assert!(!is_readable(&location(Some(""), None, None)));
    assert!(is_readable(&location(Some("exact6"), None, None)));
    assert!(!is_readable(&location(Some("Port_#1"), None, None)));
    assert!(!is_readable(&location(Some("Port_"), None, None)));
    assert!(!is_readable(&location(Some("12345\u{e9}"), None, None)));
    assert!(is_readable(&location(Some("1234\u{e9}"), None, None)));
    assert!(!is_readable(&location(Some("Port_#123\u{e9}"), None, None)));
    assert!(is_readable(&location(None, Some(&["USB(\u{e9}", "USB("]), None)));
}

fn text(s: &str) -> Option<String> {
    Some(s.to_string())
}

fn buses() -> BusTable {
    BusTable::new(vec!["ROOT_A".to_string(), "ROOT_B".to_string()])
}

struct Ancestor {
    enumerator: Option<&'static str>,
    port: Option<u32>,
    id: Option<&'static str>,
}

fn chain(own: Option<u32>, ancestors: &[Ancestor], buses: &BusTable) -> (u8, Vec<u32>) {
    let mut walk = PortChainWalk::new();
    let mut level = 0;
    loop {
        let answer = match walk.question() {
            Question::OwnPortNumber => Answer::PortNumber(own),
            Question::Parent => {
                let up = level < ancestors.len();
                level += 1;
                Answer::Parent(up)
            }
            Question::EnumeratorName => {
                Answer::EnumeratorName(ancestors[level - 1].enumerator.and_then(text))
            }
            Question::PortNumber => Answer::PortNumber(ancestors[level - 1].port),
            Question::InstanceId => Answer::InstanceId(ancestors[level - 1].id.and_then(text)),
            Question::Done => return walk.into_port_chain(),
        };
        walk.step(answer, buses);
    }
}

fn usb(port: Option<u32>, id: Option<&'static str>) -> Ancestor {
    Ancestor { enumerator: Some("usb"), port, id }
}

fn pci() -> Ancestor {
    Ancestor { enumerator: Some("PCI"), port: Some(5), id: Some("ROOT_A") }
}

#[test]
fn port_chain_up_to_the_root_hub() {
    let ancestors = [usb(Some(2), None), usb(Some(7), None), usb(Some(0), Some("ROOT_B")), pci()];
    assert_eq!(chain(Some(3), &ancestors, &buses()), (2, vec![7, 2, 3]));
    assert_eq!(chain(None, &ancestors, &buses()), (2, vec![7, 2]));
    assert_eq!(chain(Some(0), &ancestors[2..], &buses()), (2, vec![0]));
}

#[test]
fn port_chain_that_breaks_off() {
    assert_eq!(chain(Some(3), &[], &buses()), (0, vec![3]));
    assert_eq!(chain(None, &[], &buses()), (0, vec![]));
    assert_eq!(chain(Some(3), &[pci()], &buses()), (0, vec![3]));
    assert_eq!(chain(Some(3), &[usb(Some(2), None)], &buses()), (0, vec![2, 3]));
    assert_eq!(chain(Some(3), &[usb(None, Some("ROOT_A"))], &buses()), (0, vec![3]));
    assert_eq!(chain(Some(3), &[usb(Some(0), None)], &buses()), (0, vec![3]));
    assert_eq!(chain(Some(3), &[usb(Some(0), Some("OTHER"))], &buses()), (0, vec![3]));
    let nameless = Ancestor { enumerator: None, port: Some(1), id: None };
    assert_eq!(chain(Some(3), &[nameless], &buses()), (0, vec![3]));
}

#[test]
fn buses_are_numbered_from_one() {
    let ids: Vec<String> = (0..300).map(|i| format!("HUB{}", i)).collect();
    let table = BusTable::new(ids);
    assert_eq!(table.get(&"HUB0".to_string()), Some(1));
    assert_eq!(table.get(&"HUB254".to_string()), Some(255));
    assert_eq!(table.get(&"HUB255".to_string()), Some(0));
    assert_eq!(table.get(&"HUB256".to_string()), Some(1));
    assert_eq!(table.get(&"hub0".to_string()), None);
    let twice = BusTable::new(vec!["A".to_string(), "B".to_string(), "A".to_string()]);
    assert_eq!(twice.get(&"A".to_string()), Some(3));
    assert_eq!(twice.get(&"B".to_string()), Some(2));
    assert_eq!(BusTable::new(vec![]).get(&"A".to_string()), None);
}
