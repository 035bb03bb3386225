use usb_platform::windows_winusb::device_path::{
    get_usbccgp_winusb_device_path, get_winusb_device_path, DevicePath, Error, ErrorKind, Finding,
    PathSearch, ServiceName,
};

fn service(name: &str) -> Finding {
    Finding::Service(Some(ServiceName { name: name.to_string(), quoted: format!("{:?}", name) }))
}

fn done(search: PathSearch) -> Result<DevicePath, Error> {
    match search {
        PathSearch::Done(result) => result,
        _ => panic!("the search goes on"),
    }
}

#[test]
fn whole_device() {
    assert_eq!(get_winusb_device_path(vec![vec![1], vec![2]]), Ok(vec![1]));
    assert_eq!(get_winusb_device_path(vec![]), Err(Error::NoDevicePath));
}

#[test]
fn drivers() {
    let start = |finding| get_usbccgp_winusb_device_path(PathSearch::Service, finding);
    assert_eq!(done(start(Finding::Service(None))), Err(Error::NoDriver));
    assert_eq!(done(start(service("HidUsb"))), Err(Error::NotWinUsb("\"HidUsb\"".to_string())));
    assert!(matches!(start(service("WINUSB")), PathSearch::GuidList));
    assert!(matches!(start(service("WinUsb")), PathSearch::GuidList));
}

#[test]
fn registry_values() {
    let guid = windows_sys::core::GUID::from_u128(0x12345678_9abc_def0_0123_456789abcdef);
    assert_eq!(PathSearch::GuidList.registry_value(), Some("DeviceInterfaceGUIDs"));
    assert_eq!(PathSearch::SingleGuid.registry_value(), Some("DeviceInterfaceGUID"));
    assert_eq!(PathSearch::Service.registry_value(), None);
    for search in [PathSearch::GuidList, PathSearch::SingleGuid] {
        match get_usbccgp_winusb_device_path(search, Finding::Guid(Some(guid))) {
            PathSearch::Paths(class) => {
                assert_eq!(class.data1, 0x12345678);
                assert_eq!(class.data4, guid.data4);
            }
            _ => panic!("the class was found"),
        }
    }
    let missing = |search| get_usbccgp_winusb_device_path(search, Finding::Guid(None));
    assert!(matches!(missing(PathSearch::GuidList), PathSearch::SingleGuid));
    assert_eq!(done(missing(PathSearch::SingleGuid)), Err(Error::NoGuid));
}

#[test]
fn paths_of_an_interface() {
    let search = || PathSearch::Paths(windows_sys::core::GUID::from_u128(1));
    let found = get_usbccgp_winusb_device_path(search(), Finding::Paths(vec![vec![5], vec![6]]));
    assert_eq!(done(found), Ok(vec![5]));
    let none = get_usbccgp_winusb_device_path(search(), Finding::Paths(vec![]));
    assert_eq!(done(none), Err(Error::NoInterfacePath));
}

#[test]
fn messages() {
    let of = |error: Error| (error.kind(), error.message());
    assert_eq!(
        of(Error::NoDevicePath),
        (ErrorKind::Other, "Failed to find device path for WinUSB device".to_string())
    );
    assert_eq!(
        of(Error::NoDriver),
        (ErrorKind::Unsupported, "Could not determine driver for interface".to_string())
    );
    assert_eq!(
        of(Error::NotWinUsb("\"HidUsb\"".to_string())),
        (ErrorKind::Unsupported, "Interface driver is \"HidUsb\", not WinUSB".to_string())
    );
    assert_eq!(
        of(Error::NoGuid),
        (
            ErrorKind::Unsupported,
            "Could not find DeviceInterfaceGUIDs in registry. WinUSB driver may not be correctly installed for this interface.".to_string()
        )
    );
    assert_eq!(
        of(Error::NoInterfacePath),
        (ErrorKind::Other, "Failed to find device path for WinUSB interface".to_string())
    );
}
