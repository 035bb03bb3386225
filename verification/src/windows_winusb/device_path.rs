//! The path by which a device, or one function of a composite device, is opened.
use vstd::prelude::*;
use vstd::utf8::*;

use crate::text;

verus! {

/// `windows_sys::core::GUID`, a device interface class. Nothing is claimed of it: it is handed on
/// from the registry to the list of interfaces.
#[verifier::external_type_specification]
#[verifier::external_body]
pub struct ExGuid(windows_sys::core::GUID);

/// A device path, in UTF-16.
pub type DevicePath = Vec<u16>;

/// What kind of error it is.
#[derive(Clone, Copy, Debug, PartialEq, Eq, Structural)]
pub enum ErrorKind {
    /// The device or its driver cannot do what is asked.
    Unsupported,
    /// Anything else.
    Other,
}

/// Why a device cannot be opened.
#[derive(Debug, PartialEq, Eq)]
pub enum Error {
    /// A device that is bound to WinUSB has no path.
    NoDevicePath,
    /// An interface has no driver.
    NoDriver,
    /// An interface has another driver than WinUSB; its name, in quotes.
    NotWinUsb(String),
    /// The registry has no interface class for an interface.
    NoGuid,
    /// An interface that is bound to WinUSB has no path.
    NoInterfacePath,
}

impl Error {
    /// What kind of error it is.
    pub open spec fn spec_kind(self) -> ErrorKind {
        match self {
            Error::NoDevicePath => ErrorKind::Other,
            Error::NoDriver => ErrorKind::Unsupported,
            Error::NotWinUsb(_) => ErrorKind::Unsupported,
            Error::NoGuid => ErrorKind::Unsupported,
            Error::NoInterfacePath => ErrorKind::Other,
        }
    }

    /// What it says to the user.
    pub open spec fn spec_message(self) -> Seq<char> {
        match self {
            Error::NoDevicePath => "Failed to find device path for WinUSB device"@,
            Error::NoDriver => "Could not determine driver for interface"@,
            Error::NotWinUsb(quoted) => "Interface driver is "@ + quoted@ + ", not WinUSB"@,
            Error::NoGuid =>
                "Could not find DeviceInterfaceGUIDs in registry. WinUSB driver may not be correctly installed for this interface."@,
            Error::NoInterfacePath => "Failed to find device path for WinUSB interface"@,
        }
    }

    /// What kind of error it is.
    pub fn kind(&self) -> (kind: ErrorKind)
        ensures
            kind == self.spec_kind(),
    {
        match self {
            Error::NoDevicePath => ErrorKind::Other,
            Error::NoDriver => ErrorKind::Unsupported,
            Error::NotWinUsb(_) => ErrorKind::Unsupported,
            Error::NoGuid => ErrorKind::Unsupported,
            Error::NoInterfacePath => ErrorKind::Other,
        }
    }

    /// What it says to the user.
    pub fn message(&self) -> (message: String)
        ensures
            message@ == self.spec_message(),
    {
        match self {
            Error::NoDevicePath => "Failed to find device path for WinUSB device".to_owned(),
            Error::NoDriver => "Could not determine driver for interface".to_owned(),
            Error::NotWinUsb(quoted) => {
                let mut message: String = "Interface driver is ".to_owned();
                message.append(quoted.as_str());
                message.append(", not WinUSB");
                message
            },
            Error::NoGuid =>
                "Could not find DeviceInterfaceGUIDs in registry. WinUSB driver may not be correctly installed for this interface.".to_owned(),
            Error::NoInterfacePath => "Failed to find device path for WinUSB interface".to_owned(),
        }
    }
}

/// The first of the paths.
pub open spec fn first_path(paths: Seq<DevicePath>, otherwise: Error) -> Result<DevicePath, Error> {
    if paths.len() > 0 {
        Ok(paths[0])
    } else {
        Err(otherwise)
    }
}

/// Get the device path to open for a whole device bound to WinUSB: the first of the paths of its
/// USB device interface.
pub fn get_winusb_device_path(paths: Vec<DevicePath>) -> (path: Result<DevicePath, Error>)
    ensures
        path == first_path(paths@, Error::NoDevicePath),
{
    let mut paths: Vec<DevicePath> = paths;
    if paths.len() == 0 {
        return Err(Error::NoDevicePath);
    }
    Ok(paths.remove(0))
}

/// The name of a driver service.
#[derive(Debug)]
pub struct ServiceName {
    /// The name.
    pub name: String,
    /// The name as it is shown in messages, in quotes. It is made from the platform's own string,
    /// which need not be Unicode, and nothing ties it to `name`.
    pub quoted: String,
}

impl ServiceName {
    /// The service is WinUSB.
    pub open spec fn is_winusb(self) -> bool {
        text::same_ignoring_ascii_case(encode_utf8(self.name@), encode_utf8("winusb"@))
    }
}

/// What has to be found out next for the device path of a child of a USBCCGP device, or the
/// device path, or why there is none.
pub enum PathSearch {
    /// The driver service of the child.
    Service,
    /// The registry value `DeviceInterfaceGUIDs` of the child.
    GuidList,
    /// The registry value `DeviceInterfaceGUID` of the child.
    SingleGuid,
    /// The paths of the child under this interface class.
    Paths(windows_sys::core::GUID),
    /// The search is over.
    Done(Result<DevicePath, Error>),
}

/// What was found out.
pub enum Finding {
    /// The driver service, if there is one.
    Service(Option<ServiceName>),
    /// The interface class that a registry value holds, if it could be read.
    Guid(Option<windows_sys::core::GUID>),
    /// Device paths.
    Paths(Vec<DevicePath>),
}

impl PathSearch {
    /// Whether a finding is what is looked for next.
    pub open spec fn answered_by(self, finding: Finding) -> bool {
        match self {
            PathSearch::Service => finding is Service,
            PathSearch::GuidList => finding is Guid,
            PathSearch::SingleGuid => finding is Guid,
            PathSearch::Paths(_) => finding is Paths,
            PathSearch::Done(_) => false,
        }
    }

    /// The name of the registry value that is looked for.
    pub fn registry_value(&self) -> (name: Option<&'static str>)
        ensures
            match *self {
                PathSearch::GuidList => name matches Some(name) && name@
                    == "DeviceInterfaceGUIDs"@,
                PathSearch::SingleGuid => name matches Some(name) && name@
                    == "DeviceInterfaceGUID"@,
                _ => name is None,
            },
    {
        match self {
            PathSearch::GuidList => Some("DeviceInterfaceGUIDs"),
            PathSearch::SingleGuid => Some("DeviceInterfaceGUID"),
            _ => None,
        }
    }

    /// What has to be found out after that.
    pub open spec fn next(self, finding: Finding) -> PathSearch {
        match (self, finding) {
            (PathSearch::Service, Finding::Service(service)) => match service {
                None => PathSearch::Done(Err(Error::NoDriver)),
                Some(service) => if service.is_winusb() {
                    PathSearch::GuidList
                } else {
                    PathSearch::Done(Err(Error::NotWinUsb(service.quoted)))
                },
            },
            (PathSearch::GuidList, Finding::Guid(guid)) => match guid {
                Some(guid) => PathSearch::Paths(guid),
                None => PathSearch::SingleGuid,
            },
            (PathSearch::SingleGuid, Finding::Guid(guid)) => match guid {
                Some(guid) => PathSearch::Paths(guid),
                None => PathSearch::Done(Err(Error::NoGuid)),
            },
            (PathSearch::Paths(_), Finding::Paths(paths)) => PathSearch::Done(
                first_path(paths@, Error::NoInterfacePath),
            ),
            _ => self,
        }
    }
}

/// Get the device path to open for a child PDO of a USBCCGP device: one step of the search, which
/// begins with `PathSearch::Service` and goes on until it is `PathSearch::Done`.
pub fn get_usbccgp_winusb_device_path(search: PathSearch, finding: Finding) -> (next: PathSearch)
    requires
        search.answered_by(finding),
    ensures
        next == search.next(finding),
{
    match (search, finding) {
        (PathSearch::Service, Finding::Service(service)) => match service {
            None => PathSearch::Done(Err(Error::NoDriver)),
            Some(service) => {
                if text::equal_ignoring_ascii_case(service.name.as_str(), "winusb") {
                    PathSearch::GuidList
                } else {
                    PathSearch::Done(Err(Error::NotWinUsb(service.quoted)))
                }
            },
        },
        (PathSearch::GuidList, Finding::Guid(guid)) => match guid {
            Some(guid) => PathSearch::Paths(guid),
            None => PathSearch::SingleGuid,
        },
        (PathSearch::SingleGuid, Finding::Guid(guid)) => match guid {
            Some(guid) => PathSearch::Paths(guid),
            None => PathSearch::Done(Err(Error::NoGuid)),
        },
        (PathSearch::Paths(_), Finding::Paths(paths)) => {
            let mut paths: Vec<DevicePath> = paths;
            if paths.len() == 0 {
                PathSearch::Done(Err(Error::NoInterfacePath))
            } else {
                PathSearch::Done(Ok(paths.remove(0)))
            }
        },
        (search, _) => search,
    }
}

/// A child of a USBCCGP device, as far as the search for its path looks at it.
pub struct ChildFacts {
    /// Its driver service.
    pub service: Option<ServiceName>,
    /// The interface class in `DeviceInterfaceGUIDs`.
    pub guid_list: Option<windows_sys::core::GUID>,
    /// The interface class in `DeviceInterfaceGUID`.
    pub single_guid: Option<windows_sys::core::GUID>,
    /// Its paths under each interface class.
    pub paths: spec_fn(windows_sys::core::GUID) -> Vec<DevicePath>,
}

impl ChildFacts {
    /// What is found out of the child.
    pub open spec fn finding(self, search: PathSearch) -> Finding {
        match search {
            PathSearch::Service => Finding::Service(self.service),
            PathSearch::GuidList => Finding::Guid(self.guid_list),
            PathSearch::SingleGuid => Finding::Guid(self.single_guid),
            PathSearch::Paths(guid) => Finding::Paths((self.paths)(guid)),
            PathSearch::Done(_) => Finding::Guid(None),
        }
    }

    /// The interface class: that in `DeviceInterfaceGUIDs` before that in `DeviceInterfaceGUID`.
    pub open spec fn guid(self) -> Option<windows_sys::core::GUID> {
        match self.guid_list {
            Some(guid) => Some(guid),
            None => self.single_guid,
        }
    }

    /// The device path of the child.
    pub open spec fn device_path(self) -> Result<DevicePath, Error> {
        match self.service {
            None => Err(Error::NoDriver),
            Some(service) => if !service.is_winusb() {
                Err(Error::NotWinUsb(service.quoted))
            } else {
                match self.guid() {
                    None => Err(Error::NoGuid),
                    Some(guid) => first_path((self.paths)(guid)@, Error::NoInterfacePath),
                }
            },
        }
    }
}

/// Where a search ends that has come this far.
pub open spec fn searched(search: PathSearch, child: ChildFacts, steps: nat) -> PathSearch
    decreases steps,
{
    if steps == 0 || search is Done {
        search
    } else {
        searched(search.next(child.finding(search)), child, (steps - 1) as nat)
    }
}

/// A search ends after at most four findings, with the device path of the child: the first path
/// under the interface class that the registry holds for it, provided that its driver is WinUSB;
/// or with what is missing first.
pub proof fn law_search_finds_device_path(child: ChildFacts)
    ensures
        searched(PathSearch::Service, child, 4) == PathSearch::Done(child.device_path()),
{
    reveal_with_fuel(searched, 5);
}

/// A device that has a path is opened by its first path, whether or not others follow.
pub proof fn law_device_path_is_first(
    path: DevicePath,
    rest: Seq<DevicePath>,
    paths: Vec<DevicePath>,
    result: Result<DevicePath, Error>,
)
    requires
        paths@ == seq![path] + rest,
        call_ensures(get_winusb_device_path, (paths,), result),
    ensures
        result == Ok::<DevicePath, Error>(path),
{
    assert((seq![path] + rest)[0] == path);
}

/// A device cannot be opened exactly if it has no path at all.
pub proof fn law_no_device_path(paths: Vec<DevicePath>, result: Result<DevicePath, Error>)
    requires
        call_ensures(get_winusb_device_path, (paths,), result),
    ensures
        result is Err <==> paths@.len() == 0,
        result is Err ==> result->Err_0 == Error::NoDevicePath,
{
}

/// The service is WinUSB exactly if its name has these six letters, each in upper or lower case.
pub proof fn law_winusb_name(service: ServiceName)
    ensures
        service.is_winusb() <==> {
            &&& service.name@.len() == 6
            &&& forall|i: int|
                0 <= i < 6 ==> #[trigger] service.name@[i] == "WINUSB"@[i] || service.name@[i]
                    == "winusb"@[i]
        },
{
    reveal_strlit("winusb");
    reveal_strlit("WINUSB");
    text::law_same_word(service.name@, "winusb"@);
    assert forall|i: int| 0 <= i < 6 implies "WINUSB"@[i] as int + 32 == "winusb"@[i] as int && 'A'
        <= "WINUSB"@[i] <= 'Z' && 'a' <= #[trigger] "winusb"@[i] <= 'z' by {}
}

/// An interface whose driver is WinUSB, in letters of any case, and for which the registry lists
/// an interface class, is opened by its first path under that class, whether or not others follow.
/// It cannot be opened where it has no path at all under it.
pub proof fn law_search_by_guid_list(
    service: ServiceName,
    guid: windows_sys::core::GUID,
    paths: Vec<DevicePath>,
    known: PathSearch,
    classed: PathSearch,
    end: PathSearch,
)
    requires
        service.name@.len() == 6,
        forall|i: int|
            0 <= i < 6 ==> #[trigger] service.name@[i] == "WINUSB"@[i] || service.name@[i]
                == "winusb"@[i],
        call_ensures(
            get_usbccgp_winusb_device_path,
            (PathSearch::Service, Finding::Service(Some(service))),
            known,
        ),
        call_ensures(
            get_usbccgp_winusb_device_path,
            (known, Finding::Guid(Some(guid))),
            classed,
        ),
        call_ensures(get_usbccgp_winusb_device_path, (classed, Finding::Paths(paths)), end),
    ensures
        PathSearch::Service.answered_by(Finding::Service(Some(service))),
        known == PathSearch::GuidList,
        known.answered_by(Finding::Guid(Some(guid))),
        classed == PathSearch::Paths(guid),
        classed.answered_by(Finding::Paths(paths)),
        forall|path: DevicePath, rest: Seq<DevicePath>|
            paths@ == #[trigger] (seq![path] + rest) ==> end == PathSearch::Done(Ok(path)),
        paths@ == Seq::<DevicePath>::empty() ==> end == PathSearch::Done(
            Err(Error::NoInterfacePath),
        ),
{
    law_winusb_name(service);
    assert forall|path: DevicePath, rest: Seq<DevicePath>|
        paths@ == #[trigger] (seq![path] + rest) implies end == PathSearch::Done(Ok(path)) by {
        assert((seq![path] + rest)[0] == path);
    }
}

/// Where the registry lists no interface class, the single class that it may hold takes its place,
/// and the first path under that one is taken. Where there is no such class either, the interface
/// cannot be opened.
pub proof fn law_search_by_single_guid(
    guid: windows_sys::core::GUID,
    paths: Vec<DevicePath>,
    unlisted: PathSearch,
    classed: PathSearch,
    end: PathSearch,
    without: PathSearch,
)
    requires
        call_ensures(
            get_usbccgp_winusb_device_path,
            (PathSearch::GuidList, Finding::Guid(None)),
            unlisted,
        ),
        call_ensures(
            get_usbccgp_winusb_device_path,
            (unlisted, Finding::Guid(Some(guid))),
            classed,
        ),
        call_ensures(get_usbccgp_winusb_device_path, (classed, Finding::Paths(paths)), end),
        call_ensures(get_usbccgp_winusb_device_path, (unlisted, Finding::Guid(None)), without),
    ensures
        unlisted == PathSearch::SingleGuid,
        unlisted.answered_by(Finding::Guid(Some(guid))),
        unlisted.answered_by(Finding::Guid(None)),
        classed == PathSearch::Paths(guid),
        forall|path: DevicePath, rest: Seq<DevicePath>|
            paths@ == #[trigger] (seq![path] + rest) ==> end == PathSearch::Done(Ok(path)),
        paths@ == Seq::<DevicePath>::empty() ==> end == PathSearch::Done(
            Err(Error::NoInterfacePath),
        ),
        without == PathSearch::Done(Err(Error::NoGuid)),
{
    assert forall|path: DevicePath, rest: Seq<DevicePath>|
        paths@ == #[trigger] (seq![path] + rest) implies end == PathSearch::Done(Ok(path)) by {
        assert((seq![path] + rest)[0] == path);
    }
}

/// An interface without a driver, or with one whose name is not the six letters of WinUSB, cannot
/// be opened; the error tells the name as it was quoted.
pub proof fn law_search_needs_winusb(
    service: ServiceName,
    without: PathSearch,
    other: PathSearch,
    message: String,
)
    requires
        service.name@.len() != 6 || exists|i: int|
            0 <= i < 6 && #[trigger] service.name@[i] != "WINUSB"@[i] && service.name@[i]
                != "winusb"@[i],
        call_ensures(
            get_usbccgp_winusb_device_path,
            (PathSearch::Service, Finding::Service(None)),
            without,
        ),
        call_ensures(
            get_usbccgp_winusb_device_path,
            (PathSearch::Service, Finding::Service(Some(service))),
            other,
        ),
        call_ensures(Error::message, (&Error::NotWinUsb(service.quoted),), message),
    ensures
        PathSearch::Service.answered_by(Finding::Service(None)),
        without == PathSearch::Done(Err(Error::NoDriver)),
        other == PathSearch::Done(Err(Error::NotWinUsb(service.quoted))),
        message@ == "Interface driver is "@ + service.quoted@ + ", not WinUSB"@,
{
    law_winusb_name(service);
}

/// What is missing is a path only in errors of kind `Other`; in all the others it is something
/// that the driver would have to have.
pub proof fn law_error_kind(error: Error, kind: ErrorKind)
    requires
        call_ensures(Error::kind, (&error,), kind),
    ensures
        kind == ErrorKind::Other <==> error == Error::NoDevicePath || error
            == Error::NoInterfacePath,
{
}

/// A search takes any finding of the kind that it asks for: any driver service or none, any
/// interface class or none, and any paths.
pub proof fn law_search_takes_any_finding(
    service: Option<ServiceName>,
    guid: Option<windows_sys::core::GUID>,
    class: windows_sys::core::GUID,
    paths: Vec<DevicePath>,
)
    ensures
        PathSearch::Service.answered_by(Finding::Service(service)),
        PathSearch::GuidList.answered_by(Finding::Guid(guid)),
        PathSearch::SingleGuid.answered_by(Finding::Guid(guid)),
        PathSearch::Paths(class).answered_by(Finding::Paths(paths)),
{
}

} // verus!
