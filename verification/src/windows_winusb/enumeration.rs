//! What is known of a USB device without opening it, put together from what the nodes of the
//! device tree and the hub port of the device say.
use vstd::prelude::*;
use vstd::utf8::*;

use crate::text;
use crate::windows_winusb::device_path::Error;
use crate::windows_winusb::ids;
use crate::windows_winusb::ids::{DevInst, IdList};
use crate::windows_winusb::port_chain;

verus! {

/// The type of a configuration descriptor.
pub const DESCRIPTOR_TYPE_CONFIGURATION: u8 = 2;

/// The type of a string descriptor.
pub const DESCRIPTOR_TYPE_STRING: u8 = 3;

/// US English.
pub const US_ENGLISH: u16 = 0x0409;

/// A request for a descriptor of a device.
#[derive(Clone, Copy, Debug, PartialEq, Eq, Structural)]
pub struct DescriptorRequest {
    /// The type of the descriptor.
    pub descriptor_type: u8,
    /// Which one of that type.
    pub index: u8,
    /// The language, for a string.
    pub language_id: u16,
}

/// One interface of a device.
#[derive(Debug, PartialEq, Eq)]
pub struct InterfaceInfo {
    /// The number of the interface.
    pub interface_number: u8,
    /// Its class.
    pub class: u8,
    /// Its subclass.
    pub subclass: u8,
    /// Its protocol.
    pub protocol: u8,
    /// What it calls itself.
    pub interface_string: Option<String>,
}

/// One alternate setting of an interface, as the configuration descriptor has it.
#[derive(Clone, Copy, Debug, PartialEq, Eq, Structural)]
pub struct AltSettingDesc {
    /// The class of the interface in this setting.
    pub class: u8,
    /// Its subclass.
    pub subclass: u8,
    /// Its protocol.
    pub protocol: u8,
}

/// An interface, as the configuration descriptor has it. It has at least one alternate setting.
#[derive(Debug)]
pub struct InterfaceDesc {
    interface_number: u8,
    alt_settings: Vec<AltSettingDesc>,
}

impl InterfaceDesc {
    #[verifier::type_invariant]
    spec fn has_alt_setting(self) -> bool {
        self.alt_settings@.len() > 0
    }

    /// The number of the interface.
    pub closed spec fn number(self) -> u8 {
        self.interface_number
    }

    /// Its alternate settings, in the order of the descriptor.
    pub closed spec fn settings(self) -> Seq<AltSettingDesc> {
        self.alt_settings@
    }

    /// An interface with these alternate settings, in the order of the descriptor; `None` where
    /// there are none.
    pub fn new(interface_number: u8, alt_settings: Vec<AltSettingDesc>) -> (desc: Option<Self>)
        ensures
            match desc {
                Some(desc) => alt_settings@.len() > 0 && desc.number() == interface_number
                    && desc.settings() == alt_settings@,
                None => alt_settings@.len() == 0,
            },
    {
        if alt_settings.len() == 0 {
            return None;
        }
        Some(InterfaceDesc { interface_number, alt_settings })
    }

    /// The number of the interface.
    pub fn interface_number(&self) -> (number: u8)
        ensures
            number == self.number(),
    {
        self.interface_number
    }

    /// The alternate setting that the descriptor lists first.
    pub fn first_alt_setting(&self) -> (setting: AltSettingDesc)
        ensures
            self.settings().len() > 0,
            setting == self.settings()[0],
    {
        proof {
            use_type_invariant(self);
        }
        self.alt_settings[0]
    }
}

/// What a configuration descriptor says.
#[derive(Debug)]
pub struct ConfigurationDesc {
    /// The value that selects the configuration.
    pub configuration_value: u8,
    /// Its interfaces.
    pub interfaces: Vec<InterfaceDesc>,
}

/// What a device descriptor says.
#[derive(Clone, Copy, Debug, PartialEq, Eq, Structural)]
pub struct DeviceDescriptor {
    /// The vendor ID.
    pub id_vendor: u16,
    /// The product ID.
    pub id_product: u16,
    /// The version of the device.
    pub bcd_device: u16,
    /// The class of the device.
    pub b_device_class: u8,
    /// The subclass of the device.
    pub b_device_sub_class: u8,
    /// The protocol of the device.
    pub b_device_protocol: u8,
    /// Which string descriptor holds the serial number; 0 for none.
    pub i_serial_number: u8,
}

/// How fast a device is connected.
#[derive(Clone, Copy, Debug, PartialEq, Eq, Structural)]
pub enum Speed {
    /// 1.5 Mbit/s.
    Low,
    /// 12 Mbit/s.
    Full,
    /// 480 Mbit/s.
    High,
    /// 5 Gbit/s.
    Super,
    /// 10 Gbit/s.
    SuperPlus,
}

/// What the hub says of the port that a device is plugged into.
#[derive(Clone, Copy, Debug, PartialEq, Eq, Structural)]
pub struct PortInfo {
    /// The descriptor of the device.
    pub device_desc: DeviceDescriptor,
    /// Its speed, where it is known.
    pub speed: Option<Speed>,
    /// The value of its active configuration; 0 for none.
    pub active_config: u8,
    /// Its address on the bus.
    pub address: u8,
}

/// A child of a composite device: one of its functions.
#[derive(Debug)]
pub struct FunctionNode {
    /// Its hardware IDs; `None` where it has no such property.
    pub hardware_ids: Option<IdList>,
    /// Its compatible IDs; `None` where it has no such property.
    pub compatible_ids: Option<IdList>,
    /// What it calls itself on the bus; `None` where that is not known or not Unicode.
    pub interface_string: Option<String>,
}

/// All that was found out of a node of the device tree that may be a USB device.
///
/// `S` is the platform's own kind of string, which is only handed on.
#[derive(Debug)]
pub struct ProbedDevice<S> {
    /// The node.
    pub devinst: DevInst,
    /// Its instance ID; `None` where it has none.
    pub instance_id: Option<S>,
    /// The instance ID of its parent; `None` where it has none.
    pub parent_instance_id: Option<S>,
    /// What the hub says of its port; `None` where the hub cannot be asked.
    pub port: Option<PortInfo>,
    /// What it calls itself on the bus; `None` where that is not known or not Unicode.
    pub product_string: Option<String>,
    /// The string that its device descriptor names as serial number; `None` where it was not asked
    /// for, or there is none.
    pub serial_string: Option<String>,
    /// The name of its driver service; `None` where it has none, or not a Unicode one.
    pub service: Option<String>,
    /// Its functions, for a composite device.
    pub functions: Vec<FunctionNode>,
    /// Its active configuration, for any other device; `None` where the descriptor cannot be had
    /// or makes no sense.
    pub configuration: Option<ConfigurationDesc>,
    /// The number of its bus.
    pub bus_number: u8,
    /// The ports through which it is reached.
    pub port_chain: Vec<u32>,
}

/// What is known of a device without opening it.
#[derive(Debug)]
pub struct DeviceInfo<S> {
    /// The instance ID of its node.
    pub instance_id: S,
    /// The instance ID of the parent of its node.
    pub parent_instance_id: S,
    /// Its node.
    pub devinst: DevInst,
    /// The name of its driver.
    pub driver: Option<String>,
    /// The number of its bus.
    pub bus_number: u8,
    /// The port that it is plugged into; 0 where that is not known.
    pub port_number: u32,
    /// The ports through which it is reached.
    pub port_chain: Vec<u32>,
    /// Its address on the bus.
    pub device_address: u8,
    /// Its vendor ID.
    pub vendor_id: u16,
    /// Its product ID.
    pub product_id: u16,
    /// Its version.
    pub device_version: u16,
    /// Its class.
    pub class: u8,
    /// Its subclass.
    pub subclass: u8,
    /// Its protocol.
    pub protocol: u8,
    /// Its speed, where it is known.
    pub speed: Option<Speed>,
    /// What its maker calls itself: not known here.
    pub manufacturer_string: Option<String>,
    /// What it calls itself.
    pub product_string: Option<String>,
    /// Its serial number.
    pub serial_number: Option<String>,
    /// Its interfaces, by number.
    pub interfaces: Vec<InterfaceInfo>,
}

/// The driver of a composite device.
pub open spec fn is_composite_driver(driver: Seq<char>) -> bool {
    text::same_ignoring_ascii_case(encode_utf8(driver), encode_utf8("usbccgp"@))
}

/// What the configuration descriptor says of an interface: its class, subclass and protocol are
/// those of its first alternate setting, and it has no name there.
pub open spec fn described(desc: InterfaceDesc) -> InterfaceInfo {
    InterfaceInfo {
        interface_number: desc.number(),
        class: desc.settings()[0].class,
        subclass: desc.settings()[0].subclass,
        protocol: desc.settings()[0].protocol,
        interface_string: None,
    }
}

/// The interface that a function of a composite device stands for, if its IDs name both a number
/// and a class.
pub open spec fn function_interface(function: FunctionNode) -> Option<InterfaceInfo> {
    match (
        ids::interface_number(function.hardware_ids),
        ids::interface_class(function.compatible_ids),
    ) {
        (Some(interface_number), Some((class, subclass, protocol))) => Some(
            InterfaceInfo {
                interface_number,
                class,
                subclass,
                protocol,
                interface_string: function.interface_string,
            },
        ),
        _ => None,
    }
}

/// The interfaces that functions stand for, in their order.
pub open spec fn function_interfaces(functions: Seq<FunctionNode>) -> Seq<InterfaceInfo>
    decreases functions.len(),
{
    if functions.len() == 0 {
        Seq::empty()
    } else {
        let before = function_interfaces(functions.drop_last());
        match function_interface(functions.last()) {
            Some(interface) => before.push(interface),
            None => before,
        }
    }
}

/// The configuration is the one with this value.
pub open spec fn is_active(configuration: Option<ConfigurationDesc>, active_config: u8) -> bool {
    configuration matches Some(configuration) && configuration.configuration_value == active_config
}

/// In the order of their numbers.
pub open spec fn in_order(interfaces: Seq<InterfaceInfo>) -> bool {
    forall|i: int, j: int|
        0 <= i < j < interfaces.len() ==> interfaces[i].interface_number
            <= interfaces[j].interface_number
}

impl<S> ProbedDevice<S> {
    /// There is enough to tell what device it is.
    pub open spec fn is_complete(self) -> bool {
        &&& self.instance_id is Some
        &&& self.parent_instance_id is Some
        &&& self.port is Some
    }

    /// The interfaces, in the order in which they were found: those of the functions of a
    /// composite device, else those of the active configuration, if that is known.
    pub open spec fn interfaces(self) -> Seq<InterfaceInfo> {
        if self.service matches Some(driver) && is_composite_driver(driver@) {
            function_interfaces(self.functions@)
        } else if is_active(self.configuration, self.port->0.active_config) {
            self.configuration->0.interfaces@.map_values(|desc: InterfaceDesc| described(desc))
        } else {
            Seq::empty()
        }
    }

    /// The name of the driver, unless it is empty.
    pub open spec fn driver(self) -> Option<String> {
        match self.service {
            Some(driver) => if driver@.len() > 0 {
                Some(driver)
            } else {
                None
            },
            None => None,
        }
    }

    /// The serial number, if the device descriptor names one.
    pub open spec fn serial_number(self) -> Option<String> {
        if self.port->0.device_desc.i_serial_number != 0 {
            self.serial_string
        } else {
            None
        }
    }

    /// `info` is what was found out of this device. Interfaces with the same number may stand in
    /// any order.
    pub open spec fn is_described_by(self, info: DeviceInfo<S>) -> bool {
        let port = self.port->0;
        &&& self.instance_id == Some(info.instance_id)
        &&& self.parent_instance_id == Some(info.parent_instance_id)
        &&& info.devinst == self.devinst
        &&& info.driver == self.driver()
        &&& info.bus_number == self.bus_number
        &&& info.port_chain == self.port_chain
        &&& info.port_number == (if self.port_chain@.len() > 0 {
            self.port_chain@.last()
        } else {
            0
        })
        &&& info.device_address == port.address
        &&& info.vendor_id == port.device_desc.id_vendor
        &&& info.product_id == port.device_desc.id_product
        &&& info.device_version == port.device_desc.bcd_device
        &&& info.class == port.device_desc.b_device_class
        &&& info.subclass == port.device_desc.b_device_sub_class
        &&& info.protocol == port.device_desc.b_device_protocol
        &&& info.speed == port.speed
        &&& info.manufacturer_string is None
        &&& info.product_string == self.product_string
        &&& info.serial_number == self.serial_number()
        &&& in_order(info.interfaces@)
        &&& info.interfaces@.to_multiset() == self.interfaces().to_multiset()
    }
}

/// The name of the driver of a node, from its driver service; empty where there is none.
pub fn get_driver_name(service: Option<String>) -> (driver: String)
    ensures
        match service {
            Some(service) => driver == service,
            None => driver@.len() == 0,
        },
{
    match service {
        Some(service) => service,
        None => String::new(),
    }
}

/// Whether a driver is that of composite devices, whose functions have nodes of their own.
pub fn is_usbccgp(driver: &str) -> (composite: bool)
    ensures
        composite == is_composite_driver(driver@),
{
    text::equal_ignoring_ascii_case(driver, "usbccgp")
}

/// The request for the serial number, for a device that has one.
///
/// The language ID list of the device would have to be asked for, so US English is assumed.
pub fn serial_number_request(desc: &DeviceDescriptor) -> (request: Option<DescriptorRequest>)
    ensures
        request == (if desc.i_serial_number != 0 {
            Some(
                DescriptorRequest {
                    descriptor_type: DESCRIPTOR_TYPE_STRING,
                    index: desc.i_serial_number,
                    language_id: US_ENGLISH,
                },
            )
        } else {
            None
        }),
{
    if desc.i_serial_number != 0 {
        Some(
            DescriptorRequest {
                descriptor_type: DESCRIPTOR_TYPE_STRING,
                index: desc.i_serial_number,
                language_id: US_ENGLISH,
            },
        )
    } else {
        None
    }
}

/// The request for the descriptor of the active configuration. Configurations are indexed from 0,
/// and their values are taken to be numbered from 1.
pub fn configuration_request(active_config: u8) -> (request: DescriptorRequest)
    ensures
        request.descriptor_type == DESCRIPTOR_TYPE_CONFIGURATION,
        request.index == (if active_config > 0 {
            active_config - 1
        } else {
            0
        }),
        request.language_id == 0,
{
    DescriptorRequest {
        descriptor_type: DESCRIPTOR_TYPE_CONFIGURATION,
        index: active_config.saturating_sub(1),
        language_id: 0,
    }
}

/// The interfaces that a configuration descriptor lists, each by its first alternate setting, if
/// it is that of the active configuration.
pub fn list_interfaces_from_desc(configuration: &Option<ConfigurationDesc>, active_config: u8) -> (interfaces:
    Option<Vec<InterfaceInfo>>)
    ensures
        match interfaces {
            Some(interfaces) => is_active(*configuration, active_config) && interfaces@
                == configuration->0.interfaces@.map_values(|desc: InterfaceDesc| described(desc)),
            None => !is_active(*configuration, active_config),
        },
{
    let configuration: &ConfigurationDesc = match configuration {
        Some(configuration) => configuration,
        None => return None,
    };
    if configuration.configuration_value != active_config {
        return None;
    }
    let descs: &Vec<InterfaceDesc> = &configuration.interfaces;
    let mut interfaces: Vec<InterfaceInfo> = Vec::new();
    let mut i: usize = 0;
    while i < descs.len()
        invariant
            i <= descs.len(),
            interfaces@.len() == i,
            forall|j: int| 0 <= j < i ==> interfaces@[j] == described(descs@[j]),
        decreases descs.len() - i,
    {
        let desc: &InterfaceDesc = &descs[i];
        let setting: AltSettingDesc = desc.first_alt_setting();
        interfaces.push(
            InterfaceInfo {
                interface_number: desc.interface_number(),
                class: setting.class,
                subclass: setting.subclass,
                protocol: setting.protocol,
                interface_string: None,
            },
        );
        i += 1;
    }
    assert(interfaces@ =~= descs@.map_values(|desc: InterfaceDesc| described(desc)));
    Some(interfaces)
}

/// The interfaces that the functions of a composite device stand for, in their order. A function
/// whose IDs do not name both a number and a class is left out.
pub fn list_function_interfaces(functions: &Vec<FunctionNode>) -> (interfaces: Vec<InterfaceInfo>)
    ensures
        interfaces@ == function_interfaces(functions@),
{
    let mut interfaces: Vec<InterfaceInfo> = Vec::new();
    let mut i: usize = 0;
    assert(functions@.take(0) =~= Seq::empty());
    while i < functions.len()
        invariant
            i <= functions.len(),
            interfaces@ == function_interfaces(functions@.take(i as int)),
        decreases functions.len() - i,
    {
        let function: &FunctionNode = &functions[i];
        proof {
            assert(functions@.take(i + 1).drop_last() =~= functions@.take(i as int));
            assert(functions@.take(i + 1).last() == functions@[i as int]);
        }
        if let Some(interface_number) = ids::get_interface_number(&function.hardware_ids) {
            if let Some((class, subclass, protocol)) = ids::get_interface_class(
                &function.compatible_ids,
            ) {
                let interface_string: Option<String> = match &function.interface_string {
                    Some(name) => Some(name.clone()),
                    None => None,
                };
                interfaces.push(
                    InterfaceInfo { interface_number, class, subclass, protocol, interface_string },
                );
            }
        }
        i += 1;
    }
    assert(functions@.take(i as int) =~= functions@);
    interfaces
}

/// One more item in a sequence is one more in its multiset, wherever it stands.
proof fn lemma_multiset_insert<T>(s: Seq<T>, at: int, item: T)
    requires
        0 <= at <= s.len(),
    ensures
        s.insert(at, item).to_multiset() == s.to_multiset().insert(item),
{
    broadcast use vstd::seq_lib::group_to_multiset_ensures;

    let longer = s.insert(at, item);
    assert(longer.remove(at) =~= s);
    assert(longer[at] == item);
    assert(longer.to_multiset().count(item) > 0);
    assert(longer.to_multiset() =~= s.to_multiset().insert(item));
}

/// Puts interfaces in the order of their numbers.
pub fn sort_interfaces(interfaces: Vec<InterfaceInfo>) -> (sorted: Vec<InterfaceInfo>)
    ensures
        in_order(sorted@),
        sorted@.to_multiset() == interfaces@.to_multiset(),
{
    let mut rest: Vec<InterfaceInfo> = interfaces;
    let mut sorted: Vec<InterfaceInfo> = Vec::new();
    proof {
        broadcast use vstd::seq_lib::group_to_multiset_ensures;

        assert(sorted@.to_multiset().add(rest@.to_multiset()) =~= interfaces@.to_multiset());
    }
    while rest.len() > 0
        invariant
            in_order(sorted@),
            sorted@.to_multiset().add(rest@.to_multiset()) == interfaces@.to_multiset(),
        decreases rest.len(),
    {
        let ghost unsorted = rest@;
        let interface: InterfaceInfo = rest.remove(rest.len() - 1);
        let mut at: usize = 0;
        while at < sorted.len() && sorted[at].interface_number < interface.interface_number
            invariant
                at <= sorted.len(),
                in_order(sorted@),
                forall|j: int|
                    0 <= j < at ==> sorted@[j].interface_number < interface.interface_number,
            decreases sorted.len() - at,
        {
            at += 1;
        }
        proof {
            broadcast use vstd::seq_lib::group_to_multiset_ensures;

            lemma_multiset_insert(sorted@, at as int, interface);
            assert(unsorted.contains(interface));
            assert(sorted@.to_multiset().insert(interface).add(rest@.to_multiset())
                =~= sorted@.to_multiset().add(unsorted.to_multiset()));
        }
        sorted.insert(at, interface);
    }
    proof {
        broadcast use vstd::seq_lib::group_to_multiset_ensures;

        assert(rest@ =~= Seq::empty());
        assert(sorted@.to_multiset() =~= interfaces@.to_multiset());
    }
    sorted
}

/// What is known of a device, from what was found out of its node; `None` for a node that is
/// missing an instance ID, a parent, or a hub port that can be asked.
pub fn probe_device<S>(device: ProbedDevice<S>) -> (info: Option<DeviceInfo<S>>)
    ensures
        match info {
            Some(info) => device.is_complete() && device.is_described_by(info),
            None => !device.is_complete(),
        },
{
    let instance_id: S = match device.instance_id {
        Some(instance_id) => instance_id,
        None => return None,
    };
    let parent_instance_id: S = match device.parent_instance_id {
        Some(parent_instance_id) => parent_instance_id,
        None => return None,
    };
    let port: PortInfo = match device.port {
        Some(port) => port,
        None => return None,
    };
    let serial_number: Option<String> = if port.device_desc.i_serial_number != 0 {
        device.serial_string
    } else {
        None
    };
    let driver: String = get_driver_name(device.service);
    proof {
        reveal_strlit("usbccgp");
        is_ascii_chars_encode_utf8("usbccgp"@);
        assert(driver@.len() == 0 ==> encode_utf8(driver@).len() == 0);
    }
    let interfaces: Vec<InterfaceInfo> = if is_usbccgp(driver.as_str()) {
        list_function_interfaces(&device.functions)
    } else {
        match list_interfaces_from_desc(&device.configuration, port.active_config) {
            Some(interfaces) => interfaces,
            None => Vec::new(),
        }
    };
    let interfaces: Vec<InterfaceInfo> = sort_interfaces(interfaces);
    let port_number: u32 = if device.port_chain.len() > 0 {
        device.port_chain[device.port_chain.len() - 1]
    } else {
        0
    };
    Some(
        DeviceInfo {
            instance_id,
            parent_instance_id,
            devinst: device.devinst,
            driver: if driver.as_str().is_empty() {
                None
            } else {
                Some(driver)
            },
            bus_number: device.bus_number,
            port_number,
            port_chain: device.port_chain,
            device_address: port.address,
            vendor_id: port.device_desc.id_vendor,
            product_id: port.device_desc.id_product,
            device_version: port.device_desc.bcd_device,
            class: port.device_desc.b_device_class,
            subclass: port.device_desc.b_device_sub_class,
            protocol: port.device_desc.b_device_protocol,
            speed: port.speed,
            manufacturer_string: None,
            product_string: device.product_string,
            serial_number,
            interfaces,
        },
    )
}

/// The devices of which there is enough to tell what they are, in their order.
pub open spec fn complete_devices<S>(candidates: Seq<Option<ProbedDevice<S>>>) -> Seq<
    ProbedDevice<S>,
>
    decreases candidates.len(),
{
    if candidates.len() == 0 {
        Seq::empty()
    } else {
        let before = complete_devices(candidates.drop_last());
        match candidates.last() {
            Some(device) => if device.is_complete() {
                before.push(device)
            } else {
                before
            },
            None => before,
        }
    }
}

/// What is known of each device, from what was found out of the nodes of the USB device interface,
/// in their order. A candidate is `None` where no node was found behind the interface; such a
/// candidate is left out, and so is a node that is no complete device.
pub fn list_devices<S>(candidates: Vec<Option<ProbedDevice<S>>>) -> (devices: Result<
    Vec<DeviceInfo<S>>,
    Error,
>)
    ensures
        devices is Ok,
        devices->Ok_0@.len() == complete_devices(candidates@).len(),
        forall|i: int|
            0 <= i < devices->Ok_0@.len() ==> complete_devices(candidates@)[i].is_described_by(
                #[trigger] devices->Ok_0@[i],
            ),
{
    let ghost all = candidates@;
    let mut devices: Vec<DeviceInfo<S>> = Vec::new();
    assert(all.take(0) =~= Seq::empty());
    for candidate in it: candidates
        invariant
            it.seq() == all,
            devices@.len() == complete_devices(all.take(it.index())).len(),
            forall|i: int|
                0 <= i < devices@.len() ==> complete_devices(
                    all.take(it.index()),
                )[i].is_described_by(#[trigger] devices@[i]),
    {
        proof {
            assert(all.take(it.index() + 1).drop_last() =~= all.take(it.index()));
            assert(all.take(it.index() + 1).last() == candidate);
        }
        if let Some(device) = candidate {
            if let Some(info) = probe_device(device) {
                devices.push(info);
            }
        }
    }
    assert(all.take(all.len() as int) =~= all);
    Ok(devices)
}

/// Where no two interfaces of a device have the same number, there is only one order in which they
/// can be listed.
pub proof fn law_interfaces_have_one_order(a: Seq<InterfaceInfo>, b: Seq<InterfaceInfo>)
    requires
        in_order(a),
        in_order(b),
        a.to_multiset() == b.to_multiset(),
        forall|i: int, j: int|
            0 <= i < j < a.len() ==> a[i].interface_number != a[j].interface_number,
    ensures
        a == b,
    decreases a.len(),
{
    broadcast use vstd::seq_lib::group_to_multiset_ensures;

    a.to_multiset_ensures();
    b.to_multiset_ensures();
    if a.len() > 0 {
        assert(b.to_multiset().count(a.last()) > 0);
        assert(a.to_multiset().count(b.last()) > 0);
        let in_b = choose|i: int| 0 <= i < b.len() && b[i] == a.last();
        let in_a = choose|i: int| 0 <= i < a.len() && a[i] == b.last();
        assert(a.last() == b.last());
        let last = a.len() - 1;
        assert(a.remove(last) =~= a.drop_last());
        assert(b.remove(last) =~= b.drop_last());
        law_interfaces_have_one_order(a.drop_last(), b.drop_last());
        assert(a =~= a.drop_last().push(a.last()));
        assert(b =~= b.drop_last().push(b.last()));
    }
}

/// A device that is reached by a walk from its node, and whose own port number is known, is said
/// to be plugged into that port.
pub proof fn law_port_number_is_own<S>(
    device: ProbedDevice<S>,
    info: DeviceInfo<S>,
    own: u32,
    ancestors: Seq<port_chain::Node>,
    buses: Map<Seq<char>, u8>,
)
    requires
        device.is_described_by(info),
        device.port_chain@ == port_chain::walked(
            port_chain::Progress::start(),
            Some(own),
            ancestors,
            0,
            buses,
        ).ports,
    ensures
        info.port_number == own,
{
    port_chain::law_walk_finds_port_chain(Some(own), ancestors, buses);
}

/// The interfaces of a composite device are those of its functions whose IDs name both a number
/// and a class.
pub proof fn law_function_interfaces(functions: Seq<FunctionNode>, interface: InterfaceInfo)
    ensures
        function_interfaces(functions).contains(interface) <==> exists|i: int|
            0 <= i < functions.len() && function_interface(#[trigger] functions[i]) == Some(
                interface,
            ),
    decreases functions.len(),
{
    if functions.len() > 0 {
        let before = functions.drop_last();
        law_function_interfaces(before, interface);
        if function_interfaces(functions).contains(interface) {
            if function_interfaces(before).contains(interface) {
                let i = choose|i: int|
                    0 <= i < before.len() && function_interface(#[trigger] before[i]) == Some(
                        interface,
                    );
                assert(functions[i] == before[i]);
            } else {
                let at = choose|at: int|
                    0 <= at < function_interfaces(functions).len() && function_interfaces(
                        functions,
                    )[at] == interface;
                if at < function_interfaces(before).len() {
                    assert(function_interfaces(before)[at] == interface);
                }
                assert(functions[functions.len() - 1] == functions.last());
            }
        }
        if exists|i: int|
            0 <= i < functions.len() && function_interface(#[trigger] functions[i]) == Some(
                interface,
            ) {
            let i = choose|i: int|
                0 <= i < functions.len() && function_interface(#[trigger] functions[i]) == Some(
                    interface,
                );
            if i < before.len() {
                assert(before[i] == functions[i]);
                let at = choose|at: int|
                    0 <= at < function_interfaces(before).len() && function_interfaces(before)[at]
                        == interface;
                assert(function_interfaces(functions)[at] == interface);
            } else {
                assert(function_interfaces(functions).last() == interface);
            }
        }
    }
}

/// The driver of composite devices is the one whose name has the seven letters of `usbccgp`, each
/// in upper or lower case.
pub proof fn law_composite_driver_name(driver: &str, composite: bool)
    requires
        call_ensures(is_usbccgp, (driver,), composite),
    ensures
        composite == is_composite_driver(driver@),
        composite <==> {
            &&& driver@.len() == 7
            &&& forall|i: int|
                0 <= i < 7 ==> #[trigger] driver@[i] == "USBCCGP"@[i] || driver@[i]
                    == "usbccgp"@[i]
        },
{
    lemma_composite_driver_name(driver@);
}

/// The letters of the driver of composite devices.
proof fn lemma_composite_driver_name(driver: Seq<char>)
    ensures
        is_composite_driver(driver) <==> {
            &&& driver.len() == 7
            &&& forall|i: int|
                0 <= i < 7 ==> #[trigger] driver[i] == "USBCCGP"@[i] || driver[i] == "usbccgp"@[i]
        },
{
    reveal_strlit("usbccgp");
    reveal_strlit("USBCCGP");
    text::law_same_word(driver, "usbccgp"@);
    assert forall|i: int| 0 <= i < 7 implies "USBCCGP"@[i] as int + 32 == "usbccgp"@[i] as int
        && 'A' <= "USBCCGP"@[i] <= 'Z' && 'a' <= #[trigger] "usbccgp"@[i] <= 'z' by {}
}

/// The driver of a node has the name of its driver service; without one the name is empty.
pub proof fn law_driver_name(service: String, driver: String, without: String)
    requires
        call_ensures(get_driver_name, (Some(service),), driver),
        call_ensures(get_driver_name, (None::<String>,), without),
    ensures
        driver@ == service@,
        without@ == ""@,
{
    reveal_strlit("");
}

/// The serial number is asked for by the index that the device descriptor gives, as a string in
/// US English, and not at all where the index is 0.
pub proof fn law_serial_number_request(
    desc: DeviceDescriptor,
    request: Option<DescriptorRequest>,
)
    requires
        call_ensures(serial_number_request, (&desc,), request),
    ensures
        request is None <==> desc.i_serial_number == 0,
        request matches Some(request) ==> {
            &&& request.index == desc.i_serial_number
            &&& request.descriptor_type == 3
            &&& request.language_id == 0x0409
        },
{
}

/// The configuration with value `n + 1` is asked for by the index `n`, and so is, by the index 0,
/// that of a device without an active configuration.
pub proof fn law_configuration_request(
    n: u8,
    request: DescriptorRequest,
    none: DescriptorRequest,
)
    requires
        n < 255,
        call_ensures(configuration_request, ((n + 1) as u8,), request),
        call_ensures(configuration_request, (0u8,), none),
    ensures
        request.index == n,
        request.descriptor_type == 2,
        request.language_id == 0,
        none.index == 0,
        none.descriptor_type == 2,
        none.language_id == 0,
{
}

/// An interface with alternate settings has the number that it was made with, and the first of the
/// settings is its first, whatever the others are; there is no interface without one.
pub proof fn law_first_alt_setting(
    interface_number: u8,
    first: AltSettingDesc,
    others: Seq<AltSettingDesc>,
    alt_settings: Vec<AltSettingDesc>,
    desc: Option<InterfaceDesc>,
    number: u8,
    setting: AltSettingDesc,
)
    requires
        alt_settings@ == seq![first] + others,
        call_ensures(InterfaceDesc::new, (interface_number, alt_settings), desc),
        desc is Some ==> call_ensures(InterfaceDesc::interface_number, (&desc->0,), number),
        desc is Some ==> call_ensures(InterfaceDesc::first_alt_setting, (&desc->0,), setting),
    ensures
        desc is Some,
        number == interface_number,
        setting == first,
        described(desc->0) == (InterfaceInfo {
            interface_number,
            class: first.class,
            subclass: first.subclass,
            protocol: first.protocol,
            interface_string: None,
        }),
{
    assert((seq![first] + others)[0] == first);
}

/// The interfaces of a configuration are listed where its value is that of the active one, each in
/// its place, with its number and the class, subclass and protocol of its first alternate setting.
/// Where the value is another, or there is no configuration, nothing is listed.
pub proof fn law_active_configuration(
    configuration: ConfigurationDesc,
    active_config: u8,
    interfaces: Option<Vec<InterfaceInfo>>,
    without: Option<Vec<InterfaceInfo>>,
)
    requires
        call_ensures(
            list_interfaces_from_desc,
            (&Some(configuration), active_config),
            interfaces,
        ),
        call_ensures(
            list_interfaces_from_desc,
            (&None::<ConfigurationDesc>, active_config),
            without,
        ),
    ensures
        without is None,
        interfaces is Some <==> configuration.configuration_value == active_config,
        interfaces matches Some(interfaces) ==> {
            &&& interfaces@.len() == configuration.interfaces@.len()
            &&& forall|i: int|
                0 <= i < interfaces@.len() ==> {
                    let desc = configuration.interfaces@[i];
                    &&& (#[trigger] interfaces@[i]).interface_number == desc.number()
                    &&& interfaces@[i].class == desc.settings()[0].class
                    &&& interfaces@[i].subclass == desc.settings()[0].subclass
                    &&& interfaces@[i].protocol == desc.settings()[0].protocol
                    &&& interfaces@[i].interface_string is None
                }
        },
{
}

/// The functions of a composite device that are listed behind others stand for the interfaces that
/// follow those of the others.
pub proof fn law_function_interfaces_append(front: Seq<FunctionNode>, back: Seq<FunctionNode>)
    ensures
        function_interfaces(front + back) == function_interfaces(front) + function_interfaces(back),
    decreases back.len(),
{
    if back.len() == 0 {
        assert(front + back =~= front);
        assert(function_interfaces(front) + function_interfaces(back) =~= function_interfaces(
            front,
        ));
    } else {
        assert((front + back).drop_last() =~= front + back.drop_last());
        assert((front + back).last() == back.last());
        law_function_interfaces_append(front, back.drop_last());
        let before = function_interfaces(front) + function_interfaces(back.drop_last());
        if let Some(interface) = function_interface(back.last()) {
            assert(before.push(interface) =~= function_interfaces(front) + function_interfaces(
                back.drop_last(),
            ).push(interface));
        }
    }
}

/// One function stands for one interface, with the number that its hardware IDs name, the class
/// that its compatible IDs name, and its own name; or for none, where either names none.
pub proof fn law_one_function(
    function: FunctionNode,
    functions: Vec<FunctionNode>,
    number: Option<u8>,
    class: Option<(u8, u8, u8)>,
    interfaces: Vec<InterfaceInfo>,
)
    requires
        functions@ == seq![function],
        call_ensures(ids::get_interface_number, (&function.hardware_ids,), number),
        call_ensures(ids::get_interface_class, (&function.compatible_ids,), class),
        call_ensures(list_function_interfaces, (&functions,), interfaces),
    ensures
        interfaces@.len() == (if number is Some && class is Some {
            1int
        } else {
            0int
        }),
        interfaces@.len() == 1 ==> {
            let interface = interfaces@[0];
            &&& number == Some(interface.interface_number)
            &&& class == Some((interface.class, interface.subclass, interface.protocol))
            &&& interface.interface_string == function.interface_string
        },
        interfaces@ == function_interfaces(functions@),
        function_interfaces(Seq::empty()) == Seq::<InterfaceInfo>::empty(),
{
    reveal_with_fuel(function_interfaces, 2);
    assert(seq![function].drop_last() =~= Seq::empty());
    assert(seq![function].last() == function);
}

/// Sorted interfaces are the same ones, none more and none less, and none stands behind one with a
/// higher number.
pub proof fn law_sorted_interfaces(
    interfaces: Vec<InterfaceInfo>,
    sorted: Vec<InterfaceInfo>,
    i: int,
    j: int,
)
    requires
        call_ensures(sort_interfaces, (interfaces,), sorted),
    ensures
        0 <= i < j < sorted@.len() ==> sorted@[i].interface_number <= sorted@[j].interface_number,
        sorted@.len() == interfaces@.len(),
        forall|interface: InterfaceInfo|
            #[trigger] sorted@.to_multiset().count(interface) == interfaces@.to_multiset().count(
                interface,
            ),
{
    sorted@.to_multiset_ensures();
    interfaces@.to_multiset_ensures();
}

/// A node with an instance ID, a parent and a hub port is a device, and all that is told of it is
/// what was found out: its IDs and class are those of its device descriptor, its speed and address
/// those of the hub port, its port the last of the chain, or 0 where the chain is empty.
pub proof fn law_device_is_what_was_found_out<S>(
    device: ProbedDevice<S>,
    port: PortInfo,
    info: Option<DeviceInfo<S>>,
)
    requires
        device.instance_id is Some,
        device.parent_instance_id is Some,
        device.port == Some(port),
        call_ensures(probe_device::<S>, (device,), info),
    ensures
        info is Some,
        info->0.instance_id == device.instance_id->0,
        info->0.parent_instance_id == device.parent_instance_id->0,
        info->0.devinst == device.devinst,
        info->0.bus_number == device.bus_number,
        info->0.port_chain@ == device.port_chain@,
        forall|hubs: Seq<u32>, own: u32|
            device.port_chain@ == #[trigger] hubs.push(own) ==> info->0.port_number == own,
        device.port_chain@.len() == 0 ==> info->0.port_number == 0,
        info->0.device_address == port.address,
        info->0.vendor_id == port.device_desc.id_vendor,
        info->0.product_id == port.device_desc.id_product,
        info->0.device_version == port.device_desc.bcd_device,
        info->0.class == port.device_desc.b_device_class,
        info->0.subclass == port.device_desc.b_device_sub_class,
        info->0.protocol == port.device_desc.b_device_protocol,
        info->0.speed == port.speed,
        info->0.manufacturer_string is None,
        info->0.product_string == device.product_string,
        port.device_desc.i_serial_number == 0 ==> info->0.serial_number is None,
        port.device_desc.i_serial_number != 0 ==> info->0.serial_number == device.serial_string,
        device.service is None ==> info->0.driver is None,
        device.service matches Some(service) ==> (if service@ == ""@ {
            info->0.driver is None
        } else {
            info->0.driver == Some(service)
        }),
{
    reveal_strlit("");
    if let Some(service) = device.service {
        assert(service@ == ""@ <==> service@.len() == 0) by {
            if service@.len() == 0 {
                assert(service@ =~= ""@);
            }
        }
    }
    assert forall|hubs: Seq<u32>, own: u32|
        device.port_chain@ == #[trigger] hubs.push(own) implies info->0.port_number == own by {
        assert(hubs.push(own).last() == own);
    }
}

/// A node that has no instance ID, no parent or no hub port that can be asked is no device.
pub proof fn law_incomplete_node_is_no_device<S>(
    device: ProbedDevice<S>,
    info: Option<DeviceInfo<S>>,
)
    requires
        device.instance_id is None || device.parent_instance_id is None || device.port is None,
        call_ensures(probe_device::<S>, (device,), info),
    ensures
        info is None,
{
}

/// The interfaces of a device whose driver is not that of composite devices are those of its
/// active configuration, by number: all of them, each as its first alternate setting describes it.
/// Without such a configuration it has none.
pub proof fn law_interfaces_of_plain_device<S>(
    device: ProbedDevice<S>,
    expected: Seq<InterfaceInfo>,
    info: Option<DeviceInfo<S>>,
)
    requires
        device.instance_id is Some,
        device.parent_instance_id is Some,
        device.port is Some,
        device.service matches Some(service) ==> service@.len() != 7 || exists|i: int|
            0 <= i < 7 && #[trigger] service@[i] != "USBCCGP"@[i] && service@[i] != "usbccgp"@[i],
        device.configuration is Some && device.configuration->0.configuration_value
            == device.port->0.active_config ==> {
            &&& expected.len() == device.configuration->0.interfaces@.len()
            &&& forall|i: int|
                0 <= i < expected.len() ==> {
                    let desc = device.configuration->0.interfaces@[i];
                    #[trigger] expected[i] == (InterfaceInfo {
                        interface_number: desc.number(),
                        class: desc.settings()[0].class,
                        subclass: desc.settings()[0].subclass,
                        protocol: desc.settings()[0].protocol,
                        interface_string: None,
                    })
                }
        },
        device.configuration is None || device.configuration->0.configuration_value
            != device.port->0.active_config ==> expected.len() == 0,
        call_ensures(probe_device::<S>, (device,), info),
    ensures
        info is Some,
        info->0.interfaces@.len() == expected.len(),
        info->0.interfaces@.to_multiset() == expected.to_multiset(),
        forall|i: int, j: int|
            0 <= i < j < info->0.interfaces@.len()
                ==> #[trigger] info->0.interfaces@[i].interface_number
                <= #[trigger] info->0.interfaces@[j].interface_number,
{
    if let Some(service) = device.service {
        lemma_composite_driver_name(service@);
    }
    assert(device.interfaces() =~= expected);
    info->0.interfaces@.to_multiset_ensures();
    expected.to_multiset_ensures();
}

/// The interfaces of a composite device are those of its functions, by number.
pub proof fn law_interfaces_of_composite_device<S>(
    device: ProbedDevice<S>,
    info: Option<DeviceInfo<S>>,
    interfaces: Vec<InterfaceInfo>,
)
    requires
        device.instance_id is Some,
        device.parent_instance_id is Some,
        device.port is Some,
        device.service is Some,
        device.service->0@.len() == 7,
        forall|i: int|
            0 <= i < 7 ==> #[trigger] device.service->0@[i] == "USBCCGP"@[i]
                || device.service->0@[i] == "usbccgp"@[i],
        call_ensures(list_function_interfaces, (&device.functions,), interfaces),
        call_ensures(probe_device::<S>, (device,), info),
    ensures
        info is Some,
        info->0.interfaces@.len() == interfaces@.len(),
        info->0.interfaces@.to_multiset() == interfaces@.to_multiset(),
        forall|i: int, j: int|
            0 <= i < j < info->0.interfaces@.len()
                ==> #[trigger] info->0.interfaces@[i].interface_number
                <= #[trigger] info->0.interfaces@[j].interface_number,
{
    lemma_composite_driver_name(device.service->0@);
    info->0.interfaces@.to_multiset_ensures();
    interfaces@.to_multiset_ensures();
}

/// The devices among candidates that are listed behind others follow those among the others.
pub proof fn law_devices_append<S>(
    front: Seq<Option<ProbedDevice<S>>>,
    back: Seq<Option<ProbedDevice<S>>>,
)
    ensures
        complete_devices(front + back) == complete_devices(front) + complete_devices(back),
    decreases back.len(),
{
    if back.len() == 0 {
        assert(front + back =~= front);
        assert(complete_devices(front) + complete_devices(back) =~= complete_devices(front));
    } else {
        assert((front + back).drop_last() =~= front + back.drop_last());
        assert((front + back).last() == back.last());
        law_devices_append(front, back.drop_last());
        let before = complete_devices(front) + complete_devices(back.drop_last());
        if let Some(device) = back.last() {
            assert(before.push(device) =~= complete_devices(front) + complete_devices(
                back.drop_last(),
            ).push(device));
        }
    }
}

/// A candidate alone is a device if it has an instance ID, a parent and a hub port, and none
/// otherwise.
pub proof fn law_one_candidate<S>(device: ProbedDevice<S>)
    ensures
        device.instance_id is Some && device.parent_instance_id is Some && device.port is Some
            ==> complete_devices(seq![Some(device)]) == seq![device],
        device.instance_id is None || device.parent_instance_id is None || device.port is None
            ==> complete_devices(seq![Some(device)]).len() == 0,
        complete_devices(seq![None::<ProbedDevice<S>>]).len() == 0,
        complete_devices(Seq::<Option<ProbedDevice<S>>>::empty()).len() == 0,
{
    reveal_with_fuel(complete_devices, 2);
    assert(seq![Some(device)].drop_last() =~= Seq::empty());
    assert(seq![Some(device)].last() == Some(device));
    assert(seq![None::<ProbedDevice<S>>].drop_last() =~= Seq::empty());
    assert(seq![None::<ProbedDevice<S>>].last() is None);
    assert(Seq::<ProbedDevice<S>>::empty().push(device) =~= seq![device]);
}

/// Where every candidate has an instance ID, a parent and a hub port, as many devices are listed as
/// there are candidates, and each describes the candidate in its place.
pub proof fn law_all_devices_are_listed<S>(
    candidates: Vec<Option<ProbedDevice<S>>>,
    devices: Result<Vec<DeviceInfo<S>>, Error>,
)
    requires
        forall|i: int|
            0 <= i < candidates@.len() ==> {
                &&& #[trigger] candidates@[i] is Some
                &&& candidates@[i]->0.instance_id is Some
                &&& candidates@[i]->0.parent_instance_id is Some
                &&& candidates@[i]->0.port is Some
            },
        call_ensures(list_devices::<S>, (candidates,), devices),
    ensures
        devices is Ok,
        devices->Ok_0@.len() == candidates@.len(),
        forall|i: int|
            0 <= i < candidates@.len() ==> {
                &&& (#[trigger] devices->Ok_0@[i]).instance_id == candidates@[i]->0.instance_id->0
                &&& devices->Ok_0@[i].devinst == candidates@[i]->0.devinst
                &&& candidates@[i]->0.is_described_by(devices->Ok_0@[i])
            },
{
    lemma_all_complete(candidates@);
    assert forall|i: int| 0 <= i < candidates@.len() implies {
        &&& (#[trigger] devices->Ok_0@[i]).instance_id == candidates@[i]->0.instance_id->0
        &&& devices->Ok_0@[i].devinst == candidates@[i]->0.devinst
        &&& candidates@[i]->0.is_described_by(devices->Ok_0@[i])
    } by {
        assert(complete_devices(candidates@)[i] == candidates@[i]->0);
        assert(complete_devices(candidates@)[i].is_described_by(devices->Ok_0@[i]));
    }
}

/// Of candidates that are all complete none is left out.
proof fn lemma_all_complete<S>(candidates: Seq<Option<ProbedDevice<S>>>)
    requires
        forall|i: int|
            0 <= i < candidates.len() ==> #[trigger] candidates[i] is Some
                && candidates[i]->0.is_complete(),
    ensures
        complete_devices(candidates).len() == candidates.len(),
        forall|i: int|
            0 <= i < candidates.len() ==> #[trigger] complete_devices(candidates)[i]
                == candidates[i]->0,
    decreases candidates.len(),
{
    if candidates.len() > 0 {
        let before = candidates.drop_last();
        assert forall|i: int| 0 <= i < before.len() implies #[trigger] before[i] is Some
            && before[i]->0.is_complete() by {
            assert(before[i] == candidates[i]);
        }
        lemma_all_complete(before);
        assert(candidates[candidates.len() - 1] is Some);
        assert forall|i: int| 0 <= i < candidates.len() implies #[trigger] complete_devices(
            candidates,
        )[i] == candidates[i]->0 by {
            if i < before.len() {
                assert(complete_devices(before)[i] == before[i]->0);
            }
        }
    }
}

/// The list of the devices among candidates that are put behind others has the devices among the
/// others first, then the devices among those: as many as there are in each, and each describes
/// the same candidate.
pub proof fn law_device_lists_append<S>(
    front: Vec<Option<ProbedDevice<S>>>,
    back: Vec<Option<ProbedDevice<S>>>,
    whole: Vec<Option<ProbedDevice<S>>>,
    of_front: Result<Vec<DeviceInfo<S>>, Error>,
    of_back: Result<Vec<DeviceInfo<S>>, Error>,
    of_whole: Result<Vec<DeviceInfo<S>>, Error>,
)
    requires
        whole@ == front@ + back@,
        call_ensures(list_devices::<S>, (front,), of_front),
        call_ensures(list_devices::<S>, (back,), of_back),
        call_ensures(list_devices::<S>, (whole,), of_whole),
    ensures
        of_front is Ok,
        of_back is Ok,
        of_whole is Ok,
        of_whole->Ok_0@.len() == of_front->Ok_0@.len() + of_back->Ok_0@.len(),
        forall|i: int|
            0 <= i < of_front->Ok_0@.len() ==> {
                &&& (#[trigger] of_whole->Ok_0@[i]).instance_id == of_front->Ok_0@[i].instance_id
                &&& of_whole->Ok_0@[i].devinst == of_front->Ok_0@[i].devinst
            },
        forall|i: int|
            0 <= i < of_back->Ok_0@.len() ==> {
                let n = of_front->Ok_0@.len();
                &&& (#[trigger] of_back->Ok_0@[i]).instance_id == of_whole->Ok_0@[n
                    + i].instance_id
                &&& of_back->Ok_0@[i].devinst == of_whole->Ok_0@[n + i].devinst
            },
{
    law_devices_append(front@, back@);
    let all = complete_devices(whole@);
    let n = of_front->Ok_0@.len();
    assert forall|i: int| 0 <= i < of_front->Ok_0@.len() implies {
        &&& (#[trigger] of_whole->Ok_0@[i]).instance_id == of_front->Ok_0@[i].instance_id
        &&& of_whole->Ok_0@[i].devinst == of_front->Ok_0@[i].devinst
    } by {
        assert(all[i] == complete_devices(front@)[i]);
        assert(all[i].is_described_by(of_whole->Ok_0@[i]));
        assert(complete_devices(front@)[i].is_described_by(of_front->Ok_0@[i]));
    }
    assert forall|i: int| 0 <= i < of_back->Ok_0@.len() implies {
        &&& (#[trigger] of_back->Ok_0@[i]).instance_id == of_whole->Ok_0@[n + i].instance_id
        &&& of_back->Ok_0@[i].devinst == of_whole->Ok_0@[n + i].devinst
    } by {
        assert(all[n + i] == complete_devices(back@)[i]);
        assert(all[n + i].is_described_by(of_whole->Ok_0@[n + i]));
        assert(complete_devices(back@)[i].is_described_by(of_back->Ok_0@[i]));
    }
}

} // verus!
