//! The immutable record types of the compiled database.
//!
//! Vendors own devices, devices own interfaces; classes own subclasses,
//! subclasses own protocols. The remaining enumerations are either flat
//! (`UsbId`) or one generic two-level parent/child family
//! (`UsbIdWithChildren`), distinguished by a tag so that each alias is its
//! own type.

use vstd::prelude::*;

verus! {

/// Mathematical model of a `UsbId`.
pub ghost struct SpecUsbId<T> {
    pub id: T,
    pub name: Seq<char>,
}

/// Mathematical model of a `UsbIdWithChildren`.
pub ghost struct SpecParented<T, C> {
    pub id: T,
    pub name: Seq<char>,
    pub children: Seq<C>,
}

/// Mathematical model of an `Interface`.
pub ghost struct SpecInterface {
    pub id: u8,
    pub name: Seq<char>,
}

/// Mathematical model of a `Device`.
pub ghost struct SpecDevice {
    pub vendor_id: u16,
    pub id: u16,
    pub name: Seq<char>,
    pub interfaces: Seq<SpecInterface>,
}

/// Mathematical model of a `Vendor`.
pub ghost struct SpecVendor {
    pub id: u16,
    pub name: Seq<char>,
    pub devices: Seq<SpecDevice>,
}

/// Mathematical model of a `SubClass`.
pub ghost struct SpecSubClass {
    pub class_id: u8,
    pub id: u8,
    pub name: Seq<char>,
    pub protocols: Seq<SpecUsbId<u8>>,
}

/// Mathematical model of a `Class`.
pub ghost struct SpecClass {
    pub id: u8,
    pub name: Seq<char>,
    pub sub_classes: Seq<SpecSubClass>,
}

/// Represents a generic USB ID in the USB database.
///
/// Not designed to be used directly; use one of the type aliases instead.
/// The tag `ID` keeps otherwise-identical aliases distinct types.
#[derive(Debug, Clone, PartialEq, Eq)]
pub struct UsbId<const ID: u8, T> {
    id: T,
    name: String,
}

impl<const ID: u8, T> View for UsbId<ID, T> {
    type V = SpecUsbId<T>;

    closed spec fn view(&self) -> SpecUsbId<T> {
        SpecUsbId { id: self.id, name: self.name@ }
    }
}

impl<const ID: u8, T> DeepView for UsbId<ID, T> {
    type V = SpecUsbId<T>;

    open spec fn deep_view(&self) -> SpecUsbId<T> {
        self.view()
    }
}

impl<const ID: u8, T: Copy> UsbId<ID, T> {
    /// Builds the entry; parsing and conversion use this.
    pub fn make(id: T, name: String) -> (r: Self)
        ensures
            r@ == (SpecUsbId { id, name: name@ }),
    {
        UsbId { id, name }
    }

    /// Returns the type's ID.
    pub fn id(&self) -> (r: T)
        ensures
            r == self@.id,
    {
        self.id
    }

    /// Returns the type's name.
    pub fn name(&self) -> (r: &str)
        ensures
            r@ == self@.name,
    {
        self.name.as_str()
    }
}

/// Represents a generic USB ID in the USB database with children IDs.
///
/// Not designed to be used directly; use one of the type aliases instead.
#[derive(Debug, Clone, PartialEq, Eq)]
pub struct UsbIdWithChildren<T: Copy, C> {
    id: T,
    name: String,
    children: Vec<C>,
}

impl<T: Copy, C: DeepView> View for UsbIdWithChildren<T, C> {
    type V = SpecParented<T, C::V>;

    closed spec fn view(&self) -> SpecParented<T, C::V> {
        SpecParented { id: self.id, name: self.name@, children: self.children.deep_view() }
    }
}

impl<T: Copy, C: DeepView> DeepView for UsbIdWithChildren<T, C> {
    type V = SpecParented<T, C::V>;

    open spec fn deep_view(&self) -> SpecParented<T, C::V> {
        self.view()
    }
}

impl<T: Copy, C: DeepView> UsbIdWithChildren<T, C> {
    /// Builds the entry; parsing and conversion use this.
    pub fn make(id: T, name: String, children: Vec<C>) -> (r: Self)
        ensures
            r@ == (SpecParented { id, name: name@, children: children.deep_view() }),
    {
        UsbIdWithChildren { id, name, children }
    }

    /// Returns the type's ID.
    pub fn id(&self) -> (r: T)
        ensures
            r == self@.id,
    {
        self.id
    }

    /// Returns the type's name.
    pub fn name(&self) -> (r: &str)
        ensures
            r@ == self@.name,
    {
        self.name.as_str()
    }

    /// Returns the type's children.
    fn children(&self) -> (r: &Vec<C>)
        ensures
            r.deep_view() == self@.children,
    {
        &self.children
    }
}

/// Represents an interface to a USB device in the USB database.
///
/// Every interface has an interface ID (which is an index on the device)
/// and a pretty name.
///
/// **NOTE**: The USB database is not a canonical or authoritative source
/// of interface information for devices. Users who wish to discover
/// interfaces on their USB devices should query those devices directly.
#[derive(Debug, Clone, PartialEq, Eq)]
pub struct Interface {
    id: u8,
    name: String,
}

impl View for Interface {
    type V = SpecInterface;

    closed spec fn view(&self) -> SpecInterface {
        SpecInterface { id: self.id, name: self.name@ }
    }
}

impl DeepView for Interface {
    type V = SpecInterface;

    open spec fn deep_view(&self) -> SpecInterface {
        self.view()
    }
}

impl Interface {
    /// Builds the interface; parsing and conversion use this.
    pub fn make(id: u8, name: String) -> (r: Self)
        ensures
            r@ == (SpecInterface { id, name: name@ }),
    {
        Interface { id, name }
    }

    /// Returns the interface's ID.
    pub fn id(&self) -> (r: u8)
        ensures
            r == self@.id,
    {
        self.id
    }

    /// Returns the interface's name.
    pub fn name(&self) -> (r: &str)
        ensures
            r@ == self@.name,
    {
        self.name.as_str()
    }
}

/// Represents a single device in the USB database.
///
/// Every device has a corresponding vendor, a device ID, a pretty name,
/// and a list of associated [`Interface`]s.
#[derive(Debug, Clone, PartialEq, Eq)]
pub struct Device {
    vendor_id: u16,
    id: u16,
    name: String,
    interfaces: Vec<Interface>,
}

impl View for Device {
    type V = SpecDevice;

    closed spec fn view(&self) -> SpecDevice {
        SpecDevice {
            vendor_id: self.vendor_id,
            id: self.id,
            name: self.name@,
            interfaces: self.interfaces.deep_view(),
        }
    }
}

impl DeepView for Device {
    type V = SpecDevice;

    open spec fn deep_view(&self) -> SpecDevice {
        self.view()
    }
}

impl Device {
    /// Builds the device; parsing and conversion use this.
    pub fn make(vendor_id: u16, id: u16, name: String, interfaces: Vec<Interface>) -> (r: Self)
        ensures
            r@ == (SpecDevice { vendor_id, id, name: name@, interfaces: interfaces.deep_view() }),
    {
        Device { vendor_id, id, name, interfaces }
    }

    /// Returns a tuple of (vendor id, device/"product" id) for this device.
    ///
    /// This is convenient for interactions with other USB libraries.
    pub fn as_vid_pid(&self) -> (r: (u16, u16))
        ensures
            r.0 == self@.vendor_id,
            r.1 == self@.id,
    {
        (self.vendor_id, self.id)
    }

    /// Returns the device's ID.
    pub fn id(&self) -> (r: u16)
        ensures
            r == self@.id,
    {
        self.id
    }

    /// Returns the device's name.
    pub fn name(&self) -> (r: &str)
        ensures
            r@ == self@.name,
    {
        self.name.as_str()
    }

    /// Returns the device's [`Interface`]s, in file order.
    ///
    /// **NOTE**: The USB database does not include interface information for
    /// most devices. This list is not authoritative.
    pub fn interfaces(&self) -> (r: &Vec<Interface>)
        ensures
            r.deep_view() == self@.interfaces,
    {
        &self.interfaces
    }
}

/// Represents a USB device vendor in the USB database.
///
/// Every device vendor has a vendor ID, a pretty name, and a
/// list of associated [`Device`]s.
#[derive(Debug, Clone, PartialEq, Eq)]
pub struct Vendor {
    id: u16,
    name: String,
    devices: Vec<Device>,
}

impl View for Vendor {
    type V = SpecVendor;

    closed spec fn view(&self) -> SpecVendor {
        SpecVendor { id: self.id, name: self.name@, devices: self.devices.deep_view() }
    }
}

impl DeepView for Vendor {
    type V = SpecVendor;

    open spec fn deep_view(&self) -> SpecVendor {
        self.view()
    }
}

impl Vendor {
    /// Builds the vendor; parsing and conversion use this.
    pub fn make(id: u16, name: String, devices: Vec<Device>) -> (r: Self)
        ensures
            r@ == (SpecVendor { id, name: name@, devices: devices.deep_view() }),
    {
        Vendor { id, name, devices }
    }

    /// Returns the vendor's ID.
    pub fn id(&self) -> (r: u16)
        ensures
            r == self@.id,
    {
        self.id
    }

    /// Returns the vendor's name.
    pub fn name(&self) -> (r: &str)
        ensures
            r@ == self@.name,
    {
        self.name.as_str()
    }

    /// Returns the vendor's [`Device`]s, in file order.
    pub fn devices(&self) -> (r: &Vec<Device>)
        ensures
            r.deep_view() == self@.devices,
    {
        &self.devices
    }
}

/// Represents a class subclass in the USB database. Subclasses are part of
/// the USB class code triplet (base class, subclass, protocol).
///
/// Contained within a [`Class`] and may contain a list of associated
/// [`Protocol`]s.
#[derive(Debug, Clone, PartialEq, Eq)]
pub struct SubClass {
    class_id: u8,
    id: u8,
    name: String,
    protocols: Vec<Protocol>,
}

impl View for SubClass {
    type V = SpecSubClass;

    closed spec fn view(&self) -> SpecSubClass {
        SpecSubClass {
            class_id: self.class_id,
            id: self.id,
            name: self.name@,
            protocols: self.protocols.deep_view(),
        }
    }
}

impl DeepView for SubClass {
    type V = SpecSubClass;

    open spec fn deep_view(&self) -> SpecSubClass {
        self.view()
    }
}

impl SubClass {
    /// Builds the subclass; parsing and conversion use this.
    pub fn make(class_id: u8, id: u8, name: String, protocols: Vec<Protocol>) -> (r: Self)
        ensures
            r@ == (SpecSubClass { class_id, id, name: name@, protocols: protocols.deep_view() }),
    {
        SubClass { class_id, id, name, protocols }
    }

    /// Returns a tuple of (class id, subclass id) for this subclass.
    ///
    /// This is convenient for interactions with other USB libraries.
    pub fn as_cid_scid(&self) -> (r: (u8, u8))
        ensures
            r.0 == self@.class_id,
            r.1 == self@.id,
    {
        (self.class_id, self.id)
    }

    /// Returns the subclass' ID.
    pub fn id(&self) -> (r: u8)
        ensures
            r == self@.id,
    {
        self.id
    }

    /// Returns the subclass' name.
    pub fn name(&self) -> (r: &str)
        ensures
            r@ == self@.name,
    {
        self.name.as_str()
    }

    /// Returns the subclasses's [`Protocol`]s, in file order.
    ///
    /// **NOTE**: The USB database nor USB-IF includes protocol information
    /// for all subclassess. This list is not authoritative.
    pub fn protocols(&self) -> (r: &Vec<Protocol>)
        ensures
            r.deep_view() == self@.protocols,
    {
        &self.protocols
    }
}

/// Represents a USB device class in the USB database.
///
/// Every device class has a class ID, a pretty name, and a
/// list of associated [`SubClass`]s.
#[derive(Debug, Clone, PartialEq, Eq)]
pub struct Class {
    id: u8,
    name: String,
    sub_classes: Vec<SubClass>,
}

impl View for Class {
    type V = SpecClass;

    closed spec fn view(&self) -> SpecClass {
        SpecClass { id: self.id, name: self.name@, sub_classes: self.sub_classes.deep_view() }
    }
}

impl DeepView for Class {
    type V = SpecClass;

    open spec fn deep_view(&self) -> SpecClass {
        self.view()
    }
}

impl Class {
    /// Builds the class; parsing and conversion use this.
    pub fn make(id: u8, name: String, sub_classes: Vec<SubClass>) -> (r: Self)
        ensures
            r@ == (SpecClass { id, name: name@, sub_classes: sub_classes.deep_view() }),
    {
        Class { id, name, sub_classes }
    }

    /// Returns the class's ID.
    pub fn id(&self) -> (r: u8)
        ensures
            r == self@.id,
    {
        self.id
    }

    /// Returns the class's name.
    pub fn name(&self) -> (r: &str)
        ensures
            r@ == self@.name,
    {
        self.name.as_str()
    }

    /// Returns the class's [`SubClass`]s, in file order.
    pub fn sub_classes(&self) -> (r: &Vec<SubClass>)
        ensures
            r.deep_view() == self@.sub_classes,
    {
        &self.sub_classes
    }
}

/// Tags that keep the `UsbId` type aliases distinct types, so that each can
/// carry its own lookups. The values are arbitrary but must be unique.
pub const PROTOCOL_TAG: u8 = 0;

pub const AT_TAG: u8 = 1;

pub const HID_TAG: u8 = 2;

pub const HID_TYPE_TAG: u8 = 3;

pub const HID_USAGE_TAG: u8 = 4;

pub const BIAS_TAG: u8 = 5;

pub const PHY_TAG: u8 = 6;

pub const DIALECT_TAG: u8 = 7;

pub const HCC_TAG: u8 = 8;

pub const VT_TAG: u8 = 9;

/// Represents a subclass protocol in the USB database.
///
/// Protocols are part of the USB class code triplet (base class, subclass,
/// protocol), contained within a [`SubClass`].
pub type Protocol = UsbId<PROTOCOL_TAG, u8>;

/// Represents an audio terminal type in the USB database.
pub type AudioTerminal = UsbId<AT_TAG, u16>;

/// Represents a HID descriptor type in the USB database.
pub type Hid = UsbId<HID_TAG, u8>;

/// Represents a HID descriptor item type in the USB database.
pub type HidItemType = UsbId<HID_TYPE_TAG, u8>;

/// Represents a HID usage type in the USB database.
pub type HidUsage = UsbId<HID_USAGE_TAG, u16>;

/// Represents physical descriptor bias type in the USB database.
pub type Bias = UsbId<BIAS_TAG, u8>;

/// Represents physical descriptor item type in the USB database.
pub type Phy = UsbId<PHY_TAG, u8>;

/// Represents a language dialect in the USB database.
pub type Dialect = UsbId<DIALECT_TAG, u8>;

/// Represents a HID descriptor country code in the USB database.
pub type HidCountryCode = UsbId<HCC_TAG, u8>;

/// Represents a video class terminal type in the USB database.
pub type VideoTerminal = UsbId<VT_TAG, u16>;

/// Represents a HID usage page in the USB database.
///
/// Every HID usage page has a usage page ID, a pretty name, and a list of
/// associated [`HidUsage`]s.
pub type HidUsagePage = UsbIdWithChildren<u8, HidUsage>;

impl HidUsagePage {
    /// Returns the page's [`HidUsage`]s, in file order.
    pub fn usages(&self) -> (r: &Vec<HidUsage>)
        ensures
            r.deep_view() == self@.children,
    {
        self.children()
    }
}

/// Represents a language type in the USB database.
///
/// Languages have a language ID, a pretty name, and a list of associated
/// [`Dialect`]s.
pub type Language = UsbIdWithChildren<u16, Dialect>;

impl Language {
    /// Returns the language's [`Dialect`]s, in file order.
    pub fn dialects(&self) -> (r: &Vec<Dialect>)
        ensures
            r.deep_view() == self@.children,
    {
        self.children()
    }
}

} // verus!
