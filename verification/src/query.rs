//! The read-only query layer over a compiled database: point lookup by
//! numeric id, parent and child navigation, and composite-key lookups.
//!
//! Every lookup searches exactly one table, so numerically equal ids in
//! different sections never collide.

use vstd::prelude::*;

use crate::db::UsbDatabase;
use crate::records::{
    AudioTerminal, Bias, Class, Device, Dialect, Hid, HidCountryCode, HidItemType, HidUsage,
    HidUsagePage, Language, Phy, Protocol, SubClass, UsbId, Vendor, VideoTerminal,
};

verus! {

/// First match in a table of tagged one-byte entries.
fn find_id8<const ID: u8>(t: &Vec<UsbId<ID, u8>>, id: u8) -> (r: Option<&UsbId<ID, u8>>)
    ensures
        match r {
            Some(e) => e@.id == id && exists|i: int|
                0 <= i < t.deep_view().len() && t.deep_view()[i] == e@,
            None => forall|i: int| 0 <= i < t.deep_view().len() ==> (#[trigger] t.deep_view()[i]).id
                != id,
        },
{
    let mut j: usize = 0;
    while j < t.len()
        invariant
            j <= t@.len(),
            forall|i: int| 0 <= i < j ==> (#[trigger] t.deep_view()[i]).id != id,
        decreases t@.len() - j,
    {
        if t[j].id() == id {
            assert(t.deep_view()[j as int] == t@[j as int]@);
            return Some(&t[j]);
        }
        j += 1;
    }
    None
}

/// First match in a table of tagged two-byte entries.
fn find_id16<const ID: u8>(t: &Vec<UsbId<ID, u16>>, id: u16) -> (r: Option<&UsbId<ID, u16>>)
    ensures
        match r {
            Some(e) => e@.id == id && exists|i: int|
                0 <= i < t.deep_view().len() && t.deep_view()[i] == e@,
            None => forall|i: int| 0 <= i < t.deep_view().len() ==> (#[trigger] t.deep_view()[i]).id
                != id,
        },
{
    let mut j: usize = 0;
    while j < t.len()
        invariant
            j <= t@.len(),
            forall|i: int| 0 <= i < j ==> (#[trigger] t.deep_view()[i]).id != id,
        decreases t@.len() - j,
    {
        if t[j].id() == id {
            assert(t.deep_view()[j as int] == t@[j as int]@);
            return Some(&t[j]);
        }
        j += 1;
    }
    None
}

/// First vendor with this id.
fn find_vendor(t: &Vec<Vendor>, id: u16) -> (r: Option<&Vendor>)
    ensures
        match r {
            Some(v) => v@.id == id && exists|i: int|
                0 <= i < t.deep_view().len() && t.deep_view()[i] == v@,
            None => forall|i: int| 0 <= i < t.deep_view().len() ==> (#[trigger] t.deep_view()[i]).id
                != id,
        },
{
    let mut j: usize = 0;
    while j < t.len()
        invariant
            j <= t@.len(),
            forall|i: int| 0 <= i < j ==> (#[trigger] t.deep_view()[i]).id != id,
        decreases t@.len() - j,
    {
        if t[j].id() == id {
            assert(t.deep_view()[j as int] == t@[j as int]@);
            return Some(&t[j]);
        }
        j += 1;
    }
    None
}

/// First device with this id.
fn find_device(t: &Vec<Device>, id: u16) -> (r: Option<&Device>)
    ensures
        match r {
            Some(d) => d@.id == id && exists|i: int|
                0 <= i < t.deep_view().len() && t.deep_view()[i] == d@,
            None => forall|i: int| 0 <= i < t.deep_view().len() ==> (#[trigger] t.deep_view()[i]).id
                != id,
        },
{
    let mut j: usize = 0;
    while j < t.len()
        invariant
            j <= t@.len(),
            forall|i: int| 0 <= i < j ==> (#[trigger] t.deep_view()[i]).id != id,
        decreases t@.len() - j,
    {
        if t[j].id() == id {
            assert(t.deep_view()[j as int] == t@[j as int]@);
            return Some(&t[j]);
        }
        j += 1;
    }
    None
}

/// First class with this id.
fn find_class(t: &Vec<Class>, id: u8) -> (r: Option<&Class>)
    ensures
        match r {
            Some(c) => c@.id == id && exists|i: int|
                0 <= i < t.deep_view().len() && t.deep_view()[i] == c@,
            None => forall|i: int| 0 <= i < t.deep_view().len() ==> (#[trigger] t.deep_view()[i]).id
                != id,
        },
{
    let mut j: usize = 0;
    while j < t.len()
        invariant
            j <= t@.len(),
            forall|i: int| 0 <= i < j ==> (#[trigger] t.deep_view()[i]).id != id,
        decreases t@.len() - j,
    {
        if t[j].id() == id {
            assert(t.deep_view()[j as int] == t@[j as int]@);
            return Some(&t[j]);
        }
        j += 1;
    }
    None
}

/// First subclass with this id.
fn find_subclass(t: &Vec<SubClass>, id: u8) -> (r: Option<&SubClass>)
    ensures
        match r {
            Some(sc) => sc@.id == id && exists|i: int|
                0 <= i < t.deep_view().len() && t.deep_view()[i] == sc@,
            None => forall|i: int| 0 <= i < t.deep_view().len() ==> (#[trigger] t.deep_view()[i]).id
                != id,
        },
{
    let mut j: usize = 0;
    while j < t.len()
        invariant
            j <= t@.len(),
            forall|i: int| 0 <= i < j ==> (#[trigger] t.deep_view()[i]).id != id,
        decreases t@.len() - j,
    {
        if t[j].id() == id {
            assert(t.deep_view()[j as int] == t@[j as int]@);
            return Some(&t[j]);
        }
        j += 1;
    }
    None
}

/// First usage page with this id.
fn find_page(t: &Vec<HidUsagePage>, id: u8) -> (r: Option<&HidUsagePage>)
    ensures
        match r {
            Some(p) => p@.id == id && exists|i: int|
                0 <= i < t.deep_view().len() && t.deep_view()[i] == p@,
            None => forall|i: int| 0 <= i < t.deep_view().len() ==> (#[trigger] t.deep_view()[i]).id
                != id,
        },
{
    let mut j: usize = 0;
    while j < t.len()
        invariant
            j <= t@.len(),
            forall|i: int| 0 <= i < j ==> (#[trigger] t.deep_view()[i]).id != id,
        decreases t@.len() - j,
    {
        if t[j].id() == id {
            assert(t.deep_view()[j as int] == t@[j as int]@);
            return Some(&t[j]);
        }
        j += 1;
    }
    None
}

/// First language with this id.
fn find_lang(t: &Vec<Language>, id: u16) -> (r: Option<&Language>)
    ensures
        match r {
            Some(l) => l@.id == id && exists|i: int|
                0 <= i < t.deep_view().len() && t.deep_view()[i] == l@,
            None => forall|i: int| 0 <= i < t.deep_view().len() ==> (#[trigger] t.deep_view()[i]).id
                != id,
        },
{
    let mut j: usize = 0;
    while j < t.len()
        invariant
            j <= t@.len(),
            forall|i: int| 0 <= i < j ==> (#[trigger] t.deep_view()[i]).id != id,
        decreases t@.len() - j,
    {
        if t[j].id() == id {
            assert(t.deep_view()[j as int] == t@[j as int]@);
            return Some(&t[j]);
        }
        j += 1;
    }
    None
}

/// An abstraction for iterating over all vendors in the USB database.
pub struct Vendors;

impl Vendors {
    /// Returns all vendors in the USB database, in file order.
    pub fn iter<'a>(db: &'a UsbDatabase) -> (r: &'a Vec<Vendor>)
        ensures
            r.deep_view() == db@.vendors,
    {
        db.vendors()
    }
}

/// An abstraction for iterating over all classes in the USB database.
pub struct Classes;

impl Classes {
    /// Returns all classes in the USB database, in file order.
    pub fn iter<'a>(db: &'a UsbDatabase) -> (r: &'a Vec<Class>)
        ensures
            r.deep_view() == db@.classes,
    {
        db.classes()
    }
}

/// An abstraction for iterating over all languages in the USB database.
pub struct Languages;

impl Languages {
    /// Returns all languages in the USB database, in file order.
    pub fn iter<'a>(db: &'a UsbDatabase) -> (r: &'a Vec<Language>)
        ensures
            r.deep_view() == db@.languages,
    {
        db.languages()
    }
}

/// An abstraction for iterating over all HID usage pages in the USB
/// database.
pub struct HidUsagePages;

impl HidUsagePages {
    /// Returns all HID usage pages in the USB database, in file order.
    pub fn iter<'a>(db: &'a UsbDatabase) -> (r: &'a Vec<HidUsagePage>)
        ensures
            r.deep_view() == db@.hid_usage_pages,
    {
        db.hid_usage_pages()
    }
}

/// A convenience trait for retrieving a top-level entity (like a [`Vendor`])
/// from the USB database by its unique ID.
pub trait FromId<T>: Sized {
    /// Returns the entity corresponding to `id`, or `None` if none exists.
    fn from_id<'a>(db: &'a UsbDatabase, id: T) -> Option<&'a Self>;
}

impl FromId<u16> for Vendor {
    fn from_id<'a>(db: &'a UsbDatabase, id: u16) -> (r: Option<&'a Vendor>)
        ensures
            match r {
                Some(v) => v@.id == id && exists|i: int|
                    0 <= i < db@.vendors.len() && db@.vendors[i] == v@,
                None => forall|i: int| 0 <= i < db@.vendors.len() ==> (
                #[trigger] db@.vendors[i]).id != id,
            },
    {
        find_vendor(db.vendors(), id)
    }
}

impl FromId<u8> for Class {
    fn from_id<'a>(db: &'a UsbDatabase, id: u8) -> (r: Option<&'a Class>)
        ensures
            match r {
                Some(c) => c@.id == id && exists|i: int|
                    0 <= i < db@.classes.len() && db@.classes[i] == c@,
                None => forall|i: int| 0 <= i < db@.classes.len() ==> (
                #[trigger] db@.classes[i]).id != id,
            },
    {
        find_class(db.classes(), id)
    }
}

impl FromId<u16> for AudioTerminal {
    fn from_id<'a>(db: &'a UsbDatabase, id: u16) -> (r: Option<&'a AudioTerminal>)
        ensures
            match r {
                Some(e) => e@.id == id && exists|i: int|
                    0 <= i < db@.audio_terminals.len() && db@.audio_terminals[i] == e@,
                None => forall|i: int| 0 <= i < db@.audio_terminals.len() ==> (
                #[trigger] db@.audio_terminals[i]).id != id,
            },
    {
        find_id16(db.audio_terminals(), id)
    }
}

impl FromId<u8> for Hid {
    fn from_id<'a>(db: &'a UsbDatabase, id: u8) -> (r: Option<&'a Hid>)
        ensures
            match r {
                Some(e) => e@.id == id && exists|i: int|
                    0 <= i < db@.hids.len() && db@.hids[i] == e@,
                None => forall|i: int| 0 <= i < db@.hids.len() ==> (#[trigger] db@.hids[i]).id
                    != id,
            },
    {
        find_id8(db.hids(), id)
    }
}

impl FromId<u8> for HidItemType {
    fn from_id<'a>(db: &'a UsbDatabase, id: u8) -> (r: Option<&'a HidItemType>)
        ensures
            match r {
                Some(e) => e@.id == id && exists|i: int|
                    0 <= i < db@.hid_item_types.len() && db@.hid_item_types[i] == e@,
                None => forall|i: int| 0 <= i < db@.hid_item_types.len() ==> (
                #[trigger] db@.hid_item_types[i]).id != id,
            },
    {
        find_id8(db.hid_item_types(), id)
    }
}

impl FromId<u8> for HidUsagePage {
    fn from_id<'a>(db: &'a UsbDatabase, id: u8) -> (r: Option<&'a HidUsagePage>)
        ensures
            match r {
                Some(p) => p@.id == id && exists|i: int|
                    0 <= i < db@.hid_usage_pages.len() && db@.hid_usage_pages[i] == p@,
                None => forall|i: int| 0 <= i < db@.hid_usage_pages.len() ==> (
                #[trigger] db@.hid_usage_pages[i]).id != id,
            },
    {
        find_page(db.hid_usage_pages(), id)
    }
}

impl FromId<u8> for Bias {
    fn from_id<'a>(db: &'a UsbDatabase, id: u8) -> (r: Option<&'a Bias>)
        ensures
            match r {
                Some(e) => e@.id == id && exists|i: int|
                    0 <= i < db@.biases.len() && db@.biases[i] == e@,
                None => forall|i: int| 0 <= i < db@.biases.len() ==> (#[trigger] db@.biases[i]).id
                    != id,
            },
    {
        find_id8(db.biases(), id)
    }
}

impl FromId<u8> for Phy {
    fn from_id<'a>(db: &'a UsbDatabase, id: u8) -> (r: Option<&'a Phy>)
        ensures
            match r {
                Some(e) => e@.id == id && exists|i: int|
                    0 <= i < db@.phys.len() && db@.phys[i] == e@,
                None => forall|i: int| 0 <= i < db@.phys.len() ==> (#[trigger] db@.phys[i]).id
                    != id,
            },
    {
        find_id8(db.phys(), id)
    }
}

impl FromId<u16> for Language {
    fn from_id<'a>(db: &'a UsbDatabase, id: u16) -> (r: Option<&'a Language>)
        ensures
            match r {
                Some(l) => l@.id == id && exists|i: int|
                    0 <= i < db@.languages.len() && db@.languages[i] == l@,
                None => forall|i: int| 0 <= i < db@.languages.len() ==> (
                #[trigger] db@.languages[i]).id != id,
            },
    {
        find_lang(db.languages(), id)
    }
}

impl FromId<u8> for HidCountryCode {
    fn from_id<'a>(db: &'a UsbDatabase, id: u8) -> (r: Option<&'a HidCountryCode>)
        ensures
            match r {
                Some(e) => e@.id == id && exists|i: int|
                    0 <= i < db@.hid_country_codes.len() && db@.hid_country_codes[i] == e@,
                None => forall|i: int| 0 <= i < db@.hid_country_codes.len() ==> (
                #[trigger] db@.hid_country_codes[i]).id != id,
            },
    {
        find_id8(db.hid_country_codes(), id)
    }
}

impl FromId<u16> for VideoTerminal {
    fn from_id<'a>(db: &'a UsbDatabase, id: u16) -> (r: Option<&'a VideoTerminal>)
        ensures
            match r {
                Some(e) => e@.id == id && exists|i: int|
                    0 <= i < db@.video_terminals.len() && db@.video_terminals[i] == e@,
                None => forall|i: int| 0 <= i < db@.video_terminals.len() ==> (
                #[trigger] db@.video_terminals[i]).id != id,
            },
    {
        find_id16(db.video_terminals(), id)
    }
}

impl Device {
    /// Returns the [`Device`] corresponding to the given vendor and product
    /// IDs, or `None` if no such device exists in the DB.
    pub fn from_vid_pid<'a>(db: &'a UsbDatabase, vid: u16, pid: u16) -> (r: Option<&'a Device>)
        ensures
            match r {
                Some(d) => d@.id == pid && d@.vendor_id == vid && exists|i: int, j: int|
                    0 <= i < db@.vendors.len() && db@.vendors[i].id == vid && 0 <= j
                        < db@.vendors[i].devices.len() && #[trigger] db@.vendors[i].devices[j]
                        == d@,
                None => forall|i: int, j: int|
                    0 <= i < db@.vendors.len() && (#[trigger] db@.vendors[i]).id == vid && 0 <= j
                        < db@.vendors[i].devices.len() ==> (
                    #[trigger] db@.vendors[i].devices[j]).id != pid,
            },
    {
        proof {
            use_type_invariant(db);
        }
        match Vendor::from_id(db, vid) {
            None => None,
            Some(v) => {
                let ghost iv = choose|i: int|
                    0 <= i < db@.vendors.len() && db@.vendors[i] == v@;
                let r = find_device(v.devices(), pid);
                proof {
                    match r {
                        None => {
                            assert forall|i: int, j: int|
                                0 <= i < db@.vendors.len() && (#[trigger] db@.vendors[i]).id == vid
                                    && 0 <= j < db@.vendors[i].devices.len() implies (
                            #[trigger] db@.vendors[i].devices[j]).id != pid by {
                                assert(db@.vendors[i].id == db@.vendors[iv].id);
                                assert(i == iv);
                            }
                        },
                        Some(d) => {
                            let jd = choose|j: int|
                                0 <= j < v@.devices.len() && v@.devices[j] == d@;
                            assert(crate::db::vendor_wf(db@.vendors[iv]));
                            assert(db@.vendors[iv].devices[jd] == d@);
                        },
                    }
                }
                r
            },
        }
    }

    /// Returns the [`Vendor`] that this device belongs to.
    pub fn vendor<'a>(&self, db: &'a UsbDatabase) -> (r: &'a Vendor)
        requires
            exists|i: int| 0 <= i < db@.vendors.len() && (#[trigger] db@.vendors[i]).id
                == self@.vendor_id,
        ensures
            r@.id == self@.vendor_id,
            exists|i: int| 0 <= i < db@.vendors.len() && db@.vendors[i] == r@,
    {
        let (vid, _) = self.as_vid_pid();
        let r = find_vendor(db.vendors(), vid);
        proof {
            assert(r is Some);
        }
        r.unwrap()
    }
}

impl SubClass {
    /// Returns the [`SubClass`] corresponding to the given class and subclass
    /// IDs, or `None` if no such subclass exists in the DB.
    pub fn from_cid_scid<'a>(db: &'a UsbDatabase, class_id: u8, id: u8) -> (r: Option<
        &'a SubClass,
    >)
        ensures
            match r {
                Some(sc) => sc@.id == id && sc@.class_id == class_id && exists|i: int, j: int|
                    0 <= i < db@.classes.len() && db@.classes[i].id == class_id && 0 <= j
                        < db@.classes[i].sub_classes.len()
                        && #[trigger] db@.classes[i].sub_classes[j] == sc@,
                None => forall|i: int, j: int|
                    0 <= i < db@.classes.len() && (#[trigger] db@.classes[i]).id == class_id && 0
                        <= j < db@.classes[i].sub_classes.len() ==> (
                    #[trigger] db@.classes[i].sub_classes[j]).id != id,
            },
    {
        proof {
            use_type_invariant(db);
        }
        match Class::from_id(db, class_id) {
            None => None,
            Some(c) => {
                let ghost ic = choose|i: int|
                    0 <= i < db@.classes.len() && db@.classes[i] == c@;
                let r = find_subclass(c.sub_classes(), id);
                proof {
                    match r {
                        None => {
                            assert forall|i: int, j: int|
                                0 <= i < db@.classes.len() && (#[trigger] db@.classes[i]).id
                                    == class_id && 0 <= j < db@.classes[i].sub_classes.len() implies (
                            #[trigger] db@.classes[i].sub_classes[j]).id != id by {
                                assert(db@.classes[i].id == db@.classes[ic].id);
                                assert(i == ic);
                            }
                        },
                        Some(sc) => {
                            let js = choose|j: int|
                                0 <= j < c@.sub_classes.len() && c@.sub_classes[j] == sc@;
                            assert(crate::db::class_wf(db@.classes[ic]));
                            assert(db@.classes[ic].sub_classes[js] == sc@);
                        },
                    }
                }
                r
            },
        }
    }

    /// Returns the [`Class`] that this subclass belongs to.
    pub fn class<'a>(&self, db: &'a UsbDatabase) -> (r: &'a Class)
        requires
            exists|i: int| 0 <= i < db@.classes.len() && (#[trigger] db@.classes[i]).id
                == self@.class_id,
        ensures
            r@.id == self@.class_id,
            exists|i: int| 0 <= i < db@.classes.len() && db@.classes[i] == r@,
    {
        let (cid, _) = self.as_cid_scid();
        let r = find_class(db.classes(), cid);
        proof {
            assert(r is Some);
        }
        r.unwrap()
    }
}

impl Protocol {
    /// Returns the [`Protocol`] corresponding to the given class, subclass,
    /// and protocol IDs, or `None` if no such protocol exists in the DB.
    pub fn from_cid_scid_pid<'a>(db: &'a UsbDatabase, class_id: u8, subclass_id: u8, id: u8) -> (r:
        Option<&'a Protocol>)
        ensures
            match r {
                Some(p) => p@.id == id && exists|i: int, j: int, k: int|
                    0 <= i < db@.classes.len() && db@.classes[i].id == class_id && 0 <= j
                        < db@.classes[i].sub_classes.len() && db@.classes[i].sub_classes[j].id
                        == subclass_id && 0 <= k < db@.classes[i].sub_classes[j].protocols.len()
                        && #[trigger] db@.classes[i].sub_classes[j].protocols[k] == p@,
                None => forall|i: int, j: int, k: int|
                    0 <= i < db@.classes.len() && (#[trigger] db@.classes[i]).id == class_id && 0
                        <= j < db@.classes[i].sub_classes.len() && (
                    #[trigger] db@.classes[i].sub_classes[j]).id == subclass_id && 0 <= k
                        < db@.classes[i].sub_classes[j].protocols.len() ==> (
                    #[trigger] db@.classes[i].sub_classes[j].protocols[k]).id != id,
            },
    {
        proof {
            use_type_invariant(db);
        }
        match SubClass::from_cid_scid(db, class_id, subclass_id) {
            None => None,
            Some(sc) => {
                let ghost (ic, jc) = choose|i: int, j: int|
                    0 <= i < db@.classes.len() && db@.classes[i].id == class_id && 0 <= j
                        < db@.classes[i].sub_classes.len()
                        && #[trigger] db@.classes[i].sub_classes[j] == sc@;
                let r = find_id8(sc.protocols(), id);
                proof {
                    assert(crate::db::class_wf(db@.classes[ic]));
                    match r {
                        None => {
                            assert forall|i: int, j: int, k: int|
                                0 <= i < db@.classes.len() && (#[trigger] db@.classes[i]).id
                                    == class_id && 0 <= j < db@.classes[i].sub_classes.len() && (
                            #[trigger] db@.classes[i].sub_classes[j]).id == subclass_id && 0 <= k
                                    < db@.classes[i].sub_classes[j].protocols.len() implies (
                            #[trigger] db@.classes[i].sub_classes[j].protocols[k]).id != id by {
                                assert(db@.classes[i].id == db@.classes[ic].id);
                                assert(i == ic);
                                assert(db@.classes[i].sub_classes[j].id
                                    == db@.classes[ic].sub_classes[jc].id);
                                assert(j == jc);
                            }
                        },
                        Some(p) => {
                            let kp = choose|k: int|
                                0 <= k < sc@.protocols.len() && sc@.protocols[k] == p@;
                            assert(db@.classes[ic].sub_classes[jc].protocols[kp] == p@);
                        },
                    }
                }
                r
            },
        }
    }
}

impl HidUsage {
    /// Returns the [`HidUsage`] corresponding to the given usage page and
    /// usage ID, or `None` if no such usage exists in the DB.
    pub fn from_pageid_uid<'a>(db: &'a UsbDatabase, page_id: u8, id: u16) -> (r: Option<
        &'a HidUsage,
    >)
        ensures
            match r {
                Some(u) => u@.id == id && exists|i: int, j: int|
                    0 <= i < db@.hid_usage_pages.len() && db@.hid_usage_pages[i].id == page_id && 0
                        <= j < db@.hid_usage_pages[i].children.len()
                        && #[trigger] db@.hid_usage_pages[i].children[j] == u@,
                None => forall|i: int, j: int|
                    0 <= i < db@.hid_usage_pages.len() && (#[trigger] db@.hid_usage_pages[i]).id
                        == page_id && 0 <= j < db@.hid_usage_pages[i].children.len() ==> (
                    #[trigger] db@.hid_usage_pages[i].children[j]).id != id,
            },
    {
        proof {
            use_type_invariant(db);
        }
        match HidUsagePage::from_id(db, page_id) {
            None => None,
            Some(p) => {
                let ghost ip = choose|i: int|
                    0 <= i < db@.hid_usage_pages.len() && db@.hid_usage_pages[i] == p@;
                let r = find_id16(p.usages(), id);
                proof {
                    match r {
                        None => {
                            assert forall|i: int, j: int|
                                0 <= i < db@.hid_usage_pages.len() && (
                            #[trigger] db@.hid_usage_pages[i]).id == page_id && 0 <= j
                                    < db@.hid_usage_pages[i].children.len() implies (
                            #[trigger] db@.hid_usage_pages[i].children[j]).id != id by {
                                assert(db@.hid_usage_pages[i].id == db@.hid_usage_pages[ip].id);
                                assert(i == ip);
                            }
                        },
                        Some(u) => {
                            let ju = choose|j: int|
                                0 <= j < p@.children.len() && p@.children[j] == u@;
                            assert(db@.hid_usage_pages[ip].children[ju] == u@);
                        },
                    }
                }
                r
            },
        }
    }
}

impl Dialect {
    /// Returns the [`Dialect`] corresponding to the given language and
    /// dialect IDs, or `None` if no such dialect exists in the DB.
    pub fn from_lid_did<'a>(db: &'a UsbDatabase, language_id: u16, id: u8) -> (r: Option<
        &'a Dialect,
    >)
        ensures
            match r {
                Some(d) => d@.id == id && exists|i: int, j: int|
                    0 <= i < db@.languages.len() && db@.languages[i].id == language_id && 0 <= j
                        < db@.languages[i].children.len()
                        && #[trigger] db@.languages[i].children[j] == d@,
                None => forall|i: int, j: int|
                    0 <= i < db@.languages.len() && (#[trigger] db@.languages[i]).id == language_id
                        && 0 <= j < db@.languages[i].children.len() ==> (
                    #[trigger] db@.languages[i].children[j]).id != id,
            },
    {
        proof {
            use_type_invariant(db);
        }
        match Language::from_id(db, language_id) {
            None => None,
            Some(l) => {
                let ghost il = choose|i: int|
                    0 <= i < db@.languages.len() && db@.languages[i] == l@;
                let r = find_id8(l.dialects(), id);
                proof {
                    match r {
                        None => {
                            assert forall|i: int, j: int|
                                0 <= i < db@.languages.len() && (#[trigger] db@.languages[i]).id
                                    == language_id && 0 <= j < db@.languages[i].children.len() implies (
                            #[trigger] db@.languages[i].children[j]).id != id by {
                                assert(db@.languages[i].id == db@.languages[il].id);
                                assert(i == il);
                            }
                        },
                        Some(d) => {
                            let jd = choose|j: int|
                                0 <= j < l@.children.len() && l@.children[j] == d@;
                            assert(db@.languages[il].children[jd] == d@);
                        },
                    }
                }
                r
            },
        }
    }
}

} // verus!
