//! The compiled database: eleven immutable tables, and the one-shot compile
//! from the text file into them.
//!
//! `parse_database` is the whole batch transform: it either yields every
//! table, fully linked, or aborts with the offending line, its number and
//! its section. There is no partial output.

use vstd::prelude::*;

use crate::grammar::{kind_of_index, pow16, SectionKind};
use crate::machine::{Builder, RawChild, RawLeaf, RawRecord};
use crate::model::{
    spec_flush, spec_init, spec_parse, spec_run, spec_step, table_wf, ErrorKind, SpecChild,
    SpecLeaf, SpecMachine, SpecRecord,
};
use crate::records::{
    AudioTerminal, Bias, Class, Device, Dialect, Hid, HidCountryCode, HidItemType, HidUsage,
    HidUsagePage, Interface, Language, Phy, Protocol, SpecClass, SpecDevice, SpecInterface,
    SpecParented, SpecSubClass, SpecUsbId, SpecVendor, SubClass, UsbId, Vendor, VideoTerminal,
};

verus! {

/// Mathematical model of the whole database.
#[verifier::ext_equal]
pub ghost struct SpecDb {
    pub vendors: Seq<SpecVendor>,
    pub classes: Seq<SpecClass>,
    pub audio_terminals: Seq<SpecUsbId<u16>>,
    pub hids: Seq<SpecUsbId<u8>>,
    pub hid_item_types: Seq<SpecUsbId<u8>>,
    pub biases: Seq<SpecUsbId<u8>>,
    pub phys: Seq<SpecUsbId<u8>>,
    pub hid_usage_pages: Seq<SpecParented<u8, SpecUsbId<u16>>>,
    pub languages: Seq<SpecParented<u16, SpecUsbId<u8>>>,
    pub hid_country_codes: Seq<SpecUsbId<u8>>,
    pub video_terminals: Seq<SpecUsbId<u16>>,
}

/// How a raw depth-2 record becomes an interface.
pub open spec fn spec_interface_of(l: SpecLeaf) -> SpecInterface {
    SpecInterface { id: l.id as u8, name: l.name }
}

/// How a raw depth-1 record becomes a device of the vendor `vid`; the
/// back-reference is filled in from the owning record here.
pub open spec fn spec_device_of(vid: u16, c: SpecChild) -> SpecDevice {
    SpecDevice {
        vendor_id: vid,
        id: c.id as u16,
        name: c.name,
        interfaces: Seq::new(c.leaves.len(), |i: int| spec_interface_of(c.leaves[i])),
    }
}

/// How a raw top-level record becomes a vendor.
pub open spec fn spec_vendor_of(r: SpecRecord) -> SpecVendor {
    SpecVendor {
        id: r.id as u16,
        name: r.name,
        devices: Seq::new(r.children.len(), |i: int| spec_device_of(r.id as u16, r.children[i])),
    }
}

/// How a raw depth-2 record becomes a protocol.
pub open spec fn spec_protocol_of(l: SpecLeaf) -> SpecUsbId<u8> {
    SpecUsbId { id: l.id as u8, name: l.name }
}

/// How a raw depth-1 record becomes a subclass of the class `cid`.
pub open spec fn spec_subclass_of(cid: u8, c: SpecChild) -> SpecSubClass {
    SpecSubClass {
        class_id: cid,
        id: c.id as u8,
        name: c.name,
        protocols: Seq::new(c.leaves.len(), |i: int| spec_protocol_of(c.leaves[i])),
    }
}

/// How a raw top-level record becomes a class.
pub open spec fn spec_class_of(r: SpecRecord) -> SpecClass {
    SpecClass {
        id: r.id as u8,
        name: r.name,
        sub_classes: Seq::new(
            r.children.len(),
            |i: int| spec_subclass_of(r.id as u8, r.children[i]),
        ),
    }
}

/// How a raw top-level record becomes a flat entry with a one-byte id.
pub open spec fn spec_id8_of(r: SpecRecord) -> SpecUsbId<u8> {
    SpecUsbId { id: r.id as u8, name: r.name }
}

/// How a raw top-level record becomes a flat entry with a two-byte id.
pub open spec fn spec_id16_of(r: SpecRecord) -> SpecUsbId<u16> {
    SpecUsbId { id: r.id as u16, name: r.name }
}

/// How a raw depth-1 record becomes a HID usage.
pub open spec fn spec_usage_of(c: SpecChild) -> SpecUsbId<u16> {
    SpecUsbId { id: c.id as u16, name: c.name }
}

/// How a raw top-level record becomes a HID usage page.
pub open spec fn spec_page_of(r: SpecRecord) -> SpecParented<u8, SpecUsbId<u16>> {
    SpecParented {
        id: r.id as u8,
        name: r.name,
        children: Seq::new(r.children.len(), |i: int| spec_usage_of(r.children[i])),
    }
}

/// How a raw depth-1 record becomes a dialect.
pub open spec fn spec_dialect_of(c: SpecChild) -> SpecUsbId<u8> {
    SpecUsbId { id: c.id as u8, name: c.name }
}

/// How a raw top-level record becomes a language.
pub open spec fn spec_lang_of(r: SpecRecord) -> SpecParented<u16, SpecUsbId<u8>> {
    SpecParented {
        id: r.id as u16,
        name: r.name,
        children: Seq::new(r.children.len(), |i: int| spec_dialect_of(r.children[i])),
    }
}

/// The typed reading of the reference machine's eleven finished tables.
pub open spec fn spec_db_of(ts: Seq<Seq<SpecRecord>>) -> SpecDb {
    SpecDb {
        vendors: Seq::new(ts[0].len(), |i: int| spec_vendor_of(ts[0][i])),
        classes: Seq::new(ts[1].len(), |i: int| spec_class_of(ts[1][i])),
        audio_terminals: Seq::new(ts[2].len(), |i: int| spec_id16_of(ts[2][i])),
        hids: Seq::new(ts[3].len(), |i: int| spec_id8_of(ts[3][i])),
        hid_item_types: Seq::new(ts[4].len(), |i: int| spec_id8_of(ts[4][i])),
        biases: Seq::new(ts[5].len(), |i: int| spec_id8_of(ts[5][i])),
        phys: Seq::new(ts[6].len(), |i: int| spec_id8_of(ts[6][i])),
        hid_usage_pages: Seq::new(ts[7].len(), |i: int| spec_page_of(ts[7][i])),
        languages: Seq::new(ts[8].len(), |i: int| spec_lang_of(ts[8][i])),
        hid_country_codes: Seq::new(ts[9].len(), |i: int| spec_id8_of(ts[9][i])),
        video_terminals: Seq::new(ts[10].len(), |i: int| spec_id16_of(ts[10][i])),
    }
}

/// The database invariant: within every table the id is unique, every
/// owned child list has unique ids, and every back-reference names its
/// owner.
pub open spec fn db_wf(d: SpecDb) -> bool {
    &&& forall|i: int, j: int|
        0 <= i < j < d.vendors.len() ==> d.vendors[i].id != d.vendors[j].id
    &&& forall|i: int| 0 <= i < d.vendors.len() ==> vendor_wf(#[trigger] d.vendors[i])
    &&& forall|i: int, j: int|
        0 <= i < j < d.classes.len() ==> d.classes[i].id != d.classes[j].id
    &&& forall|i: int| 0 <= i < d.classes.len() ==> class_wf(#[trigger] d.classes[i])
    &&& forall|i: int, j: int|
        0 <= i < j < d.audio_terminals.len() ==> d.audio_terminals[i].id != d.audio_terminals[j].id
    &&& forall|i: int, j: int| 0 <= i < j < d.hids.len() ==> d.hids[i].id != d.hids[j].id
    &&& forall|i: int, j: int|
        0 <= i < j < d.hid_item_types.len() ==> d.hid_item_types[i].id != d.hid_item_types[j].id
    &&& forall|i: int, j: int| 0 <= i < j < d.biases.len() ==> d.biases[i].id != d.biases[j].id
    &&& forall|i: int, j: int| 0 <= i < j < d.phys.len() ==> d.phys[i].id != d.phys[j].id
    &&& forall|i: int, j: int|
        0 <= i < j < d.hid_usage_pages.len() ==> d.hid_usage_pages[i].id != d.hid_usage_pages[j].id
    &&& forall|i: int|
        0 <= i < d.hid_usage_pages.len() ==> parented_wf(#[trigger] d.hid_usage_pages[i])
    &&& forall|i: int, j: int|
        0 <= i < j < d.languages.len() ==> d.languages[i].id != d.languages[j].id
    &&& forall|i: int| 0 <= i < d.languages.len() ==> lang_wf(#[trigger] d.languages[i])
    &&& forall|i: int, j: int|
        0 <= i < j < d.hid_country_codes.len() ==> d.hid_country_codes[i].id
            != d.hid_country_codes[j].id
    &&& forall|i: int, j: int|
        0 <= i < j < d.video_terminals.len() ==> d.video_terminals[i].id != d.video_terminals[j].id
}

/// A vendor owns devices with unique ids, all pointing back at it, each with
/// unique interface ids.
pub open spec fn vendor_wf(v: SpecVendor) -> bool {
    &&& forall|i: int| 0 <= i < v.devices.len() ==> (#[trigger] v.devices[i]).vendor_id == v.id
    &&& forall|i: int, j: int| 0 <= i < j < v.devices.len() ==> v.devices[i].id != v.devices[j].id
    &&& forall|i: int, a: int, b: int|
        0 <= i < v.devices.len() && 0 <= a < b < v.devices[i].interfaces.len() ==> (
        #[trigger] v.devices[i].interfaces[a]).id != (#[trigger] v.devices[i].interfaces[b]).id
}

/// A class owns subclasses with unique ids, all pointing back at it, each
/// with unique protocol ids.
pub open spec fn class_wf(c: SpecClass) -> bool {
    &&& forall|i: int|
        0 <= i < c.sub_classes.len() ==> (#[trigger] c.sub_classes[i]).class_id == c.id
    &&& forall|i: int, j: int|
        0 <= i < j < c.sub_classes.len() ==> c.sub_classes[i].id != c.sub_classes[j].id
    &&& forall|i: int, a: int, b: int|
        0 <= i < c.sub_classes.len() && 0 <= a < b < c.sub_classes[i].protocols.len() ==> (
        #[trigger] c.sub_classes[i].protocols[a]).id != (
        #[trigger] c.sub_classes[i].protocols[b]).id
}

/// A usage page owns usages with unique ids.
pub open spec fn parented_wf(p: SpecParented<u8, SpecUsbId<u16>>) -> bool {
    forall|i: int, j: int| 0 <= i < j < p.children.len() ==> p.children[i].id != p.children[j].id
}

/// A language owns dialects with unique ids.
pub open spec fn lang_wf(p: SpecParented<u16, SpecUsbId<u8>>) -> bool {
    forall|i: int, j: int| 0 <= i < j < p.children.len() ==> p.children[i].id != p.children[j].id
}

fn interfaces_of_raw(ls: Vec<RawLeaf>) -> (v: Vec<Interface>)
    requires
        forall|i: int| 0 <= i < ls.deep_view().len() ==> 0 <= (#[trigger] ls.deep_view()[i]).id
            < 256,
    ensures
        v.deep_view() == Seq::new(
            ls.deep_view().len(),
            |i: int| spec_interface_of(ls.deep_view()[i]),
        ),
{
    let ghost origv = ls@;
    let ghost orig = ls.deep_view();
    let mut ls = ls;
    let mut v: Vec<Interface> = Vec::new();
    while ls.len() > 0
        invariant
            orig.len() == origv.len(),
            forall|i: int| 0 <= i < origv.len() ==> #[trigger] orig[i] == origv[i]@,
            v@.len() + ls@.len() == origv.len(),
            ls@ =~= origv.subrange(v@.len() as int, origv.len() as int),
            forall|i: int| 0 <= i < v@.len() ==> (#[trigger] v@[i])@ == spec_interface_of(orig[i]),
            forall|i: int| 0 <= i < orig.len() ==> 0 <= (#[trigger] orig[i]).id < 256,
        decreases ls@.len(),
    {
        let ghost k = v@.len() as int;
        let ghost prevv = ls@;
        let l = ls.remove(0);
        proof {
            prevv.remove_ensures(0);
            assert(l == origv[k]);
            assert(ls@ =~= origv.subrange(k + 1, origv.len() as int));
        }
        let iface = Interface::make(l.id as u8, l.name);
        v.push(iface);
    }
    proof {
        assert(v.deep_view() =~= Seq::new(orig.len(), |i: int| spec_interface_of(orig[i])));
    }
    v
}

fn devices_of_raw(vid: u16, cs: Vec<RawChild>) -> (v: Vec<Device>)
    requires
        forall|i: int, j: int|
            0 <= i < cs.deep_view().len() && 0 <= j < (#[trigger] cs.deep_view()[i]).leaves.len()
                ==> 0 <= (#[trigger] cs.deep_view()[i].leaves[j]).id < 256,
    ensures
        v.deep_view() == Seq::new(
            cs.deep_view().len(),
            |i: int| spec_device_of(vid, cs.deep_view()[i]),
        ),
{
    let ghost origv = cs@;
    let ghost orig = cs.deep_view();
    let mut cs = cs;
    let mut v: Vec<Device> = Vec::new();
    while cs.len() > 0
        invariant
            orig.len() == origv.len(),
            forall|i: int| 0 <= i < origv.len() ==> #[trigger] orig[i] == origv[i]@,
            v@.len() + cs@.len() == origv.len(),
            cs@ =~= origv.subrange(v@.len() as int, origv.len() as int),
            forall|i: int| 0 <= i < v@.len() ==> (#[trigger] v@[i])@ == spec_device_of(vid, orig[i]),
            forall|i: int, j: int|
                0 <= i < orig.len() && 0 <= j < (#[trigger] orig[i]).leaves.len() ==> 0 <= (
                #[trigger] orig[i].leaves[j]).id < 256,
        decreases cs@.len(),
    {
        let ghost k = v@.len() as int;
        let ghost prevv = cs@;
        let c = cs.remove(0);
        proof {
            prevv.remove_ensures(0);
            assert(c == origv[k]);
            assert(cs@ =~= origv.subrange(k + 1, origv.len() as int));
            assert(c.leaves.deep_view() == orig[k].leaves);
            assert forall|j: int| 0 <= j < c.leaves.deep_view().len() implies 0 <= (
            #[trigger] c.leaves.deep_view()[j]).id < 256 by {
                assert(orig[k].leaves[j].id == c.leaves.deep_view()[j].id);
            }
        }
        let interfaces = interfaces_of_raw(c.leaves);
        let o = Device::make(vid, c.id, c.name, interfaces);
        proof {
            assert(o@ =~~= spec_device_of(vid, orig[k]));
        }
        v.push(o);
    }
    proof {
        assert(v.deep_view() =~= Seq::new(orig.len(), |i: int| spec_device_of(vid, orig[i])));
    }
    v
}

fn vendors_of_raw(t: Vec<RawRecord>) -> (v: Vec<Vendor>)
    requires
        table_wf(t.deep_view(), SectionKind::Vendors),
    ensures
        v.deep_view() == Seq::new(t.deep_view().len(), |i: int| spec_vendor_of(t.deep_view()[i])),
{
    let ghost origv = t@;
    let ghost orig = t.deep_view();
    let mut t = t;
    let mut v: Vec<Vendor> = Vec::new();
    while t.len() > 0
        invariant
            orig.len() == origv.len(),
            forall|i: int| 0 <= i < origv.len() ==> #[trigger] orig[i] == origv[i]@,
            v@.len() + t@.len() == origv.len(),
            t@ =~= origv.subrange(v@.len() as int, origv.len() as int),
            forall|i: int| 0 <= i < v@.len() ==> (#[trigger] v@[i])@ == spec_vendor_of(orig[i]),
            table_wf(orig, SectionKind::Vendors),
        decreases t@.len(),
    {
        let ghost k = v@.len() as int;
        let ghost prevv = t@;
        let r = t.remove(0);
        proof {
            prevv.remove_ensures(0);
            assert(r == origv[k]);
            assert(t@ =~= origv.subrange(k + 1, origv.len() as int));
            assert(crate::model::record_wf(orig[k], SectionKind::Vendors));
            assert(pow16(0) == 1);
            assert(pow16(1) == 16);
            assert(pow16(2) == 256);
            assert(r.children.deep_view() == orig[k].children);
            assert forall|i: int, j: int|
                0 <= i < r.children.deep_view().len() && 0 <= j < (
                #[trigger] r.children.deep_view()[i]).leaves.len() implies 0 <= (
            #[trigger] r.children.deep_view()[i].leaves[j]).id < 256 by {
                assert(crate::model::child_wf(orig[k].children[i], SectionKind::Vendors));
            }
        }
        let devices = devices_of_raw(r.id, r.children);
        let o = Vendor::make(r.id, r.name, devices);
        proof {
            assert(o@ =~~= spec_vendor_of(orig[k]));
        }
        v.push(o);
    }
    proof {
        assert(v.deep_view() =~= Seq::new(orig.len(), |i: int| spec_vendor_of(orig[i])));
    }
    v
}

fn protocols_of_raw(ls: Vec<RawLeaf>) -> (v: Vec<Protocol>)
    requires
        forall|i: int| 0 <= i < ls.deep_view().len() ==> 0 <= (#[trigger] ls.deep_view()[i]).id
            < 256,
    ensures
        v.deep_view() == Seq::new(
            ls.deep_view().len(),
            |i: int| spec_protocol_of(ls.deep_view()[i]),
        ),
{
    let ghost origv = ls@;
    let ghost orig = ls.deep_view();
    let mut ls = ls;
    let mut v: Vec<Protocol> = Vec::new();
    while ls.len() > 0
        invariant
            orig.len() == origv.len(),
            forall|i: int| 0 <= i < origv.len() ==> #[trigger] orig[i] == origv[i]@,
            v@.len() + ls@.len() == origv.len(),
            ls@ =~= origv.subrange(v@.len() as int, origv.len() as int),
            forall|i: int| 0 <= i < v@.len() ==> (#[trigger] v@[i])@ == spec_protocol_of(orig[i]),
            forall|i: int| 0 <= i < orig.len() ==> 0 <= (#[trigger] orig[i]).id < 256,
        decreases ls@.len(),
    {
        let ghost k = v@.len() as int;
        let ghost prevv = ls@;
        let l = ls.remove(0);
        proof {
            prevv.remove_ensures(0);
            assert(l == origv[k]);
            assert(ls@ =~= origv.subrange(k + 1, origv.len() as int));
        }
        let o = Protocol::make(l.id as u8, l.name);
        proof {
            assert(o@ =~~= spec_protocol_of(orig[k]));
        }
        v.push(o);
    }
    proof {
        assert(v.deep_view() =~= Seq::new(orig.len(), |i: int| spec_protocol_of(orig[i])));
    }
    v
}

fn subclasses_of_raw(cid: u8, cs: Vec<RawChild>) -> (v: Vec<SubClass>)
    requires
        forall|i: int| 0 <= i < cs.deep_view().len() ==> 0 <= (#[trigger] cs.deep_view()[i]).id
            < 256,
        forall|i: int, j: int|
            0 <= i < cs.deep_view().len() && 0 <= j < (#[trigger] cs.deep_view()[i]).leaves.len()
                ==> 0 <= (#[trigger] cs.deep_view()[i].leaves[j]).id < 256,
    ensures
        v.deep_view() == Seq::new(
            cs.deep_view().len(),
            |i: int| spec_subclass_of(cid, cs.deep_view()[i]),
        ),
{
    let ghost origv = cs@;
    let ghost orig = cs.deep_view();
    let mut cs = cs;
    let mut v: Vec<SubClass> = Vec::new();
    while cs.len() > 0
        invariant
            orig.len() == origv.len(),
            forall|i: int| 0 <= i < origv.len() ==> #[trigger] orig[i] == origv[i]@,
            v@.len() + cs@.len() == origv.len(),
            cs@ =~= origv.subrange(v@.len() as int, origv.len() as int),
            forall|i: int| 0 <= i < v@.len() ==> (#[trigger] v@[i])@ == spec_subclass_of(cid, orig[i]),
            forall|i: int| 0 <= i < orig.len() ==> 0 <= (#[trigger] orig[i]).id < 256,
            forall|i: int, j: int|
                0 <= i < orig.len() && 0 <= j < (#[trigger] orig[i]).leaves.len() ==> 0 <= (
                #[trigger] orig[i].leaves[j]).id < 256,
        decreases cs@.len(),
    {
        let ghost k = v@.len() as int;
        let ghost prevv = cs@;
        let c = cs.remove(0);
        proof {
            prevv.remove_ensures(0);
            assert(c == origv[k]);
            assert(cs@ =~= origv.subrange(k + 1, origv.len() as int));
            assert(c.leaves.deep_view() == orig[k].leaves);
            assert forall|j: int| 0 <= j < c.leaves.deep_view().len() implies 0 <= (
            #[trigger] c.leaves.deep_view()[j]).id < 256 by {
                assert(orig[k].leaves[j].id == c.leaves.deep_view()[j].id);
            }
        }
        let protocols = protocols_of_raw(c.leaves);
        let o = SubClass::make(cid, c.id as u8, c.name, protocols);
        proof {
            assert(o@ =~~= spec_subclass_of(cid, orig[k]));
        }
        v.push(o);
    }
    proof {
        assert(v.deep_view() =~= Seq::new(orig.len(), |i: int| spec_subclass_of(cid, orig[i])));
    }
    v
}

fn classes_of_raw(t: Vec<RawRecord>) -> (v: Vec<Class>)
    requires
        table_wf(t.deep_view(), SectionKind::Classes),
    ensures
        v.deep_view() == Seq::new(t.deep_view().len(), |i: int| spec_class_of(t.deep_view()[i])),
{
    let ghost origv = t@;
    let ghost orig = t.deep_view();
    let mut t = t;
    let mut v: Vec<Class> = Vec::new();
    while t.len() > 0
        invariant
            orig.len() == origv.len(),
            forall|i: int| 0 <= i < origv.len() ==> #[trigger] orig[i] == origv[i]@,
            v@.len() + t@.len() == origv.len(),
            t@ =~= origv.subrange(v@.len() as int, origv.len() as int),
            forall|i: int| 0 <= i < v@.len() ==> (#[trigger] v@[i])@ == spec_class_of(orig[i]),
            table_wf(orig, SectionKind::Classes),
        decreases t@.len(),
    {
        let ghost k = v@.len() as int;
        let ghost prevv = t@;
        let r = t.remove(0);
        proof {
            prevv.remove_ensures(0);
            assert(r == origv[k]);
            assert(t@ =~= origv.subrange(k + 1, origv.len() as int));
            assert(crate::model::record_wf(orig[k], SectionKind::Classes));
            assert(pow16(0) == 1);
            assert(pow16(1) == 16);
            assert(pow16(2) == 256);
            assert(r.children.deep_view() == orig[k].children);
            assert forall|i: int| 0 <= i < r.children.deep_view().len() implies 0 <= (
            #[trigger] r.children.deep_view()[i]).id < 256 by {
                assert(crate::model::child_wf(orig[k].children[i], SectionKind::Classes));
            }
            assert forall|i: int, j: int|
                0 <= i < r.children.deep_view().len() && 0 <= j < (
                #[trigger] r.children.deep_view()[i]).leaves.len() implies 0 <= (
            #[trigger] r.children.deep_view()[i].leaves[j]).id < 256 by {
                assert(crate::model::child_wf(orig[k].children[i], SectionKind::Classes));
            }
        }
        let sub_classes = subclasses_of_raw(r.id as u8, r.children);
        let o = Class::make(r.id as u8, r.name, sub_classes);
        proof {
            assert(o@ =~~= spec_class_of(orig[k]));
        }
        v.push(o);
    }
    proof {
        assert(v.deep_view() =~= Seq::new(orig.len(), |i: int| spec_class_of(orig[i])));
    }
    v
}

fn leaf8_of_raw<const ID: u8>(t: Vec<RawRecord>) -> (v: Vec<UsbId<ID, u8>>)
    requires
        forall|i: int| 0 <= i < t.deep_view().len() ==> 0 <= (#[trigger] t.deep_view()[i]).id
            < 256,
    ensures
        v.deep_view() == Seq::new(t.deep_view().len(), |i: int| spec_id8_of(t.deep_view()[i])),
{
    let ghost origv = t@;
    let ghost orig = t.deep_view();
    let mut t = t;
    let mut v: Vec<UsbId<ID, u8>> = Vec::new();
    while t.len() > 0
        invariant
            orig.len() == origv.len(),
            forall|i: int| 0 <= i < origv.len() ==> #[trigger] orig[i] == origv[i]@,
            v@.len() + t@.len() == origv.len(),
            t@ =~= origv.subrange(v@.len() as int, origv.len() as int),
            forall|i: int| 0 <= i < v@.len() ==> (#[trigger] v@[i])@ == spec_id8_of(orig[i]),
            forall|i: int| 0 <= i < orig.len() ==> 0 <= (#[trigger] orig[i]).id < 256,
        decreases t@.len(),
    {
        let ghost k = v@.len() as int;
        let ghost prevv = t@;
        let r = t.remove(0);
        proof {
            prevv.remove_ensures(0);
            assert(r == origv[k]);
            assert(t@ =~= origv.subrange(k + 1, origv.len() as int));
        }
        let o = UsbId::<ID, u8>::make(r.id as u8, r.name);
        proof {
            assert(o@ =~~= spec_id8_of(orig[k]));
        }
        v.push(o);
    }
    proof {
        assert(v.deep_view() =~= Seq::new(orig.len(), |i: int| spec_id8_of(orig[i])));
    }
    v
}

fn leaf16_of_raw<const ID: u8>(t: Vec<RawRecord>) -> (v: Vec<UsbId<ID, u16>>)
    ensures
        v.deep_view() == Seq::new(t.deep_view().len(), |i: int| spec_id16_of(t.deep_view()[i])),
{
    let ghost origv = t@;
    let ghost orig = t.deep_view();
    let mut t = t;
    let mut v: Vec<UsbId<ID, u16>> = Vec::new();
    while t.len() > 0
        invariant
            orig.len() == origv.len(),
            forall|i: int| 0 <= i < origv.len() ==> #[trigger] orig[i] == origv[i]@,
            v@.len() + t@.len() == origv.len(),
            t@ =~= origv.subrange(v@.len() as int, origv.len() as int),
            forall|i: int| 0 <= i < v@.len() ==> (#[trigger] v@[i])@ == spec_id16_of(orig[i]),
        decreases t@.len(),
    {
        let ghost k = v@.len() as int;
        let ghost prevv = t@;
        let r = t.remove(0);
        proof {
            prevv.remove_ensures(0);
            assert(r == origv[k]);
            assert(t@ =~= origv.subrange(k + 1, origv.len() as int));
        }
        let o = UsbId::<ID, u16>::make(r.id, r.name);
        proof {
            assert(o@ =~~= spec_id16_of(orig[k]));
        }
        v.push(o);
    }
    proof {
        assert(v.deep_view() =~= Seq::new(orig.len(), |i: int| spec_id16_of(orig[i])));
    }
    v
}

fn usages_of_raw(cs: Vec<RawChild>) -> (v: Vec<HidUsage>)
    ensures
        v.deep_view() == Seq::new(cs.deep_view().len(), |i: int| spec_usage_of(cs.deep_view()[i])),
{
    let ghost origv = cs@;
    let ghost orig = cs.deep_view();
    let mut cs = cs;
    let mut v: Vec<HidUsage> = Vec::new();
    while cs.len() > 0
        invariant
            orig.len() == origv.len(),
            forall|i: int| 0 <= i < origv.len() ==> #[trigger] orig[i] == origv[i]@,
            v@.len() + cs@.len() == origv.len(),
            cs@ =~= origv.subrange(v@.len() as int, origv.len() as int),
            forall|i: int| 0 <= i < v@.len() ==> (#[trigger] v@[i])@ == spec_usage_of(orig[i]),
        decreases cs@.len(),
    {
        let ghost k = v@.len() as int;
        let ghost prevv = cs@;
        let c = cs.remove(0);
        proof {
            prevv.remove_ensures(0);
            assert(c == origv[k]);
            assert(cs@ =~= origv.subrange(k + 1, origv.len() as int));
        }
        let o = HidUsage::make(c.id, c.name);
        proof {
            assert(o@ =~~= spec_usage_of(orig[k]));
        }
        v.push(o);
    }
    proof {
        assert(v.deep_view() =~= Seq::new(orig.len(), |i: int| spec_usage_of(orig[i])));
    }
    v
}

fn pages_of_raw(t: Vec<RawRecord>) -> (v: Vec<HidUsagePage>)
    requires
        table_wf(t.deep_view(), SectionKind::HidUsagePages),
    ensures
        v.deep_view() == Seq::new(t.deep_view().len(), |i: int| spec_page_of(t.deep_view()[i])),
{
    let ghost origv = t@;
    let ghost orig = t.deep_view();
    let mut t = t;
    let mut v: Vec<HidUsagePage> = Vec::new();
    while t.len() > 0
        invariant
            orig.len() == origv.len(),
            forall|i: int| 0 <= i < origv.len() ==> #[trigger] orig[i] == origv[i]@,
            v@.len() + t@.len() == origv.len(),
            t@ =~= origv.subrange(v@.len() as int, origv.len() as int),
            forall|i: int| 0 <= i < v@.len() ==> (#[trigger] v@[i])@ == spec_page_of(orig[i]),
            table_wf(orig, SectionKind::HidUsagePages),
        decreases t@.len(),
    {
        let ghost k = v@.len() as int;
        let ghost prevv = t@;
        let r = t.remove(0);
        proof {
            prevv.remove_ensures(0);
            assert(r == origv[k]);
            assert(t@ =~= origv.subrange(k + 1, origv.len() as int));
            assert(crate::model::record_wf(orig[k], SectionKind::HidUsagePages));
            assert(pow16(0) == 1);
            assert(pow16(1) == 16);
            assert(pow16(2) == 256);
        }
        let usages = usages_of_raw(r.children);
        let o = HidUsagePage::make(r.id as u8, r.name, usages);
        proof {
            assert(o@ =~~= spec_page_of(orig[k]));
        }
        v.push(o);
    }
    proof {
        assert(v.deep_view() =~= Seq::new(orig.len(), |i: int| spec_page_of(orig[i])));
    }
    v
}

fn dialects_of_raw(cs: Vec<RawChild>) -> (v: Vec<Dialect>)
    requires
        forall|i: int| 0 <= i < cs.deep_view().len() ==> 0 <= (#[trigger] cs.deep_view()[i]).id
            < 256,
    ensures
        v.deep_view() == Seq::new(
            cs.deep_view().len(),
            |i: int| spec_dialect_of(cs.deep_view()[i]),
        ),
{
    let ghost origv = cs@;
    let ghost orig = cs.deep_view();
    let mut cs = cs;
    let mut v: Vec<Dialect> = Vec::new();
    while cs.len() > 0
        invariant
            orig.len() == origv.len(),
            forall|i: int| 0 <= i < origv.len() ==> #[trigger] orig[i] == origv[i]@,
            v@.len() + cs@.len() == origv.len(),
            cs@ =~= origv.subrange(v@.len() as int, origv.len() as int),
            forall|i: int| 0 <= i < v@.len() ==> (#[trigger] v@[i])@ == spec_dialect_of(orig[i]),
            forall|i: int| 0 <= i < orig.len() ==> 0 <= (#[trigger] orig[i]).id < 256,
        decreases cs@.len(),
    {
        let ghost k = v@.len() as int;
        let ghost prevv = cs@;
        let c = cs.remove(0);
        proof {
            prevv.remove_ensures(0);
            assert(c == origv[k]);
            assert(cs@ =~= origv.subrange(k + 1, origv.len() as int));
        }
        let o = Dialect::make(c.id as u8, c.name);
        proof {
            assert(o@ =~~= spec_dialect_of(orig[k]));
        }
        v.push(o);
    }
    proof {
        assert(v.deep_view() =~= Seq::new(orig.len(), |i: int| spec_dialect_of(orig[i])));
    }
    v
}

fn langs_of_raw(t: Vec<RawRecord>) -> (v: Vec<Language>)
    requires
        table_wf(t.deep_view(), SectionKind::Languages),
    ensures
        v.deep_view() == Seq::new(t.deep_view().len(), |i: int| spec_lang_of(t.deep_view()[i])),
{
    let ghost origv = t@;
    let ghost orig = t.deep_view();
    let mut t = t;
    let mut v: Vec<Language> = Vec::new();
    while t.len() > 0
        invariant
            orig.len() == origv.len(),
            forall|i: int| 0 <= i < origv.len() ==> #[trigger] orig[i] == origv[i]@,
            v@.len() + t@.len() == origv.len(),
            t@ =~= origv.subrange(v@.len() as int, origv.len() as int),
            forall|i: int| 0 <= i < v@.len() ==> (#[trigger] v@[i])@ == spec_lang_of(orig[i]),
            table_wf(orig, SectionKind::Languages),
        decreases t@.len(),
    {
        let ghost k = v@.len() as int;
        let ghost prevv = t@;
        let r = t.remove(0);
        proof {
            prevv.remove_ensures(0);
            assert(r == origv[k]);
            assert(t@ =~= origv.subrange(k + 1, origv.len() as int));
            assert(crate::model::record_wf(orig[k], SectionKind::Languages));
            assert(pow16(0) == 1);
            assert(pow16(1) == 16);
            assert(pow16(2) == 256);
            assert(r.children.deep_view() == orig[k].children);
            assert forall|i: int| 0 <= i < r.children.deep_view().len() implies 0 <= (
            #[trigger] r.children.deep_view()[i]).id < 256 by {
                assert(crate::model::child_wf(orig[k].children[i], SectionKind::Languages));
            }
        }
        let dialects = dialects_of_raw(r.children);
        let o = Language::make(r.id, r.name, dialects);
        proof {
            assert(o@ =~~= spec_lang_of(orig[k]));
        }
        v.push(o);
    }
    proof {
        assert(v.deep_view() =~= Seq::new(orig.len(), |i: int| spec_lang_of(orig[i])));
    }
    v
}

/// The compiled database: one finalized, immutable table per section.
#[derive(Debug)]
pub struct UsbDatabase {
    vendors: Vec<Vendor>,
    classes: Vec<Class>,
    audio_terminals: Vec<AudioTerminal>,
    hids: Vec<Hid>,
    hid_item_types: Vec<HidItemType>,
    biases: Vec<Bias>,
    phys: Vec<Phy>,
    hid_usage_pages: Vec<HidUsagePage>,
    languages: Vec<Language>,
    hid_country_codes: Vec<HidCountryCode>,
    video_terminals: Vec<VideoTerminal>,
}

impl View for UsbDatabase {
    type V = SpecDb;

    closed spec fn view(&self) -> SpecDb {
        SpecDb {
            vendors: self.vendors.deep_view(),
            classes: self.classes.deep_view(),
            audio_terminals: self.audio_terminals.deep_view(),
            hids: self.hids.deep_view(),
            hid_item_types: self.hid_item_types.deep_view(),
            biases: self.biases.deep_view(),
            phys: self.phys.deep_view(),
            hid_usage_pages: self.hid_usage_pages.deep_view(),
            languages: self.languages.deep_view(),
            hid_country_codes: self.hid_country_codes.deep_view(),
            video_terminals: self.video_terminals.deep_view(),
        }
    }
}

impl UsbDatabase {
    /// Every database value is well formed: the compile is the only way to
    /// build one, and it only hands out linked, duplicate-free tables.
    #[verifier::type_invariant]
    pub open spec fn type_inv(self) -> bool {
        db_wf(self@)
    }

    /// The vendor table, in file order.
    pub fn vendors(&self) -> (r: &Vec<Vendor>)
        ensures
            r.deep_view() == self@.vendors,
    {
        &self.vendors
    }

    /// The class table, in file order.
    pub fn classes(&self) -> (r: &Vec<Class>)
        ensures
            r.deep_view() == self@.classes,
    {
        &self.classes
    }

    /// The audio terminal table, in file order.
    pub fn audio_terminals(&self) -> (r: &Vec<AudioTerminal>)
        ensures
            r.deep_view() == self@.audio_terminals,
    {
        &self.audio_terminals
    }

    /// The HID descriptor type table, in file order.
    pub fn hids(&self) -> (r: &Vec<Hid>)
        ensures
            r.deep_view() == self@.hids,
    {
        &self.hids
    }

    /// The HID item type table, in file order.
    pub fn hid_item_types(&self) -> (r: &Vec<HidItemType>)
        ensures
            r.deep_view() == self@.hid_item_types,
    {
        &self.hid_item_types
    }

    /// The bias table, in file order.
    pub fn biases(&self) -> (r: &Vec<Bias>)
        ensures
            r.deep_view() == self@.biases,
    {
        &self.biases
    }

    /// The physical descriptor item type table, in file order.
    pub fn phys(&self) -> (r: &Vec<Phy>)
        ensures
            r.deep_view() == self@.phys,
    {
        &self.phys
    }

    /// The HID usage page table, in file order.
    pub fn hid_usage_pages(&self) -> (r: &Vec<HidUsagePage>)
        ensures
            r.deep_view() == self@.hid_usage_pages,
    {
        &self.hid_usage_pages
    }

    /// The language table, in file order.
    pub fn languages(&self) -> (r: &Vec<Language>)
        ensures
            r.deep_view() == self@.languages,
    {
        &self.languages
    }

    /// The HID country code table, in file order.
    pub fn hid_country_codes(&self) -> (r: &Vec<HidCountryCode>)
        ensures
            r.deep_view() == self@.hid_country_codes,
    {
        &self.hid_country_codes
    }

    /// The video terminal table, in file order.
    pub fn video_terminals(&self) -> (r: &Vec<VideoTerminal>)
        ensures
            r.deep_view() == self@.video_terminals,
    {
        &self.video_terminals
    }
}

fn db_of_tables(ts: Vec<Vec<RawRecord>>) -> (db: UsbDatabase)
    requires
        ts.deep_view().len() == 11,
        forall|i: int| 0 <= i < 11 ==> table_wf(#[trigger] ts.deep_view()[i], kind_of_index(i)),
    ensures
        db@ == spec_db_of(ts.deep_view()),
{
    let ghost orig = ts.deep_view();
    let mut ts = ts;
    proof {
        assert(pow16(0) == 1);
        assert(pow16(1) == 16);
        assert(pow16(2) == 256);
    }
    let t0 = ts.remove(0);
    let t1 = ts.remove(0);
    let t2 = ts.remove(0);
    let t3 = ts.remove(0);
    let t4 = ts.remove(0);
    let t5 = ts.remove(0);
    let t6 = ts.remove(0);
    let t7 = ts.remove(0);
    let t8 = ts.remove(0);
    let t9 = ts.remove(0);
    let t10 = ts.remove(0);
    proof {
        assert(t0.deep_view() == orig[0]);
        assert(t1.deep_view() == orig[1]);
        assert(t2.deep_view() == orig[2]);
        assert(t3.deep_view() == orig[3]);
        assert(t4.deep_view() == orig[4]);
        assert(t5.deep_view() == orig[5]);
        assert(t6.deep_view() == orig[6]);
        assert(t7.deep_view() == orig[7]);
        assert(t8.deep_view() == orig[8]);
        assert(t9.deep_view() == orig[9]);
        assert(t10.deep_view() == orig[10]);
    }
    proof {
        lemma_db_of_wf(orig);
    }
    let db = UsbDatabase {
        vendors: vendors_of_raw(t0),
        classes: classes_of_raw(t1),
        audio_terminals: leaf16_of_raw(t2),
        hids: leaf8_of_raw(t3),
        hid_item_types: leaf8_of_raw(t4),
        biases: leaf8_of_raw(t5),
        phys: leaf8_of_raw(t6),
        hid_usage_pages: pages_of_raw(t7),
        languages: langs_of_raw(t8),
        hid_country_codes: leaf8_of_raw(t9),
        video_terminals: leaf16_of_raw(t10),
    };
    proof {
        assert(db@ =~~= spec_db_of(orig));
    }
    db
}

/// The conversion to typed tables keeps ids, owners and order, so the
/// well-formedness of the machine's tables carries over to the database.
pub proof fn lemma_db_of_wf(ts: Seq<Seq<SpecRecord>>)
    requires
        ts.len() == 11,
        forall|i: int| 0 <= i < 11 ==> table_wf(#[trigger] ts[i], kind_of_index(i)),
    ensures
        db_wf(spec_db_of(ts)),
{
    assert(pow16(0) == 1);
    assert(pow16(1) == 16);
    assert(pow16(2) == 256);
    assert(pow16(3) == 4096);
    assert(pow16(4) == 65536);
    let d = spec_db_of(ts);
    assert forall|i: int| 0 <= i < d.vendors.len() implies vendor_wf(#[trigger] d.vendors[i]) by {
        assert(crate::model::record_wf(ts[0][i], kind_of_index(0)));
    }
    assert forall|i: int| 0 <= i < d.classes.len() implies class_wf(#[trigger] d.classes[i]) by {
        assert(crate::model::record_wf(ts[1][i], kind_of_index(1)));
    }
    assert forall|i: int| 0 <= i < d.hid_usage_pages.len() implies parented_wf(
        #[trigger] d.hid_usage_pages[i],
    ) by {
        assert(crate::model::record_wf(ts[7][i], kind_of_index(7)));
    }
    assert forall|i: int| 0 <= i < d.languages.len() implies lang_wf(#[trigger] d.languages[i]) by {
        assert(crate::model::record_wf(ts[8][i], kind_of_index(8)));
    }
}

/// A fatal compile error, with enough context to diagnose the input: the
/// kind, the zero-based line number, the section the compiler was in, and
/// the raw line text. An error at the line number one past the last line
/// means the final flush failed, with no line of its own; its text is empty.
#[derive(Debug, Clone)]
pub struct ParseError {
    /// What went wrong.
    pub kind: ErrorKind,
    /// The zero-based number of the offending line.
    pub line_number: usize,
    /// The section the compiler was in when it failed.
    pub section: SectionKind,
    /// The offending line, verbatim.
    pub text: String,
}

/// Splitting a run anywhere yields the run of the prefix continued by the
/// run of the suffix.
pub proof fn lemma_run_split(m: SpecMachine, s: Seq<Seq<char>>, i: int)
    requires
        0 <= i <= s.len(),
    ensures
        spec_run(m, s) == (match spec_run(m, s.subrange(0, i)) {
            Ok(mi) => spec_run(mi, s.subrange(i, s.len() as int)),
            Err(e) => Err(e),
        }),
    decreases i,
{
    if i == 0 {
        assert(s.subrange(0, 0) =~= Seq::<Seq<char>>::empty());
        assert(s.subrange(0, s.len() as int) =~= s);
    } else {
        let p = s.subrange(0, i);
        assert(p[0] == s[0]);
        match spec_step(m, s[0]) {
            Ok(m2) => {
                lemma_run_split(m2, s.drop_first(), i - 1);
                assert(s.drop_first().subrange(0, i - 1) =~= p.drop_first());
                assert(s.drop_first().subrange(i - 1, s.drop_first().len() as int) =~= s.subrange(
                    i,
                    s.len() as int,
                ));
            },
            Err(e) => {},
        }
    }
}

/// Compiles the whole file, given as its lines without terminators.
///
/// On success every line has been consumed and the result holds exactly the
/// tables of the reference machine, well formed. On failure the error names
/// the first offending line: the machine ran clean up to `line_number`, and
/// failed on that line — or, where `line_number` equals the line count, on
/// the flush of the record left open at end of input.
pub fn parse_database(lines: &Vec<String>) -> (r: Result<UsbDatabase, ParseError>)
    ensures
        match r {
            Ok(db) => {
                &&& spec_parse(lines.deep_view()) is Ok
                &&& db@ == spec_db_of(spec_parse(lines.deep_view())->Ok_0)
                &&& db_wf(db@)
            },
            Err(e) => {
                &&& spec_parse(lines.deep_view()) == Err::<Seq<Seq<SpecRecord>>, ErrorKind>(e.kind)
                &&& e.line_number <= lines@.len()
                &&& e.line_number < lines@.len() ==> {
                    let pre = spec_run(
                        spec_init(),
                        lines.deep_view().subrange(0, e.line_number as int),
                    );
                    &&& pre is Ok
                    &&& spec_step(pre->Ok_0, lines.deep_view()[e.line_number as int]) == Err::<
                        SpecMachine,
                        ErrorKind,
                    >(e.kind)
                    &&& e.section == pre->Ok_0.section
                    &&& e.text@ == lines.deep_view()[e.line_number as int]
                }
                &&& e.line_number == lines@.len() ==> {
                    let fin = spec_run(spec_init(), lines.deep_view());
                    &&& fin is Ok
                    &&& spec_flush(fin->Ok_0) == Err::<SpecMachine, ErrorKind>(e.kind)
                    &&& e.section == fin->Ok_0.section
                    &&& e.text@.len() == 0
                }
            },
        },
{
    let ghost sl = lines.deep_view();
    let mut b = Builder::new();
    let mut i: usize = 0;
    while i < lines.len()
        invariant
            i <= lines@.len(),
            sl == lines.deep_view(),
            sl.len() == lines@.len(),
            b@.tables.len() == 11,
            spec_run(spec_init(), sl.subrange(0, i as int)) == Ok::<SpecMachine, ErrorKind>(b@),
        decreases lines@.len() - i,
    {
        let sec = b.section();
        let line = &lines[i];
        let ghost pre = b@;
        proof {
            assert(line@ == sl[i as int]);
        }
        match b.process_line(line.as_str()) {
            Ok(()) => {
                proof {
                    lemma_run_split(spec_init(), sl.subrange(0, i as int + 1), i as int);
                    assert(sl.subrange(0, i as int + 1).subrange(0, i as int) =~= sl.subrange(
                        0,
                        i as int,
                    ));
                    let tail = sl.subrange(0, i as int + 1).subrange(i as int, i as int + 1);
                    assert(tail.len() == 1);
                    assert(tail[0] == sl[i as int]);
                    assert(spec_step(pre, tail[0]) == Ok::<SpecMachine, ErrorKind>(b@));
                    assert(tail.drop_first() =~= Seq::<Seq<char>>::empty());
                    assert(spec_run(b@, tail.drop_first()) == Ok::<SpecMachine, ErrorKind>(b@));
                    assert(spec_run(pre, tail) == Ok::<SpecMachine, ErrorKind>(b@));
                }
            },
            Err(k) => {
                proof {
                    lemma_run_split(spec_init(), sl, i as int);
                    let tail = sl.subrange(i as int, sl.len() as int);
                    assert(tail[0] == sl[i as int]);
                    assert(spec_run(pre, tail) == Err::<SpecMachine, ErrorKind>(k));
                }
                return Err(
                    ParseError { kind: k, line_number: i, section: sec, text: line.clone() },
                );
            },
        }
        i += 1;
    }
    proof {
        assert(sl.subrange(0, sl.len() as int) =~= sl);
    }
    let sec = b.section();
    let ghost mfin = b@;
    match b.finish_tables() {
        Err(k) => Err(
            ParseError { kind: k, line_number: lines.len(), section: sec, text: String::new() },
        ),
        Ok(ts) => {
            proof {
                crate::model::lemma_parse_tables_wf(sl);
                lemma_db_of_wf(ts.deep_view());
            }
            let db = db_of_tables(ts);
            Ok(db)
        },
    }
}

} // verus!
