//! The query layer, exercised over a small cut of the USB ID database text.

use usb_ids::{
    parse_database, AudioTerminal, Bias, Class, Device, FromId, Hid, HidCountryCode, HidItemType,
    HidUsage, HidUsagePage, Language, Phy, Protocol, SubClass, UsbDatabase, Vendor, VideoTerminal,
};

fn sample_lines() -> Vec<String> {
    let text: &[&str] = &[
        "#",
        "#\tList of USB ID's",
        "#",
        "",
        "1d6b  Linux Foundation",
        "\t0002  2.0 root hub",
        "\t0003  3.0 root hub",
        "ffee  Unbranded",
        "\t0100  Card Reader Controller RTS5101/RTS5111/RTS5116",
        "",
        "# C class  subclass  protocol",
        "",
        "C 02  Communications",
        "\t02  Abstract (modem)",
        "\t\t05  AT-commands (3G)",
        "\t03  Telephone",
        "C 03  Human Interface Device",
        "\t01  Boot Interface Subclass",
        "\t\t01  Keyboard",
        "\t\t02  Mouse",
        "C 07  Printer",
        "\t01  Printer",
        "\t\t03  IEEE 1284.4 compatible bidirectional",
        "C ff  Vendor Specific Class",
        "\tff  Vendor Specific Subclass",
        "\t\tff  Vendor Specific Protocol",
        "",
        "# AT terminal_type  terminal_type_name",
        "",
        "AT 0201  Microphone",
        "AT 0713  Synthesizer",
        "",
        "# HID descriptor_type  descriptor_type_name",
        "",
        "HID 22  Report",
        "HID 23  Physical",
        "",
        "# R item_type  item_type_name",
        "",
        "R b4  Pop",
        "R c0  End Collection",
        "",
        "# BIAS item_bias_type",
        "",
        "BIAS 2  Left Hand",
        "BIAS 4  Either Hand",
        "",
        "# PHY item_phy_type",
        "",
        "PHY 25  Fifth Toe",
        "PHY 27  Cheek",
        "",
        "# HUT hut  hid_usage  hid_usage_name",
        "",
        "HUT 01  Generic Desktop Controls",
        "\t002  Mouse",
        "HUT 0d  Digitizer",
        "\t001  Digitizer",
        "",
        "# L language_id dialect_id",
        "",
        "L 0007  German",
        "\t02  Swiss",
        "L 000c  French",
        "",
        "# HCC country_code  keymap_type",
        "",
        "HCC 00  Not supported",
        "HCC 29  Switzerland",
        "",
        "# VT terminal_type  terminal_type_name",
        "",
        "VT 0100  USB Vendor Specific",
        "VT 0403  Component Video",
    ];
    text.iter().map(|s| s.to_string()).collect()
}

fn sample_db() -> UsbDatabase {
    parse_database(&sample_lines()).expect("the sample database must compile")
}

#[test]
fn test_from_id() {
    let db = sample_db();
    let vendor = Vendor::from_id(&db, 0x1d6b).unwrap();

    assert_eq!(vendor.name(), "Linux Foundation");
    assert_eq!(vendor.id(), 0x1d6b);
}

#[test]
fn test_vendor_devices() {
    let db = sample_db();
    let vendor = Vendor::from_id(&db, 0x1d6b).unwrap();

    for device in vendor.devices() {
        assert_eq!(device.vendor(&db), vendor);
        assert!(!device.name().is_empty());
    }
}

#[test]
fn test_from_vid_pid() {
    let db = sample_db();
    let device = Device::from_vid_pid(&db, 0x1d6b, 0x0003).unwrap();

    assert_eq!(device.name(), "3.0 root hub");

    let (vid, pid) = device.as_vid_pid();

    assert_eq!(vid, device.vendor(&db).id());
    assert_eq!(pid, device.id());

    let device2 = Device::from_vid_pid(&db, vid, pid).unwrap();

    assert_eq!(device, device2);

    let last_device = Device::from_vid_pid(&db, 0xffee, 0x0100).unwrap();
    assert_eq!(
        last_device.name(),
        "Card Reader Controller RTS5101/RTS5111/RTS5116"
    );
}

#[test]
fn test_class_from_id() {
    let db = sample_db();
    let class = Class::from_id(&db, 0x03).unwrap();

    assert_eq!(class.name(), "Human Interface Device");
    assert_eq!(class.id(), 0x03);
}

#[test]
fn test_subclass_from_cid_scid() {
    let db = sample_db();
    let subclass = SubClass::from_cid_scid(&db, 0x03, 0x01).unwrap();

    assert_eq!(subclass.name(), "Boot Interface Subclass");
    assert_eq!(subclass.id(), 0x01);
}

#[test]
fn test_protocol_from_cid_scid_pid() {
    let db = sample_db();
    let protocol = Protocol::from_cid_scid_pid(&db, 0x03, 0x01, 0x01).unwrap();

    assert_eq!(protocol.name(), "Keyboard");
    assert_eq!(protocol.id(), 0x01);

    let protocol = Protocol::from_cid_scid_pid(&db, 0x07, 0x01, 0x03).unwrap();

    assert_eq!(protocol.name(), "IEEE 1284.4 compatible bidirectional");
    assert_eq!(protocol.id(), 0x03);

    let protocol = Protocol::from_cid_scid_pid(&db, 0xff, 0xff, 0xff).unwrap();

    // check last entry for parsing
    assert_eq!(protocol.name(), "Vendor Specific Protocol");
    assert_eq!(protocol.id(), 0xff);
}

#[test]
fn test_at_from_id() {
    let db = sample_db();
    let at = AudioTerminal::from_id(&db, 0x0713).unwrap();

    assert_eq!(at.name(), "Synthesizer");
    assert_eq!(at.id(), 0x0713);
}

#[test]
fn test_hid_from_id() {
    let db = sample_db();
    let hid = Hid::from_id(&db, 0x23).unwrap();

    assert_eq!(hid.name(), "Physical");
    assert_eq!(hid.id(), 0x23);
}

#[test]
fn test_hid_type_from_id() {
    let db = sample_db();
    let hid_type = HidItemType::from_id(&db, 0xc0).unwrap();

    assert_eq!(hid_type.name(), "End Collection");
    assert_eq!(hid_type.id(), 0xc0);
}

#[test]
fn test_bias_from_id() {
    let db = sample_db();
    let bias = Bias::from_id(&db, 0x04).unwrap();

    assert_eq!(bias.name(), "Either Hand");
    assert_eq!(bias.id(), 0x04);
}

#[test]
fn test_phy_from_id() {
    let db = sample_db();
    let phy = Phy::from_id(&db, 0x27).unwrap();

    assert_eq!(phy.name(), "Cheek");
    assert_eq!(phy.id(), 0x27);
}

#[test]
fn test_hid_usages_from_id() {
    let db = sample_db();
    let hid_usage_page = HidUsagePage::from_id(&db, 0x0d).unwrap();

    assert_eq!(hid_usage_page.name(), "Digitizer");
    assert_eq!(hid_usage_page.id(), 0x0d);

    let hid_usage = HidUsage::from_pageid_uid(&db, 0x0d, 0x01).unwrap();

    assert_eq!(hid_usage.name(), "Digitizer");
    assert_eq!(hid_usage.id(), 0x01);
}

#[test]
fn test_language_from_id() {
    let db = sample_db();
    let language = Language::from_id(&db, 0x0007).unwrap();

    assert_eq!(language.name(), "German");
    assert_eq!(language.id(), 0x0007);

    let dialect = language.dialects().iter().find(|d| d.id() == 0x02).unwrap();

    assert_eq!(dialect.name(), "Swiss");
    assert_eq!(dialect.id(), 0x02);
}

#[test]
fn test_hid_country_code_from_id() {
    let db = sample_db();
    let hid_country_code = HidCountryCode::from_id(&db, 0x29).unwrap();

    assert_eq!(hid_country_code.name(), "Switzerland");
    assert_eq!(hid_country_code.id(), 0x29);

    let hid_country_code = HidCountryCode::from_id(&db, 0x00).unwrap();
    assert_eq!(hid_country_code.name(), "Not supported");
}

#[test]
fn test_video_terminal_from_id() {
    let db = sample_db();
    let video_terminal = VideoTerminal::from_id(&db, 0x0100).unwrap();

    assert_eq!(video_terminal.name(), "USB Vendor Specific");
    assert_eq!(video_terminal.id(), 0x0100);

    let video_terminal = VideoTerminal::from_id(&db, 0x0403).unwrap();
    assert_eq!(video_terminal.name(), "Component Video");
}

#[test]
fn test_more_composite_lookups() {
    let db = sample_db();

    let subclass = SubClass::from_cid_scid(&db, 0x02, 0x03).unwrap();
    assert_eq!(subclass.name(), "Telephone");
    assert!(SubClass::from_cid_scid(&db, 0x3c, 0x02).is_none());

    let protocol = Protocol::from_cid_scid_pid(&db, 0x02, 0x02, 0x05).unwrap();
    assert_eq!(protocol.name(), "AT-commands (3G)");

    let subclass = SubClass::from_cid_scid(&db, 0x02, 0x03).unwrap();
    let class = subclass.class(&db);
    assert_eq!(class.id(), 0x02);

    let (cid, scid) = subclass.as_cid_scid();
    assert_eq!((cid, scid), (0x02, 0x03));

    let usage = HidUsage::from_pageid_uid(&db, 0x01, 0x002).unwrap();
    assert_eq!(usage.name(), "Mouse");

    let dialect = usb_ids::Dialect::from_lid_did(&db, 0x0007, 0x02).unwrap();
    assert_eq!(dialect.name(), "Swiss");
    assert!(usb_ids::Dialect::from_lid_did(&db, 0x0007, 0x55).is_none());

    let language = Language::from_id(&db, 0x000c).unwrap();
    assert_eq!(language.name(), "French");
    assert_eq!(language.dialects().len(), 0);
}

#[test]
fn test_iteration_in_file_order() {
    let db = sample_db();

    let vendors: Vec<u16> = usb_ids::Vendors::iter(&db).iter().map(|v| v.id()).collect();
    assert_eq!(vendors, vec![0x1d6b, 0xffee]);

    let classes: Vec<u8> = usb_ids::Classes::iter(&db).iter().map(|c| c.id()).collect();
    assert_eq!(classes, vec![0x02, 0x03, 0x07, 0xff]);

    let langs: Vec<u16> = usb_ids::Languages::iter(&db).iter().map(|l| l.id()).collect();
    assert_eq!(langs, vec![0x0007, 0x000c]);

    let pages: Vec<u8> = usb_ids::HidUsagePages::iter(&db)
        .iter()
        .map(|p| p.id())
        .collect();
    assert_eq!(pages, vec![0x01, 0x0d]);

    let page = HidUsagePage::from_id(&db, 0x01).unwrap();
    assert_eq!(page.name(), "Generic Desktop Controls");
    for usage in page.usages() {
        assert!(!usage.name().is_empty());
    }
}
