//! The compiler itself: re-parenting, duplicate and orphan detection, exact
//! hex field widths, section isolation, and error reporting.

use usb_ids::{
    parse_database, Class, Device, ErrorKind, FromId, SectionKind, Vendor,
};

fn lines_of(text: &[&str]) -> Vec<String> {
    text.iter().map(|s| s.to_string()).collect()
}

#[test]
fn test_end_to_end_scenario() {
    let lines = lines_of(&["1d6b  Linux Foundation", "\t0003  3.0 root hub"]);
    let db = parse_database(&lines).unwrap();

    let vendor = Vendor::from_id(&db, 0x1d6b).unwrap();
    assert_eq!(vendor.name(), "Linux Foundation");

    let device = Device::from_vid_pid(&db, 0x1d6b, 0x0003).unwrap();
    assert_eq!(device.name(), "3.0 root hub");
}

#[test]
fn test_reparenting() {
    let lines = lines_of(&[
        "AAAA  VendorX",
        "\t0001  Dev1",
        "\t\t00  IfaceA",
        "\t0002  Dev2",
        "\t\t00  IfaceB",
    ]);
    let db = parse_database(&lines).unwrap();

    let dev1 = Device::from_vid_pid(&db, 0xaaaa, 0x0001).unwrap();
    assert_eq!(dev1.interfaces().len(), 1);
    assert_eq!(dev1.interfaces()[0].id(), 0x00);
    assert_eq!(dev1.interfaces()[0].name(), "IfaceA");

    let dev2 = Device::from_vid_pid(&db, 0xaaaa, 0x0002).unwrap();
    assert_eq!(dev2.interfaces().len(), 1);
    assert_eq!(dev2.interfaces()[0].id(), 0x00);
    assert_eq!(dev2.interfaces()[0].name(), "IfaceB");
}

#[test]
fn test_duplicate_vendor_id_is_fatal() {
    let lines = lines_of(&["AAAA  VendorX", "AAAA  VendorY"]);
    let err = parse_database(&lines).unwrap_err();

    assert_eq!(err.kind, ErrorKind::DuplicateId);
    assert_eq!(err.section, SectionKind::Vendors);
    // the collision surfaces when the second record is closed, at end of input
    assert_eq!(err.line_number, 2);
    assert_eq!(err.text, "");
}

#[test]
fn test_duplicate_device_id_is_fatal() {
    let lines = lines_of(&["AAAA  VendorX", "\t0001  Dev1", "\t0001  Dev1 again"]);
    let err = parse_database(&lines).unwrap_err();

    assert_eq!(err.kind, ErrorKind::DuplicateId);
    assert_eq!(err.line_number, 2);
    assert_eq!(err.text, "\t0001  Dev1 again");
}

#[test]
fn test_orphan_child_is_fatal() {
    let lines = lines_of(&["\t0001  Dev1"]);
    let err = parse_database(&lines).unwrap_err();

    assert_eq!(err.kind, ErrorKind::OrphanChild);
    assert_eq!(err.section, SectionKind::Vendors);
    assert_eq!(err.line_number, 0);
    assert_eq!(err.text, "\t0001  Dev1");
}

#[test]
fn test_orphan_grandchild_is_fatal() {
    // a depth-2 line with an open vendor but no device yet has no parent
    let lines = lines_of(&["AAAA  VendorX", "\t\t00  IfaceA"]);
    let err = parse_database(&lines).unwrap_err();

    assert_eq!(err.kind, ErrorKind::OrphanChild);
    assert_eq!(err.line_number, 1);
}

#[test]
fn test_hex_field_width_is_exact() {
    // five digits where four are expected match at no depth
    let lines = lines_of(&["AAAAA  Name"]);
    let err = parse_database(&lines).unwrap_err();
    assert_eq!(err.kind, ErrorKind::NoGrammarMatch);
    assert_eq!(err.line_number, 0);

    // three digits where four are expected fail as well
    let lines = lines_of(&["AAA  Name"]);
    let err = parse_database(&lines).unwrap_err();
    assert_eq!(err.kind, ErrorKind::NoGrammarMatch);

    // a bias id is one digit; two digits do not parse
    let lines = lines_of(&["# BIAS item_bias_type", "BIAS 04  Either Hand"]);
    let err = parse_database(&lines).unwrap_err();
    assert_eq!(err.kind, ErrorKind::NoGrammarMatch);
    assert_eq!(err.section, SectionKind::Biases);
}

#[test]
fn test_section_isolation() {
    let lines = lines_of(&[
        "0003  VendorThree",
        "# C class  subclass  protocol",
        "C 03  Human Interface Device",
    ]);
    let db = parse_database(&lines).unwrap();

    // the same numeric value names different records in different sections
    let vendor = Vendor::from_id(&db, 0x0003).unwrap();
    let class = Class::from_id(&db, 0x03).unwrap();
    assert_eq!(vendor.name(), "VendorThree");
    assert_eq!(class.name(), "Human Interface Device");

    // neither table leaks into the other
    assert_eq!(usb_ids::Vendors::iter(&db).len(), 1);
    assert_eq!(usb_ids::Classes::iter(&db).len(), 1);
}

#[test]
fn test_round_trip_device_order() {
    let lines = lines_of(&[
        "AAAA  VendorX",
        "\t0005  Dev5",
        "\t0001  Dev1",
        "\t0003  Dev3",
    ]);
    let db = parse_database(&lines).unwrap();

    let vendor = Vendor::from_id(&db, 0xaaaa).unwrap();
    let ids: Vec<u16> = vendor.devices().iter().map(|d| d.id()).collect();
    assert_eq!(ids, vec![0x0005, 0x0001, 0x0003]);
    for device in vendor.devices() {
        assert_eq!(device.as_vid_pid().0, vendor.id());
    }
}

#[test]
fn test_name_is_verbatim_suffix() {
    // the name is everything after the two separating spaces, untrimmed
    let lines = lines_of(&["AAAA   padded name ", "BBBB  "]);
    let db = parse_database(&lines).unwrap();

    let vendor = Vendor::from_id(&db, 0xaaaa).unwrap();
    assert_eq!(vendor.name(), " padded name ");

    let vendor = Vendor::from_id(&db, 0xbbbb).unwrap();
    assert_eq!(vendor.name(), "");
}

#[test]
fn test_hex_ids_case_insensitive() {
    let lines = lines_of(&["00aB  MixedCase", "00CD  UpperCase"]);
    let db = parse_database(&lines).unwrap();

    assert_eq!(Vendor::from_id(&db, 0x00ab).unwrap().name(), "MixedCase");
    assert_eq!(Vendor::from_id(&db, 0x00cd).unwrap().name(), "UpperCase");
}

#[test]
fn test_comments_and_blanks_are_skipped() {
    let lines = lines_of(&[
        "# a comment",
        "",
        "1d6b  Linux Foundation",
        "# typo? not a header",
        "\t0002  2.0 root hub",
        "",
    ]);
    let db = parse_database(&lines).unwrap();

    let device = Device::from_vid_pid(&db, 0x1d6b, 0x0002).unwrap();
    assert_eq!(device.name(), "2.0 root hub");
}

#[test]
fn test_unmatched_line_is_fatal() {
    let lines = lines_of(&["1d6b  Linux Foundation", "zzzz not a record"]);
    let err = parse_database(&lines).unwrap_err();

    assert_eq!(err.kind, ErrorKind::NoGrammarMatch);
    assert_eq!(err.line_number, 1);
    assert_eq!(err.text, "zzzz not a record");
}

#[test]
fn test_duplicate_in_leaf_section_at_finalize() {
    let lines = lines_of(&[
        "# AT terminal_type  terminal_type_name",
        "AT 0100  One",
        "AT 0100  One again",
    ]);
    let err = parse_database(&lines).unwrap_err();

    assert_eq!(err.kind, ErrorKind::DuplicateId);
    assert_eq!(err.section, SectionKind::AudioTerminals);
    assert_eq!(err.line_number, 3);
}

#[test]
fn test_header_closes_open_record() {
    let lines = lines_of(&[
        "AAAA  VendorX",
        "\t0001  Dev1",
        "# C class  subclass  protocol",
        "C 03  Human Interface Device",
    ]);
    let db = parse_database(&lines).unwrap();

    // the vendor was flushed with its device by the section switch
    let vendor = Vendor::from_id(&db, 0xaaaa).unwrap();
    assert_eq!(vendor.devices().len(), 1);
    assert!(Class::from_id(&db, 0x03).is_some());
}

#[test]
fn test_lookup_miss_returns_none() {
    let lines = lines_of(&["1d6b  Linux Foundation"]);
    let db = parse_database(&lines).unwrap();

    assert!(Vendor::from_id(&db, 0x0001).is_none());
    assert!(Class::from_id(&db, 0x03).is_none());
    assert!(Device::from_vid_pid(&db, 0x1d6b, 0x9999).is_none());
    assert!(Device::from_vid_pid(&db, 0x9999, 0x0001).is_none());
}

#[test]
fn test_empty_input_yields_empty_tables() {
    let lines: Vec<String> = Vec::new();
    let db = parse_database(&lines).unwrap();

    assert_eq!(usb_ids::Vendors::iter(&db).len(), 0);
    assert_eq!(usb_ids::Classes::iter(&db).len(), 0);
    assert_eq!(db.audio_terminals().len(), 0);
    assert_eq!(db.hids().len(), 0);
    assert_eq!(db.hid_item_types().len(), 0);
    assert_eq!(db.biases().len(), 0);
    assert_eq!(db.phys().len(), 0);
    assert_eq!(usb_ids::HidUsagePages::iter(&db).len(), 0);
    assert_eq!(usb_ids::Languages::iter(&db).len(), 0);
    assert_eq!(db.hid_country_codes().len(), 0);
    assert_eq!(db.video_terminals().len(), 0);
}
