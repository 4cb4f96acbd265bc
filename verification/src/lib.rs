//! A verified compiler and query layer for the USB ID database.
//!
//! The USB ID database is a flat, indentation-structured text file listing
//! USB vendors, devices, classes and several auxiliary enumerations. This
//! crate parses that format into an in-memory forest of records, keyed by
//! numeric id, and offers a read-only query layer over the result. The
//! parser — a context-sensitive line matcher with positional re-parenting —
//! is specified against a mathematical reference machine and verified.

pub mod db;
pub mod grammar;
pub mod laws;
pub mod machine;
pub mod model;
pub mod query;
pub mod records;

pub use db::{parse_database, ParseError, UsbDatabase};
pub use grammar::SectionKind;
pub use machine::Builder;
pub use model::ErrorKind;
pub use query::{Classes, FromId, HidUsagePages, Languages, Vendors};
pub use records::{
    AudioTerminal, Bias, Class, Device, Dialect, Hid, HidCountryCode, HidItemType, HidUsage,
    HidUsagePage, Interface, Language, Phy, Protocol, SubClass, UsbId, UsbIdWithChildren, Vendor,
    VideoTerminal,
};
