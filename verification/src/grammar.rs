//! The line grammar of the USB ID database file.
//!
//! Each of the eleven sections of the file carries records at up to three
//! nesting depths. A record line is: `depth` leading tabs, a section-specific
//! prefix token (top level only), a fixed-width hexadecimal id, exactly two
//! spaces, and the rest of the line verbatim as the record's name.

use vstd::prelude::*;
use vstd::string::StrSliceExecFns;

verus! {

/// The eleven independent top-level sections of the database file.
#[derive(Debug, Clone, Copy, PartialEq, Eq, Structural)]
pub enum SectionKind {
    /// Vendors, with devices and interfaces nested below them.
    Vendors,
    /// Classes, with subclasses and protocols nested below them.
    Classes,
    /// Audio terminal types.
    AudioTerminals,
    /// HID descriptor types.
    Hids,
    /// HID descriptor item types.
    HidItemTypes,
    /// Physical descriptor bias types.
    Biases,
    /// Physical descriptor item types.
    Phys,
    /// HID usage pages, with usages nested below them.
    HidUsagePages,
    /// Languages, with dialects nested below them.
    Languages,
    /// HID descriptor country codes.
    HidCountryCodes,
    /// Video class terminal types.
    VideoTerminals,
}

/// A fixed position for each section's table.
pub open spec fn sec_index(k: SectionKind) -> int {
    match k {
        SectionKind::Vendors => 0,
        SectionKind::Classes => 1,
        SectionKind::AudioTerminals => 2,
        SectionKind::Hids => 3,
        SectionKind::HidItemTypes => 4,
        SectionKind::Biases => 5,
        SectionKind::Phys => 6,
        SectionKind::HidUsagePages => 7,
        SectionKind::Languages => 8,
        SectionKind::HidCountryCodes => 9,
        SectionKind::VideoTerminals => 10,
    }
}

/// The section whose table sits at position `i`; inverse of `sec_index`.
pub open spec fn kind_of_index(i: int) -> SectionKind {
    if i == 0 {
        SectionKind::Vendors
    } else if i == 1 {
        SectionKind::Classes
    } else if i == 2 {
        SectionKind::AudioTerminals
    } else if i == 3 {
        SectionKind::Hids
    } else if i == 4 {
        SectionKind::HidItemTypes
    } else if i == 5 {
        SectionKind::Biases
    } else if i == 6 {
        SectionKind::Phys
    } else if i == 7 {
        SectionKind::HidUsagePages
    } else if i == 8 {
        SectionKind::Languages
    } else if i == 9 {
        SectionKind::HidCountryCodes
    } else {
        SectionKind::VideoTerminals
    }
}

pub proof fn lemma_sec_index_bijective()
    ensures
        forall|k: SectionKind| 0 <= #[trigger] sec_index(k) < 11,
        forall|k: SectionKind| kind_of_index(sec_index(k)) == k,
        forall|i: int| 0 <= i < 11 ==> sec_index(#[trigger] kind_of_index(i)) == i,
{
}

/// Returns the table position of a section.
pub fn sec_index_ex(k: SectionKind) -> (i: usize)
    ensures
        i == sec_index(k),
        i < 11,
{
    match k {
        SectionKind::Vendors => 0,
        SectionKind::Classes => 1,
        SectionKind::AudioTerminals => 2,
        SectionKind::Hids => 3,
        SectionKind::HidItemTypes => 4,
        SectionKind::Biases => 5,
        SectionKind::Phys => 6,
        SectionKind::HidUsagePages => 7,
        SectionKind::Languages => 8,
        SectionKind::HidCountryCodes => 9,
        SectionKind::VideoTerminals => 10,
    }
}

/// The prefix token that opens a top-level record line of the section.
/// The vendor section has none: its lines start directly with the hex id.
pub open spec fn sec_prefix(k: SectionKind) -> Seq<char> {
    match k {
        SectionKind::Vendors => Seq::<char>::empty(),
        SectionKind::Classes => "C "@,
        SectionKind::AudioTerminals => "AT "@,
        SectionKind::Hids => "HID "@,
        SectionKind::HidItemTypes => "R "@,
        SectionKind::Biases => "BIAS "@,
        SectionKind::Phys => "PHY "@,
        SectionKind::HidUsagePages => "HUT "@,
        SectionKind::Languages => "L "@,
        SectionKind::HidCountryCodes => "HCC "@,
        SectionKind::VideoTerminals => "VT "@,
    }
}

/// Returns the section's prefix token.
pub fn sec_prefix_ex(k: SectionKind) -> (r: &'static str)
    ensures
        r@ == sec_prefix(k),
        r@.len() <= 5,
{
    proof {
        reveal_strlit("");
        reveal_strlit("C ");
        reveal_strlit("AT ");
        reveal_strlit("HID ");
        reveal_strlit("R ");
        reveal_strlit("BIAS ");
        reveal_strlit("PHY ");
        reveal_strlit("HUT ");
        reveal_strlit("L ");
        reveal_strlit("HCC ");
        reveal_strlit("VT ");
    }
    match k {
        SectionKind::Vendors => "",
        SectionKind::Classes => "C ",
        SectionKind::AudioTerminals => "AT ",
        SectionKind::Hids => "HID ",
        SectionKind::HidItemTypes => "R ",
        SectionKind::Biases => "BIAS ",
        SectionKind::Phys => "PHY ",
        SectionKind::HidUsagePages => "HUT ",
        SectionKind::Languages => "L ",
        SectionKind::HidCountryCodes => "HCC ",
        SectionKind::VideoTerminals => "VT ",
    }
}

/// The hex width of a top-level record id in the section.
pub open spec fn sec_width0(k: SectionKind) -> int {
    match k {
        SectionKind::Vendors => 4,
        SectionKind::Classes => 2,
        SectionKind::AudioTerminals => 4,
        SectionKind::Hids => 2,
        SectionKind::HidItemTypes => 2,
        SectionKind::Biases => 1,
        SectionKind::Phys => 2,
        SectionKind::HidUsagePages => 2,
        SectionKind::Languages => 4,
        SectionKind::HidCountryCodes => 2,
        SectionKind::VideoTerminals => 4,
    }
}

/// Returns the hex width of a top-level record id in the section.
pub fn sec_width0_ex(k: SectionKind) -> (w: usize)
    ensures
        w == sec_width0(k),
{
    match k {
        SectionKind::Vendors => 4,
        SectionKind::Classes => 2,
        SectionKind::AudioTerminals => 4,
        SectionKind::Hids => 2,
        SectionKind::HidItemTypes => 2,
        SectionKind::Biases => 1,
        SectionKind::Phys => 2,
        SectionKind::HidUsagePages => 2,
        SectionKind::Languages => 4,
        SectionKind::HidCountryCodes => 2,
        SectionKind::VideoTerminals => 4,
    }
}

/// How deep records nest in the section: 0 (flat), 1 (children), or
/// 2 (children and grandchildren).
pub open spec fn sec_depth(k: SectionKind) -> int {
    match k {
        SectionKind::Vendors => 2,
        SectionKind::Classes => 2,
        SectionKind::HidUsagePages => 1,
        SectionKind::Languages => 1,
        _ => 0,
    }
}

/// Returns how deep records nest in the section.
pub fn sec_depth_ex(k: SectionKind) -> (d: usize)
    ensures
        d == sec_depth(k),
{
    match k {
        SectionKind::Vendors => 2,
        SectionKind::Classes => 2,
        SectionKind::HidUsagePages => 1,
        SectionKind::Languages => 1,
        _ => 0,
    }
}

/// The hex width of a depth-1 record id in the section.
pub open spec fn sec_width1(k: SectionKind) -> int {
    match k {
        SectionKind::Vendors => 4,
        SectionKind::Classes => 2,
        SectionKind::HidUsagePages => 3,
        SectionKind::Languages => 2,
        _ => 0,
    }
}

/// Returns the hex width of a depth-1 record id in the section.
pub fn sec_width1_ex(k: SectionKind) -> (w: usize)
    ensures
        w == sec_width1(k),
{
    match k {
        SectionKind::Vendors => 4,
        SectionKind::Classes => 2,
        SectionKind::HidUsagePages => 3,
        SectionKind::Languages => 2,
        _ => 0,
    }
}

/// The hex width of a depth-2 record id in the section.
pub open spec fn sec_width2(k: SectionKind) -> int {
    match k {
        SectionKind::Vendors => 2,
        SectionKind::Classes => 2,
        _ => 0,
    }
}

/// Returns the hex width of a depth-2 record id in the section.
pub fn sec_width2_ex(k: SectionKind) -> (w: usize)
    ensures
        w == sec_width2(k),
{
    match k {
        SectionKind::Vendors => 2,
        SectionKind::Classes => 2,
        _ => 0,
    }
}

/// Whether `c` is an ASCII hexadecimal digit (case-insensitive).
pub open spec fn is_hex_digit(c: char) -> bool {
    ||| ('0' as u32) <= (c as u32) && (c as u32) <= ('9' as u32)
    ||| ('a' as u32) <= (c as u32) && (c as u32) <= ('f' as u32)
    ||| ('A' as u32) <= (c as u32) && (c as u32) <= ('F' as u32)
}

/// The numeric value of one hex digit.
pub open spec fn hex_digit_val(c: char) -> int {
    if ('0' as u32) <= (c as u32) && (c as u32) <= ('9' as u32) {
        c as u32 - '0' as u32
    } else if ('a' as u32) <= (c as u32) && (c as u32) <= ('f' as u32) {
        c as u32 - 'a' as u32 + 10
    } else if ('A' as u32) <= (c as u32) && (c as u32) <= ('F' as u32) {
        c as u32 - 'A' as u32 + 10
    } else {
        0
    }
}

/// The value of a big-endian sequence of hex digits.
pub open spec fn hex_seq_val(s: Seq<char>) -> int
    decreases s.len(),
{
    if s.len() == 0 {
        0
    } else {
        16 * hex_seq_val(s.drop_last()) + hex_digit_val(s.last())
    }
}

/// `16^n`.
pub open spec fn pow16(n: int) -> int
    decreases n,
{
    if n <= 0 {
        1
    } else {
        16 * pow16(n - 1)
    }
}

/// The value of a hex digit sequence is bounded by `16^len`.
pub proof fn lemma_hex_seq_val_bound(s: Seq<char>)
    ensures
        0 <= hex_seq_val(s) < pow16(s.len() as int),
    decreases s.len(),
{
    if s.len() > 0 {
        lemma_hex_seq_val_bound(s.drop_last());
    }
}

/// Whether `line` is a record line: `tabs` leading tabs, then `prefix`,
/// then exactly `width` hex digits, then two spaces, then the name.
pub open spec fn record_matches(line: Seq<char>, tabs: int, prefix: Seq<char>, width: int) -> bool {
    let head = tabs + prefix.len();
    &&& line.len() >= head + width + 2
    &&& forall|j: int| 0 <= j < tabs ==> #[trigger] line[j] == '\t'
    &&& forall|j: int| tabs <= j < head ==> #[trigger] line[j] == prefix[j - tabs]
    &&& forall|j: int| head <= j < head + width ==> is_hex_digit(#[trigger] line[j])
    &&& line[head + width] == ' '
    &&& line[head + width + 1] == ' '
}

/// The numeric id of a matching record line.
pub open spec fn record_id(line: Seq<char>, tabs: int, prefix: Seq<char>, width: int) -> int {
    let head = tabs + prefix.len();
    hex_seq_val(line.subrange(head, head + width))
}

/// The name of a matching record line: everything after the two spaces,
/// verbatim.
pub open spec fn record_name(line: Seq<char>, tabs: int, prefix: Seq<char>, width: int) -> Seq<
    char,
> {
    let head = tabs + prefix.len();
    line.subrange(head + width + 2, line.len() as int)
}

/// Parses one record line against a grammar descriptor. Returns the id and
/// the name on a match, and `None` where the line does not fit the grammar;
/// a non-match is not an error, so that several depths can be tried in turn.
pub fn parse_record(line: &str, tabs: usize, prefix: &str, width: usize) -> (r: Option<
    (u16, String),
>)
    requires
        tabs <= 2,
        prefix@.len() <= 5,
        1 <= width <= 4,
    ensures
        match r {
            Some(p) => {
                &&& record_matches(line@, tabs as int, prefix@, width as int)
                &&& p.0 as int == record_id(line@, tabs as int, prefix@, width as int)
                &&& p.1@ == record_name(line@, tabs as int, prefix@, width as int)
            },
            None => !record_matches(line@, tabs as int, prefix@, width as int),
        },
{
    let n = line.unicode_len();
    let plen = prefix.unicode_len();
    let head = tabs + plen;
    if n < head + width + 2 {
        return None;
    }
    let mut j: usize = 0;
    while j < tabs
        invariant
            j <= tabs,
            tabs + width + 2 <= n == line@.len(),
            forall|i: int| 0 <= i < j ==> #[trigger] line@[i] == '\t',
        decreases tabs - j,
    {
        if line.get_char(j) != '\t' {
            return None;
        }
        j += 1;
    }
    let mut j: usize = 0;
    while j < plen
        invariant
            j <= plen == prefix@.len(),
            tabs + plen + width + 2 <= n == line@.len(),
            forall|i: int| tabs <= i < tabs + j ==> #[trigger] line@[i] == prefix@[i - tabs],
        decreases plen - j,
    {
        if line.get_char(tabs + j) != prefix.get_char(j) {
            return None;
        }
        j += 1;
    }
    let mut acc: u16 = 0;
    let mut j: usize = 0;
    while j < width
        invariant
            j <= width <= 4,
            head == tabs + prefix@.len(),
            head + width + 2 <= n == line@.len(),
            forall|i: int| head <= i < head + j ==> is_hex_digit(#[trigger] line@[i]),
            acc as int == hex_seq_val(line@.subrange(head as int, head + j)),
            (acc as int) < pow16(j as int),
        decreases width - j,
    {
        let c = line.get_char(head + j);
        let u = c as u32;
        let v: u16 = if 48 <= u && u <= 57 {
            (u - 48) as u16
        } else if 97 <= u && u <= 102 {
            (u - 97 + 10) as u16
        } else if 65 <= u && u <= 70 {
            (u - 65 + 10) as u16
        } else {
            return None;
        };
        proof {
            assert(line@.subrange(head as int, head + j + 1).drop_last() == line@.subrange(
                head as int,
                head + j,
            ));
            assert(line@.subrange(head as int, head + j + 1).last() == c);
            assert(pow16(0) == 1);
            assert(pow16(1) == 16);
            assert(pow16(2) == 256);
            assert(pow16(3) == 4096);
            assert(j == 0 || j == 1 || j == 2 || j == 3);
        }
        acc = acc * 16 + v;
        j += 1;
    }
    if line.get_char(head + width) != ' ' {
        return None;
    }
    if line.get_char(head + width + 1) != ' ' {
        return None;
    }
    let name = line.substring_char(head + width + 2, n).to_owned();
    Some((acc, name))
}

/// Recognizes the fixed set of section-header comment lines by their first
/// seven characters; any other line, `#`-comment lines included, is no
/// header.
pub open spec fn header_kind(line: Seq<char>) -> Option<SectionKind> {
    if line.len() < 7 || line[0] != '#' || line[1] != ' ' {
        None
    } else if line[2] == 'C' && line[3] == ' ' && line[4] == 'c' && line[5] == 'l' && line[6]
        == 'a' {
        Some(SectionKind::Classes)
    } else if line[2] == 'A' && line[3] == 'T' && line[4] == ' ' && line[5] == 't' && line[6]
        == 'e' {
        Some(SectionKind::AudioTerminals)
    } else if line[2] == 'H' && line[3] == 'I' && line[4] == 'D' && line[5] == ' ' && line[6]
        == 'd' {
        Some(SectionKind::Hids)
    } else if line[2] == 'R' && line[3] == ' ' && line[4] == 'i' && line[5] == 't' && line[6]
        == 'e' {
        Some(SectionKind::HidItemTypes)
    } else if line[2] == 'B' && line[3] == 'I' && line[4] == 'A' && line[5] == 'S' && line[6]
        == ' ' {
        Some(SectionKind::Biases)
    } else if line[2] == 'P' && line[3] == 'H' && line[4] == 'Y' && line[5] == ' ' && line[6]
        == 'i' {
        Some(SectionKind::Phys)
    } else if line[2] == 'H' && line[3] == 'U' && line[4] == 'T' && line[5] == ' ' && line[6]
        == 'h' {
        Some(SectionKind::HidUsagePages)
    } else if line[2] == 'L' && line[3] == ' ' && line[4] == 'l' && line[5] == 'a' && line[6]
        == 'n' {
        Some(SectionKind::Languages)
    } else if line[2] == 'H' && line[3] == 'C' && line[4] == 'C' && line[5] == ' ' && line[6]
        == 'c' {
        Some(SectionKind::HidCountryCodes)
    } else if line[2] == 'V' && line[3] == 'T' && line[4] == ' ' && line[5] == 't' && line[6]
        == 'e' {
        Some(SectionKind::VideoTerminals)
    } else {
        None
    }
}

/// Tests a line against the known section headers.
pub fn match_header(line: &str) -> (r: Option<SectionKind>)
    ensures
        r == header_kind(line@),
{
    let n = line.unicode_len();
    if n < 7 {
        return None;
    }
    if line.get_char(0) != '#' || line.get_char(1) != ' ' {
        return None;
    }
    let c2 = line.get_char(2);
    let c3 = line.get_char(3);
    let c4 = line.get_char(4);
    let c5 = line.get_char(5);
    let c6 = line.get_char(6);
    if c2 == 'C' && c3 == ' ' && c4 == 'c' && c5 == 'l' && c6 == 'a' {
        Some(SectionKind::Classes)
    } else if c2 == 'A' && c3 == 'T' && c4 == ' ' && c5 == 't' && c6 == 'e' {
        Some(SectionKind::AudioTerminals)
    } else if c2 == 'H' && c3 == 'I' && c4 == 'D' && c5 == ' ' && c6 == 'd' {
        Some(SectionKind::Hids)
    } else if c2 == 'R' && c3 == ' ' && c4 == 'i' && c5 == 't' && c6 == 'e' {
        Some(SectionKind::HidItemTypes)
    } else if c2 == 'B' && c3 == 'I' && c4 == 'A' && c5 == 'S' && c6 == ' ' {
        Some(SectionKind::Biases)
    } else if c2 == 'P' && c3 == 'H' && c4 == 'Y' && c5 == ' ' && c6 == 'i' {
        Some(SectionKind::Phys)
    } else if c2 == 'H' && c3 == 'U' && c4 == 'T' && c5 == ' ' && c6 == 'h' {
        Some(SectionKind::HidUsagePages)
    } else if c2 == 'L' && c3 == ' ' && c4 == 'l' && c5 == 'a' && c6 == 'n' {
        Some(SectionKind::Languages)
    } else if c2 == 'H' && c3 == 'C' && c4 == 'C' && c5 == ' ' && c6 == 'c' {
        Some(SectionKind::HidCountryCodes)
    } else if c2 == 'V' && c3 == 'T' && c4 == ' ' && c5 == 't' && c6 == 'e' {
        Some(SectionKind::VideoTerminals)
    } else {
        None
    }
}

/// Whether the line is skipped outright: blank, or a comment that is no
/// section header.
pub open spec fn is_skipped(line: Seq<char>) -> bool {
    line.len() == 0 || line[0] == '#'
}

/// Tests whether the line is blank or a comment.
pub fn is_skipped_ex(line: &str) -> (r: bool)
    ensures
        r == is_skipped(line@),
{
    let n = line.unicode_len();
    n == 0 || line.get_char(0) == '#'
}

} // verus!
