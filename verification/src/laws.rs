//! Laws of the compiler, stated and proved against the reference machine.
//!
//! Each theorem here is a property of every input, not of chosen values:
//! name provenance, insertion order, re-parenting, fatality of duplicate and
//! orphan records, exactness of the hex field width, and section isolation.

use vstd::prelude::*;

use crate::db::{spec_db_of, spec_vendor_of};
use crate::grammar::{
    header_kind, is_hex_digit, is_skipped, kind_of_index, record_id, record_matches, record_name,
    sec_depth, sec_index, sec_prefix, sec_width0, sec_width1, sec_width2, SectionKind,
};
use crate::model::{
    child_idx, lemma_child_idx, spec_flush, spec_init, spec_parse, spec_run, spec_step,
    table_has_id, ErrorKind, SpecChild, SpecLeaf, SpecMachine, SpecRecord,
};

verus! {

/// The record's id and name are those of some top-level record line of the
/// input, read under section `k`'s grammar: the name is the substring after
/// the id field and the two spaces, verbatim.
pub open spec fn record_originates(lines: Seq<Seq<char>>, k: SectionKind, r: SpecRecord) -> bool {
    exists|l: int|
        0 <= l < lines.len() && #[trigger] record_matches(
            lines[l],
            0,
            sec_prefix(k),
            sec_width0(k),
        ) && r.id == record_id(lines[l], 0, sec_prefix(k), sec_width0(k)) && r.name == record_name(
            lines[l],
            0,
            sec_prefix(k),
            sec_width0(k),
        )
}

/// Every record the machine holds, stored or still open, originates from one
/// of the lines already seen.
pub open spec fn machine_originates(m: SpecMachine, lines: Seq<Seq<char>>) -> bool {
    &&& forall|t: int, i: int|
        0 <= t < m.tables.len() && 0 <= i < m.tables[t].len() ==> record_originates(
            lines,
            kind_of_index(t),
            #[trigger] m.tables[t][i],
        )
    &&& m.open_rec matches Some(r) ==> record_originates(lines, m.section, r)
}

proof fn lemma_originates_mono(m: SpecMachine, lines: Seq<Seq<char>>, line: Seq<char>)
    requires
        machine_originates(m, lines),
    ensures
        machine_originates(m, lines.push(line)),
{
    assert forall|t: int, i: int|
        0 <= t < m.tables.len() && 0 <= i < m.tables[t].len() implies record_originates(
        lines.push(line),
        kind_of_index(t),
        #[trigger] m.tables[t][i],
    ) by {
        let l = choose|l: int|
            0 <= l < lines.len() && #[trigger] record_matches(
                lines[l],
                0,
                sec_prefix(kind_of_index(t)),
                sec_width0(kind_of_index(t)),
            ) && m.tables[t][i].id == record_id(
                lines[l],
                0,
                sec_prefix(kind_of_index(t)),
                sec_width0(kind_of_index(t)),
            ) && m.tables[t][i].name == record_name(
                lines[l],
                0,
                sec_prefix(kind_of_index(t)),
                sec_width0(kind_of_index(t)),
            );
        assert(lines.push(line)[l] == lines[l]);
    }
    if let Some(r) = m.open_rec {
        let l = choose|l: int|
            0 <= l < lines.len() && #[trigger] record_matches(
                lines[l],
                0,
                sec_prefix(m.section),
                sec_width0(m.section),
            ) && r.id == record_id(lines[l], 0, sec_prefix(m.section), sec_width0(m.section))
                && r.name == record_name(lines[l], 0, sec_prefix(m.section), sec_width0(m.section));
        assert(lines.push(line)[l] == lines[l]);
    }
}

proof fn lemma_flush_originates(m: SpecMachine, lines: Seq<Seq<char>>)
    requires
        m.tables.len() == 11,
        machine_originates(m, lines),
    ensures
        spec_flush(m) matches Ok(m2) ==> machine_originates(m2, lines),
{
    if let Some(r) = m.open_rec {
        let ti = sec_index(m.section);
        crate::grammar::lemma_sec_index_bijective();
        if !table_has_id(m.tables[ti], r.id) {
            let m2 = spec_flush(m)->Ok_0;
            assert forall|t: int, i: int|
                0 <= t < m2.tables.len() && 0 <= i < m2.tables[t].len() implies record_originates(
                lines,
                kind_of_index(t),
                #[trigger] m2.tables[t][i],
            ) by {
                if t == ti && i == m2.tables[t].len() - 1 {
                    assert(m2.tables[t][i] == r);
                    assert(kind_of_index(ti) == m.section);
                } else {
                    assert(m2.tables[t][i] == m.tables[t][i]);
                }
            }
        }
    }
}

proof fn lemma_step_originates(m: SpecMachine, line: Seq<char>, lines: Seq<Seq<char>>)
    requires
        m.tables.len() == 11,
        machine_originates(m, lines),
    ensures
        spec_step(m, line) matches Ok(m2) ==> machine_originates(m2, lines.push(line)),
{
    lemma_originates_mono(m, lines, line);
    lemma_flush_originates(m, lines);
    if let Ok(mf) = spec_flush(m) {
        lemma_originates_mono(mf, lines, line);
    }
    let ext = lines.push(line);
    if header_kind(line) is Some {
    } else if is_skipped(line) {
    } else if record_matches(line, 0, sec_prefix(m.section), sec_width0(m.section)) {
        if let Ok(m2) = spec_step(m, line) {
            let r2 = m2.open_rec->Some_0;
            assert(ext[lines.len() as int] == line);
            assert(record_originates(ext, m2.section, r2));
        }
    } else if sec_depth(m.section) >= 1 && record_matches(
        line,
        1,
        Seq::empty(),
        sec_width1(m.section),
    ) {
        if let Ok(m2) = spec_step(m, line) {
            let r = m.open_rec->Some_0;
            let r2 = m2.open_rec->Some_0;
            assert(r2.id == r.id && r2.name == r.name);
            assert(record_originates(ext, m.section, r));
            assert(record_originates(ext, m2.section, r2));
        }
    } else if sec_depth(m.section) >= 2 && record_matches(
        line,
        2,
        Seq::empty(),
        sec_width2(m.section),
    ) {
        if let Ok(m2) = spec_step(m, line) {
            let r = m.open_rec->Some_0;
            let r2 = m2.open_rec->Some_0;
            assert(r2.id == r.id && r2.name == r.name);
            assert(record_originates(ext, m.section, r));
            assert(record_originates(ext, m2.section, r2));
        }
    }
}

proof fn lemma_run_originates(m: SpecMachine, lines: Seq<Seq<char>>, seen: Seq<Seq<char>>)
    requires
        m.tables.len() == 11,
        machine_originates(m, seen),
        spec_run(m, lines) is Ok,
    ensures
        spec_run(m, lines)->Ok_0.tables.len() == 11,
        machine_originates(spec_run(m, lines)->Ok_0, seen + lines),
    decreases lines.len(),
{
    if lines.len() == 0 {
        assert(seen + lines =~= seen);
    } else {
        lemma_step_originates(m, lines[0], seen);
        let m2 = spec_step(m, lines[0])->Ok_0;
        assert(m2.tables.len() == 11);
        lemma_run_originates(m2, lines.drop_first(), seen.push(lines[0]));
        assert(seen.push(lines[0]) + lines.drop_first() =~= seen + lines);
    }
}

/// Name provenance: after a successful compile, every record of every
/// section's table carries the id of some top-level record line of the
/// input, and, verbatim and unmodified, the name that follows that line's id
/// field and two spaces. Looking a stored id up therefore returns a record
/// whose name is that substring of its original line.
pub proof fn theorem_record_names_from_lines(lines: Seq<Seq<char>>)
    requires
        spec_parse(lines) is Ok,
    ensures
        ({
            let tables = spec_parse(lines)->Ok_0;
            forall|t: int, i: int|
                0 <= t < 11 && 0 <= i < tables[t].len() ==> record_originates(
                    lines,
                    kind_of_index(t),
                    #[trigger] tables[t][i],
                )
        }),
{
    let m0 = spec_init();
    assert(machine_originates(m0, Seq::<Seq<char>>::empty()));
    lemma_run_originates(m0, lines, Seq::<Seq<char>>::empty());
    let mr = spec_run(m0, lines)->Ok_0;
    assert(Seq::<Seq<char>>::empty() + lines =~= lines);
    assert(machine_originates(mr, lines));
    lemma_flush_originates(mr, lines);
    let m2 = spec_flush(mr)->Ok_0;
    assert(machine_originates(m2, lines));
    assert(m2.tables.len() == 11);
    assert(spec_parse(lines)->Ok_0 == m2.tables);
}

/// The vendor's id and name are those of some vendor record line of the
/// input: the name is the substring after the four-digit id field and the
/// two spaces, verbatim.
pub open spec fn vendor_originates(lines: Seq<Seq<char>>, v: crate::records::SpecVendor) -> bool {
    exists|l: int|
        0 <= l < lines.len() && #[trigger] record_matches(
            lines[l],
            0,
            sec_prefix(SectionKind::Vendors),
            sec_width0(SectionKind::Vendors),
        ) && v.id == record_id(lines[l], 0, sec_prefix(SectionKind::Vendors), sec_width0(SectionKind::Vendors))
            && v.name == record_name(
            lines[l],
            0,
            sec_prefix(SectionKind::Vendors),
            sec_width0(SectionKind::Vendors),
        )
}

/// Name provenance carried to the typed vendor table: each compiled vendor's
/// id and name come from a vendor line of the input, the name verbatim.
pub proof fn theorem_vendor_names_from_lines(lines: Seq<Seq<char>>)
    requires
        spec_parse(lines) is Ok,
    ensures
        ({
            let d = spec_db_of(spec_parse(lines)->Ok_0);
            forall|i: int|
                0 <= i < d.vendors.len() ==> vendor_originates(lines, #[trigger] d.vendors[i])
        }),
{
    theorem_record_names_from_lines(lines);
    let tables = spec_parse(lines)->Ok_0;
    crate::model::lemma_parse_tables_wf(lines);
    let d = spec_db_of(tables);
    assert(crate::grammar::pow16(0) == 1);
    assert(crate::grammar::pow16(1) == 16);
    assert(crate::grammar::pow16(2) == 256);
    assert(crate::grammar::pow16(3) == 4096);
    assert(crate::grammar::pow16(4) == 65536);
    assert forall|i: int| 0 <= i < d.vendors.len() implies vendor_originates(
        lines,
        #[trigger] d.vendors[i],
    ) by {
        assert(record_originates(lines, kind_of_index(0), tables[0][i]));
        assert(crate::model::record_wf(tables[0][i], kind_of_index(0)));
        assert(d.vendors[i] == spec_vendor_of(tables[0][i]));
        let l = choose|l: int|
            0 <= l < lines.len() && #[trigger] record_matches(
                lines[l],
                0,
                sec_prefix(SectionKind::Vendors),
                sec_width0(SectionKind::Vendors),
            ) && tables[0][i].id == record_id(
                lines[l],
                0,
                sec_prefix(SectionKind::Vendors),
                sec_width0(SectionKind::Vendors),
            ) && tables[0][i].name == record_name(
                lines[l],
                0,
                sec_prefix(SectionKind::Vendors),
                sec_width0(SectionKind::Vendors),
            );
        assert(tables[0][i].id < crate::grammar::pow16(4));
        assert(d.vendors[i].id == tables[0][i].id);
        assert(0 <= l < lines.len() && record_matches(
            lines[l],
            0,
            sec_prefix(SectionKind::Vendors),
            sec_width0(SectionKind::Vendors),
        ) && d.vendors[i].id == record_id(
            lines[l],
            0,
            sec_prefix(SectionKind::Vendors),
            sec_width0(SectionKind::Vendors),
        ) && d.vendors[i].name == record_name(
            lines[l],
            0,
            sec_prefix(SectionKind::Vendors),
            sec_width0(SectionKind::Vendors),
        ));
    }
}

/// The child's id and name are those of some depth-1 record line of the
/// input, read under section `k`'s grammar: the name is the substring after
/// the id field and the two spaces, verbatim.
pub open spec fn child_originates(lines: Seq<Seq<char>>, k: SectionKind, c: SpecChild) -> bool {
    exists|l: int|
        0 <= l < lines.len() && #[trigger] record_matches(
            lines[l],
            1,
            Seq::empty(),
            sec_width1(k),
        ) && c.id == record_id(lines[l], 1, Seq::empty(), sec_width1(k)) && c.name == record_name(
            lines[l],
            1,
            Seq::empty(),
            sec_width1(k),
        )
}

/// Every child of every record the machine holds originates from one of the
/// lines already seen.
pub open spec fn machine_children_originate(m: SpecMachine, lines: Seq<Seq<char>>) -> bool {
    &&& forall|t: int, i: int, j: int|
        0 <= t < m.tables.len() && 0 <= i < m.tables[t].len() && 0 <= j
            < m.tables[t][i].children.len() ==> child_originates(
            lines,
            kind_of_index(t),
            #[trigger] m.tables[t][i].children[j],
        )
    &&& m.open_rec matches Some(r) ==> forall|j: int|
        0 <= j < r.children.len() ==> child_originates(lines, m.section, #[trigger] r.children[j])
}

proof fn lemma_children_originate_mono(m: SpecMachine, lines: Seq<Seq<char>>, line: Seq<char>)
    requires
        machine_children_originate(m, lines),
    ensures
        machine_children_originate(m, lines.push(line)),
{
    assert forall|t: int, i: int, j: int|
        0 <= t < m.tables.len() && 0 <= i < m.tables[t].len() && 0 <= j
            < m.tables[t][i].children.len() implies child_originates(
        lines.push(line),
        kind_of_index(t),
        #[trigger] m.tables[t][i].children[j],
    ) by {
        let k = kind_of_index(t);
        let c = m.tables[t][i].children[j];
        let l = choose|l: int|
            0 <= l < lines.len() && #[trigger] record_matches(lines[l], 1, Seq::empty(), sec_width1(k))
                && c.id == record_id(lines[l], 1, Seq::empty(), sec_width1(k)) && c.name
                == record_name(lines[l], 1, Seq::empty(), sec_width1(k));
        assert(lines.push(line)[l] == lines[l]);
    }
    if let Some(r) = m.open_rec {
        assert forall|j: int| 0 <= j < r.children.len() implies child_originates(
            lines.push(line),
            m.section,
            #[trigger] r.children[j],
        ) by {
            let c = r.children[j];
            let l = choose|l: int|
                0 <= l < lines.len() && #[trigger] record_matches(
                    lines[l],
                    1,
                    Seq::empty(),
                    sec_width1(m.section),
                ) && c.id == record_id(lines[l], 1, Seq::empty(), sec_width1(m.section)) && c.name
                    == record_name(lines[l], 1, Seq::empty(), sec_width1(m.section));
            assert(lines.push(line)[l] == lines[l]);
        }
    }
}

proof fn lemma_flush_children_originate(m: SpecMachine, lines: Seq<Seq<char>>)
    requires
        m.tables.len() == 11,
        machine_children_originate(m, lines),
    ensures
        spec_flush(m) matches Ok(m2) ==> machine_children_originate(m2, lines),
{
    if let Some(r) = m.open_rec {
        let ti = sec_index(m.section);
        crate::grammar::lemma_sec_index_bijective();
        if !table_has_id(m.tables[ti], r.id) {
            let m2 = spec_flush(m)->Ok_0;
            assert forall|t: int, i: int, j: int|
                0 <= t < m2.tables.len() && 0 <= i < m2.tables[t].len() && 0 <= j
                    < m2.tables[t][i].children.len() implies child_originates(
                lines,
                kind_of_index(t),
                #[trigger] m2.tables[t][i].children[j],
            ) by {
                if t == ti && i == m2.tables[t].len() - 1 {
                    assert(m2.tables[t][i] == r);
                    assert(kind_of_index(ti) == m.section);
                } else {
                    assert(m2.tables[t][i] == m.tables[t][i]);
                }
            }
        }
    }
}

proof fn lemma_step_children_originate(m: SpecMachine, line: Seq<char>, lines: Seq<Seq<char>>)
    requires
        m.tables.len() == 11,
        machine_children_originate(m, lines),
    ensures
        spec_step(m, line) matches Ok(m2) ==> machine_children_originate(m2, lines.push(line)),
{
    lemma_children_originate_mono(m, lines, line);
    lemma_flush_children_originate(m, lines);
    if let Ok(mf) = spec_flush(m) {
        lemma_children_originate_mono(mf, lines, line);
    }
    let ext = lines.push(line);
    if header_kind(line) is Some {
    } else if is_skipped(line) {
    } else if record_matches(line, 0, sec_prefix(m.section), sec_width0(m.section)) {
        if let Ok(m2) = spec_step(m, line) {
            let r2 = m2.open_rec->Some_0;
            assert(r2.children.len() == 0);
        }
    } else if sec_depth(m.section) >= 1 && record_matches(
        line,
        1,
        Seq::empty(),
        sec_width1(m.section),
    ) {
        if let Ok(m2) = spec_step(m, line) {
            let r = m.open_rec->Some_0;
            let r2 = m2.open_rec->Some_0;
            assert(ext[lines.len() as int] == line);
            assert forall|j: int| 0 <= j < r2.children.len() implies child_originates(
                ext,
                m2.section,
                #[trigger] r2.children[j],
            ) by {
                if j == r2.children.len() - 1 {
                    assert(r2.children[j].id == record_id(line, 1, Seq::empty(), sec_width1(m.section)));
                } else {
                    assert(r2.children[j] == r.children[j]);
                    assert(child_originates(ext, m.section, r.children[j]));
                }
            }
        }
    } else if sec_depth(m.section) >= 2 && record_matches(
        line,
        2,
        Seq::empty(),
        sec_width2(m.section),
    ) {
        if let Ok(m2) = spec_step(m, line) {
            let r = m.open_rec->Some_0;
            let r2 = m2.open_rec->Some_0;
            let cid = m.last_child->Some_0;
            let ci = child_idx(r.children, cid);
            assert(m.open_rec is Some);
            lemma_child_idx(r.children, cid);
            assert forall|j: int| 0 <= j < r2.children.len() implies child_originates(
                ext,
                m2.section,
                #[trigger] r2.children[j],
            ) by {
                assert(r2.children.len() == r.children.len());
                assert(child_originates(ext, m.section, r.children[j]));
                if j == ci {
                    assert(r2.children[j].id == r.children[ci].id);
                    assert(r2.children[j].name == r.children[ci].name);
                } else {
                    assert(r2.children[j] == r.children[j]);
                }
            }
        }
    }
}

proof fn lemma_run_children_originate(m: SpecMachine, lines: Seq<Seq<char>>, seen: Seq<Seq<char>>)
    requires
        m.tables.len() == 11,
        machine_children_originate(m, seen),
        spec_run(m, lines) is Ok,
    ensures
        spec_run(m, lines)->Ok_0.tables.len() == 11,
        machine_children_originate(spec_run(m, lines)->Ok_0, seen + lines),
    decreases lines.len(),
{
    if lines.len() == 0 {
        assert(seen + lines =~= seen);
    } else {
        lemma_step_children_originate(m, lines[0], seen);
        let m2 = spec_step(m, lines[0])->Ok_0;
        assert(m2.tables.len() == 11);
        lemma_run_children_originate(m2, lines.drop_first(), seen.push(lines[0]));
        assert(seen.push(lines[0]) + lines.drop_first() =~= seen + lines);
    }
}

/// Name provenance one level down: after a successful compile, every child
/// of every stored record — a device, a subclass, a usage, a dialect —
/// carries the id of some depth-1 record line of the input and, verbatim,
/// the name that follows that line's id field and two spaces.
pub proof fn theorem_child_names_from_lines(lines: Seq<Seq<char>>)
    requires
        spec_parse(lines) is Ok,
    ensures
        ({
            let tables = spec_parse(lines)->Ok_0;
            forall|t: int, i: int, j: int|
                0 <= t < 11 && 0 <= i < tables[t].len() && 0 <= j < tables[t][i].children.len()
                    ==> child_originates(
                    lines,
                    kind_of_index(t),
                    #[trigger] tables[t][i].children[j],
                )
        }),
{
    let m0 = spec_init();
    assert(machine_children_originate(m0, Seq::<Seq<char>>::empty()));
    lemma_run_children_originate(m0, lines, Seq::<Seq<char>>::empty());
    let mr = spec_run(m0, lines)->Ok_0;
    assert(Seq::<Seq<char>>::empty() + lines =~= lines);
    assert(machine_children_originate(mr, lines));
    lemma_flush_children_originate(mr, lines);
    let m2 = spec_flush(mr)->Ok_0;
    assert(machine_children_originate(m2, lines));
    assert(m2.tables.len() == 11);
    assert(spec_parse(lines)->Ok_0 == m2.tables);
}

/// The device's id and name are those of some depth-1 record line of the
/// vendor section: four hex digits after one tab, two spaces, then the name,
/// verbatim.
pub open spec fn device_originates(lines: Seq<Seq<char>>, d: crate::records::SpecDevice) -> bool {
    exists|l: int|
        0 <= l < lines.len() && #[trigger] record_matches(
            lines[l],
            1,
            Seq::empty(),
            sec_width1(SectionKind::Vendors),
        ) && d.id == record_id(lines[l], 1, Seq::empty(), sec_width1(SectionKind::Vendors))
            && d.name == record_name(lines[l], 1, Seq::empty(), sec_width1(SectionKind::Vendors))
}

/// Name provenance carried to the typed device lists: every device of every
/// compiled vendor comes from a depth-1 line of the input, the name
/// verbatim.
pub proof fn theorem_device_names_from_lines(lines: Seq<Seq<char>>)
    requires
        spec_parse(lines) is Ok,
    ensures
        ({
            let d = spec_db_of(spec_parse(lines)->Ok_0);
            forall|i: int, j: int|
                0 <= i < d.vendors.len() && 0 <= j < d.vendors[i].devices.len()
                    ==> device_originates(lines, #[trigger] d.vendors[i].devices[j])
        }),
{
    theorem_child_names_from_lines(lines);
    let tables = spec_parse(lines)->Ok_0;
    crate::model::lemma_parse_tables_wf(lines);
    let d = spec_db_of(tables);
    assert(crate::grammar::pow16(0) == 1);
    assert(crate::grammar::pow16(1) == 16);
    assert(crate::grammar::pow16(2) == 256);
    assert(crate::grammar::pow16(3) == 4096);
    assert(crate::grammar::pow16(4) == 65536);
    assert forall|i: int, j: int|
        0 <= i < d.vendors.len() && 0 <= j < d.vendors[i].devices.len() implies device_originates(
        lines,
        #[trigger] d.vendors[i].devices[j],
    ) by {
        let c = tables[0][i].children[j];
        assert(child_originates(lines, kind_of_index(0), c));
        assert(crate::model::record_wf(tables[0][i], kind_of_index(0)));
        assert(crate::model::child_wf(c, kind_of_index(0)));
        assert(d.vendors[i] == spec_vendor_of(tables[0][i]));
        assert(d.vendors[i].devices[j] == crate::db::spec_device_of(
            tables[0][i].id as u16,
            c,
        ));
        let l = choose|l: int|
            0 <= l < lines.len() && #[trigger] record_matches(
                lines[l],
                1,
                Seq::empty(),
                sec_width1(SectionKind::Vendors),
            ) && c.id == record_id(lines[l], 1, Seq::empty(), sec_width1(SectionKind::Vendors))
                && c.name == record_name(lines[l], 1, Seq::empty(), sec_width1(SectionKind::Vendors));
        assert(c.id < crate::grammar::pow16(4));
        assert(d.vendors[i].devices[j].id == c.id);
        assert(0 <= l < lines.len() && record_matches(
            lines[l],
            1,
            Seq::empty(),
            sec_width1(SectionKind::Vendors),
        ) && d.vendors[i].devices[j].id == record_id(
            lines[l],
            1,
            Seq::empty(),
            sec_width1(SectionKind::Vendors),
        ) && d.vendors[i].devices[j].name == record_name(
            lines[l],
            1,
            Seq::empty(),
            sec_width1(SectionKind::Vendors),
        ));
    }
}

/// Round-trip ordering, first half: a depth-1 record line appends exactly one
/// child at the end of the open record's child list and touches nothing
/// else, so children sit in their table in file order.
pub proof fn theorem_depth1_appends_in_order(m: SpecMachine, line: Seq<char>)
    requires
        header_kind(line) is None,
        !is_skipped(line),
        !record_matches(line, 0, sec_prefix(m.section), sec_width0(m.section)),
        sec_depth(m.section) >= 1,
        record_matches(line, 1, Seq::empty(), sec_width1(m.section)),
        m.open_rec is Some,
        spec_step(m, line) is Ok,
    ensures
        ({
            let r = m.open_rec->Some_0;
            let m2 = spec_step(m, line)->Ok_0;
            let r2 = m2.open_rec->Some_0;
            &&& r2.children == r.children.push(
                SpecChild {
                    id: record_id(line, 1, Seq::empty(), sec_width1(m.section)),
                    name: record_name(line, 1, Seq::empty(), sec_width1(m.section)),
                    leaves: Seq::empty(),
                },
            )
            &&& r2.id == r.id
            &&& r2.name == r.name
            &&& m2.tables == m.tables
            &&& m2.section == m.section
        }),
{
}

/// Round-trip ordering, second half: in the compiled database every device's
/// `vendor_id` is the id of the vendor that owns it, for every vendor and
/// every position in its file-ordered device list.
pub proof fn theorem_device_backrefs(lines: Seq<Seq<char>>)
    requires
        spec_parse(lines) is Ok,
    ensures
        ({
            let d = spec_db_of(spec_parse(lines)->Ok_0);
            forall|i: int, j: int|
                0 <= i < d.vendors.len() && 0 <= j < d.vendors[i].devices.len() ==> (
                #[trigger] d.vendors[i].devices[j]).vendor_id == d.vendors[i].id
        }),
{
    crate::model::lemma_parse_tables_wf(lines);
    crate::db::lemma_db_of_wf(spec_parse(lines)->Ok_0);
}

/// Re-parenting: a depth-2 record line attaches its leaf to the child that
/// carries the remembered depth-1 id — the most recently opened one — and to
/// no other; every other child keeps exactly its leaves.
pub proof fn theorem_depth2_reparents(m: SpecMachine, line: Seq<char>)
    requires
        header_kind(line) is None,
        !is_skipped(line),
        !record_matches(line, 0, sec_prefix(m.section), sec_width0(m.section)),
        !(sec_depth(m.section) >= 1 && record_matches(line, 1, Seq::empty(), sec_width1(m.section))),
        sec_depth(m.section) >= 2,
        record_matches(line, 2, Seq::empty(), sec_width2(m.section)),
        m.open_rec is Some,
        m.last_child is Some,
        spec_step(m, line) is Ok,
    ensures
        ({
            let r = m.open_rec->Some_0;
            let cid = m.last_child->Some_0;
            let ci = child_idx(r.children, cid);
            let m2 = spec_step(m, line)->Ok_0;
            let r2 = m2.open_rec->Some_0;
            &&& 0 <= ci < r.children.len()
            &&& r.children[ci].id == cid
            &&& r2.children[ci].leaves == r.children[ci].leaves.push(
                SpecLeaf {
                    id: record_id(line, 2, Seq::empty(), sec_width2(m.section)),
                    name: record_name(line, 2, Seq::empty(), sec_width2(m.section)),
                },
            )
            &&& r2.children.len() == r.children.len()
            &&& forall|j: int|
                0 <= j < r.children.len() && j != ci ==> r2.children[j] == r.children[j]
            &&& m2.tables == m.tables
            &&& m2.section == m.section
        }),
{
    let r = m.open_rec->Some_0;
    let cid = m.last_child->Some_0;
    lemma_child_idx(r.children, cid);
}

/// A duplicate id in the same section is fatal: closing a record whose id
/// the section's table already holds yields `DuplicateId`, never a silent
/// overwrite.
pub proof fn theorem_duplicate_id_fatal(m: SpecMachine)
    requires
        m.open_rec is Some,
        table_has_id(m.tables[sec_index(m.section)], m.open_rec->Some_0.id),
    ensures
        spec_flush(m) == Err::<SpecMachine, ErrorKind>(ErrorKind::DuplicateId),
{
}

/// A depth-1 record line with no open parent is fatal: the step yields
/// `OrphanChild`, whatever the line or the rest of the state.
pub proof fn theorem_orphan_child_fatal(m: SpecMachine, line: Seq<char>)
    requires
        header_kind(line) is None,
        !is_skipped(line),
        !record_matches(line, 0, sec_prefix(m.section), sec_width0(m.section)),
        sec_depth(m.section) >= 1,
        record_matches(line, 1, Seq::empty(), sec_width1(m.section)),
        m.open_rec is None,
    ensures
        spec_step(m, line) == Err::<SpecMachine, ErrorKind>(ErrorKind::OrphanChild),
{
}

/// The hex field width is exact: in any matching record line, the character
/// right after the id field is a space, so a field one digit too long —
/// where the extra digit stands in that position — matches at no depth and
/// under no prefix.
pub proof fn theorem_hex_width_exact(line: Seq<char>, tabs: int, prefix: Seq<char>, width: int)
    requires
        is_hex_digit(line[tabs + prefix.len() + width]),
    ensures
        !record_matches(line, tabs, prefix, width),
{
    assert(!is_hex_digit(' '));
}

/// Section isolation: one step touches no table but the active section's, so
/// records of one section can never reach, shadow or collide with another
/// section's table, whatever their numeric ids.
pub proof fn theorem_section_isolation(m: SpecMachine, line: Seq<char>)
    requires
        m.tables.len() == 11,
        spec_step(m, line) is Ok,
    ensures
        forall|t: int|
            0 <= t < m.tables.len() && t != sec_index(m.section) ==> spec_step(
                m,
                line,
            )->Ok_0.tables[t] == m.tables[t],
{
}

} // verus!
