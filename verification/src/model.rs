//! The mathematical reference machine for the database compiler.
//!
//! The executable parser is specified against the functions here: a record
//! forest model (`SpecRecord` and friends), a single-step transition
//! `spec_step` over one input line, and `spec_parse` over a whole file. Every
//! behaviour of the compiler — section switching, positional re-parenting,
//! duplicate detection, flushing — is defined once, at this level.

use vstd::prelude::*;

use crate::grammar::{
    header_kind, is_skipped, kind_of_index, pow16, record_id, record_matches, record_name,
    sec_depth, sec_index, sec_prefix, sec_width0, sec_width1, sec_width2, SectionKind,
};

verus! {

/// Why a compile aborted. Any of these is fatal for the whole build.
#[derive(Debug, Clone, Copy, PartialEq, Eq, Structural)]
pub enum ErrorKind {
    /// A child record line appeared with no open parent at the required
    /// depth.
    OrphanChild,
    /// Two records in the same scope share a numeric id.
    DuplicateId,
    /// A non-blank, non-comment line matches no depth's grammar in the
    /// current section.
    NoGrammarMatch,
}

/// Model of a depth-2 record: an id and a name.
#[verifier::ext_equal]
pub ghost struct SpecLeaf {
    pub id: int,
    pub name: Seq<char>,
}

/// Model of a depth-1 record, with its depth-2 children in file order.
#[verifier::ext_equal]
pub ghost struct SpecChild {
    pub id: int,
    pub name: Seq<char>,
    pub leaves: Seq<SpecLeaf>,
}

/// Model of a top-level record, with its depth-1 children in file order.
#[verifier::ext_equal]
pub ghost struct SpecRecord {
    pub id: int,
    pub name: Seq<char>,
    pub children: Seq<SpecChild>,
}

/// The whole state of the compiler between two lines: one table per section,
/// the active section, the record still being built, and the id of the most
/// recently opened depth-1 record, used for re-parenting depth-2 lines.
#[verifier::ext_equal]
pub ghost struct SpecMachine {
    pub tables: Seq<Seq<SpecRecord>>,
    pub section: SectionKind,
    pub open_rec: Option<SpecRecord>,
    pub last_child: Option<int>,
}

/// Whether some record in the table carries this id.
pub open spec fn table_has_id(t: Seq<SpecRecord>, id: int) -> bool {
    exists|i: int| 0 <= i < t.len() && #[trigger] t[i].id == id
}

/// Whether some child carries this id.
pub open spec fn children_have_id(cs: Seq<SpecChild>, id: int) -> bool {
    exists|i: int| 0 <= i < cs.len() && #[trigger] cs[i].id == id
}

/// Whether some leaf carries this id.
pub open spec fn leaves_have_id(ls: Seq<SpecLeaf>, id: int) -> bool {
    exists|i: int| 0 <= i < ls.len() && #[trigger] ls[i].id == id
}

/// The first position of the child with this id, or -1 if there is none.
pub open spec fn child_idx(cs: Seq<SpecChild>, id: int) -> int
    decreases cs.len(),
{
    if cs.len() == 0 {
        -1
    } else if cs[0].id == id {
        0
    } else {
        let r = child_idx(cs.drop_first(), id);
        if r < 0 {
            -1
        } else {
            r + 1
        }
    }
}

pub proof fn lemma_child_idx(cs: Seq<SpecChild>, id: int)
    ensures
        child_idx(cs, id) >= 0 <==> children_have_id(cs, id),
        child_idx(cs, id) >= 0 ==> child_idx(cs, id) < cs.len() && cs[child_idx(cs, id)].id == id,
    decreases cs.len(),
{
    if cs.len() > 0 && cs[0].id != id {
        lemma_child_idx(cs.drop_first(), id);
        assert(forall|i: int| 0 <= i < cs.drop_first().len() ==> #[trigger] cs.drop_first()[i]
            == cs[i + 1]);
        if children_have_id(cs, id) {
            let i = choose|i: int| 0 <= i < cs.len() && #[trigger] cs[i].id == id;
            assert(cs.drop_first()[i - 1].id == id);
        }
    }
}

/// The first position wins a scan, so the scan that finds `i` first pins
/// `child_idx` down to `i`.
pub proof fn lemma_child_idx_first(cs: Seq<SpecChild>, id: int, i: int)
    requires
        0 <= i < cs.len(),
        cs[i].id == id,
        forall|j: int| 0 <= j < i ==> cs[j].id != id,
    ensures
        child_idx(cs, id) == i,
    decreases cs.len(),
{
    if i > 0 {
        assert(forall|j: int| 0 <= j < cs.drop_first().len() ==> #[trigger] cs.drop_first()[j]
            == cs[j + 1]);
        lemma_child_idx_first(cs.drop_first(), id, i - 1);
    }
}

/// The machine before the first line: all tables empty, the vendor section
/// active (the file opens with vendor records, unannounced by any header),
/// nothing open.
pub open spec fn spec_init() -> SpecMachine {
    SpecMachine {
        tables: Seq::new(11, |i: int| Seq::<SpecRecord>::empty()),
        section: SectionKind::Vendors,
        open_rec: None,
        last_child: None,
    }
}

/// Closes the record still being built, if any, and moves it into the active
/// section's table. Inserting an id the table already holds is fatal.
pub open spec fn spec_flush(m: SpecMachine) -> Result<SpecMachine, ErrorKind> {
    match m.open_rec {
        None => Ok(m),
        Some(r) => {
            let ti = sec_index(m.section);
            if table_has_id(m.tables[ti], r.id) {
                Err(ErrorKind::DuplicateId)
            } else {
                Ok(
                    SpecMachine {
                        tables: m.tables.update(ti, m.tables[ti].push(r)),
                        open_rec: None,
                        last_child: None,
                        ..m
                    },
                )
            }
        },
    }
}

/// One step of the compiler on one line.
///
/// Headers are recognized first — header lines and record lines are visually
/// similar, so the grammar alone cannot be trusted to tell them apart — and
/// switch the section after flushing whatever is still open. Blank lines and
/// plain comments are skipped. A record line is tried at depth 0, 1, 2 in
/// turn: a depth-0 match flushes its predecessor and opens a new record; a
/// depth-1 match appends a child to the open record and becomes the
/// re-parenting target; a depth-2 match appends a leaf to the remembered
/// depth-1 child. Anything else is fatal.
pub open spec fn spec_step(m: SpecMachine, line: Seq<char>) -> Result<SpecMachine, ErrorKind> {
    match header_kind(line) {
        Some(k) => match spec_flush(m) {
            Ok(m2) => Ok(SpecMachine { section: k, ..m2 }),
            Err(e) => Err(e),
        },
        None => {
            if is_skipped(line) {
                Ok(m)
            } else if record_matches(line, 0, sec_prefix(m.section), sec_width0(m.section)) {
                let id0 = record_id(line, 0, sec_prefix(m.section), sec_width0(m.section));
                let name0 = record_name(line, 0, sec_prefix(m.section), sec_width0(m.section));
                match spec_flush(m) {
                    Ok(m2) => Ok(
                        SpecMachine {
                            open_rec: Some(
                                SpecRecord { id: id0, name: name0, children: Seq::empty() },
                            ),
                            last_child: None,
                            ..m2
                        },
                    ),
                    Err(e) => Err(e),
                }
            } else if sec_depth(m.section) >= 1 && record_matches(
                line,
                1,
                Seq::empty(),
                sec_width1(m.section),
            ) {
                let id1 = record_id(line, 1, Seq::empty(), sec_width1(m.section));
                let name1 = record_name(line, 1, Seq::empty(), sec_width1(m.section));
                match m.open_rec {
                    None => Err(ErrorKind::OrphanChild),
                    Some(r) => if children_have_id(r.children, id1) {
                        Err(ErrorKind::DuplicateId)
                    } else {
                        Ok(
                            SpecMachine {
                                open_rec: Some(
                                    SpecRecord {
                                        children: r.children.push(
                                            SpecChild { id: id1, name: name1, leaves: Seq::empty() },
                                        ),
                                        ..r
                                    },
                                ),
                                last_child: Some(id1),
                                ..m
                            },
                        )
                    },
                }
            } else if sec_depth(m.section) >= 2 && record_matches(
                line,
                2,
                Seq::empty(),
                sec_width2(m.section),
            ) {
                let id2 = record_id(line, 2, Seq::empty(), sec_width2(m.section));
                let name2 = record_name(line, 2, Seq::empty(), sec_width2(m.section));
                match (m.open_rec, m.last_child) {
                    (Some(r), Some(cid)) => {
                        let ci = child_idx(r.children, cid);
                        if ci < 0 {
                            Err(ErrorKind::OrphanChild)
                        } else if leaves_have_id(r.children[ci].leaves, id2) {
                            Err(ErrorKind::DuplicateId)
                        } else {
                            Ok(
                                SpecMachine {
                                    open_rec: Some(
                                        SpecRecord {
                                            children: r.children.update(
                                                ci,
                                                SpecChild {
                                                    leaves: r.children[ci].leaves.push(
                                                        SpecLeaf { id: id2, name: name2 },
                                                    ),
                                                    ..r.children[ci]
                                                },
                                            ),
                                            ..r
                                        },
                                    ),
                                    ..m
                                },
                            )
                        }
                    },
                    _ => Err(ErrorKind::OrphanChild),
                }
            } else {
                Err(ErrorKind::NoGrammarMatch)
            }
        },
    }
}

/// Runs the machine over a sequence of lines, stopping at the first error.
pub open spec fn spec_run(m: SpecMachine, lines: Seq<Seq<char>>) -> Result<SpecMachine, ErrorKind>
    decreases lines.len(),
{
    if lines.len() == 0 {
        Ok(m)
    } else {
        match spec_step(m, lines[0]) {
            Ok(m2) => spec_run(m2, lines.drop_first()),
            Err(e) => Err(e),
        }
    }
}

/// The whole compile: run every line from the initial state, then flush the
/// record still open at end of input. Yields the eleven finished tables.
pub open spec fn spec_parse(lines: Seq<Seq<char>>) -> Result<Seq<Seq<SpecRecord>>, ErrorKind> {
    match spec_run(spec_init(), lines) {
        Ok(m) => match spec_flush(m) {
            Ok(m2) => Ok(m2.tables),
            Err(e) => Err(e),
        },
        Err(e) => Err(e),
    }
}

/// A depth-1 record is well formed for section `k`: its id fits the
/// section's depth-1 width, its leaves fit the depth-2 width, and no two
/// leaves share an id.
pub open spec fn child_wf(c: SpecChild, k: SectionKind) -> bool {
    &&& 0 <= c.id < pow16(sec_width1(k))
    &&& forall|i: int|
        0 <= i < c.leaves.len() ==> 0 <= (#[trigger] c.leaves[i]).id < pow16(sec_width2(k))
    &&& forall|i: int, j: int| 0 <= i < j < c.leaves.len() ==> c.leaves[i].id != c.leaves[j].id
}

/// A top-level record is well formed for section `k`: its id fits the
/// section's width, its children are well formed, and no two children share
/// an id.
pub open spec fn record_wf(r: SpecRecord, k: SectionKind) -> bool {
    &&& 0 <= r.id < pow16(sec_width0(k))
    &&& forall|i: int| 0 <= i < r.children.len() ==> child_wf(#[trigger] r.children[i], k)
    &&& forall|i: int, j: int| 0 <= i < j < r.children.len() ==> r.children[i].id != r.children[j].id
}

/// A finished table is well formed: every record is, and ids are unique.
pub open spec fn table_wf(t: Seq<SpecRecord>, k: SectionKind) -> bool {
    &&& forall|i: int| 0 <= i < t.len() ==> record_wf(#[trigger] t[i], k)
    &&& forall|i: int, j: int| 0 <= i < j < t.len() ==> t[i].id != t[j].id
}

/// The machine invariant: eleven tables, each well formed for its section,
/// and a well-formed open record.
pub open spec fn machine_wf(m: SpecMachine) -> bool {
    &&& m.tables.len() == 11
    &&& forall|i: int| 0 <= i < 11 ==> table_wf(#[trigger] m.tables[i], kind_of_index(i))
    &&& m.open_rec matches Some(r) ==> record_wf(r, m.section)
}

pub proof fn lemma_init_wf()
    ensures
        machine_wf(spec_init()),
{
}

pub proof fn lemma_flush_preserves_wf(m: SpecMachine)
    requires
        machine_wf(m),
    ensures
        spec_flush(m) matches Ok(m2) ==> machine_wf(m2),
{
    if let Some(r) = m.open_rec {
        let ti = sec_index(m.section);
        crate::grammar::lemma_sec_index_bijective();
        if !table_has_id(m.tables[ti], r.id) {
            let m2 = spec_flush(m)->Ok_0;
            assert(kind_of_index(ti) == m.section);
            assert forall|i: int| 0 <= i < 11 implies table_wf(
                #[trigger] m2.tables[i],
                kind_of_index(i),
            ) by {
                if i == ti {
                    let t2 = m2.tables[ti];
                    assert(t2 == m.tables[ti].push(r));
                    assert forall|a: int, b: int| 0 <= a < b < t2.len() implies t2[a].id
                        != t2[b].id by {
                        if b == t2.len() - 1 {
                            assert(!table_has_id(m.tables[ti], r.id));
                            assert(m.tables[ti][a].id != r.id);
                        }
                    }
                }
            }
        }
    }
}

pub proof fn lemma_step_preserves_wf(m: SpecMachine, line: Seq<char>)
    requires
        machine_wf(m),
    ensures
        spec_step(m, line) matches Ok(m2) ==> machine_wf(m2),
{
    lemma_flush_preserves_wf(m);
    if header_kind(line) is Some {
    } else if is_skipped(line) {
    } else if record_matches(line, 0, sec_prefix(m.section), sec_width0(m.section)) {
        let head = sec_prefix(m.section).len() as int;
        let w = sec_width0(m.section);
        crate::grammar::lemma_hex_seq_val_bound(line.subrange(head, head + w));
    } else if sec_depth(m.section) >= 1 && record_matches(
        line,
        1,
        Seq::empty(),
        sec_width1(m.section),
    ) {
        let w = sec_width1(m.section);
        crate::grammar::lemma_hex_seq_val_bound(line.subrange(1, 1 + w));
        if m.open_rec is Some {
            let r = m.open_rec->Some_0;
            let id1 = record_id(line, 1, Seq::empty(), w);
            if !children_have_id(r.children, id1) {
                let m2 = spec_step(m, line)->Ok_0;
                let r2 = m2.open_rec->Some_0;
                assert forall|a: int, b: int| 0 <= a < b < r2.children.len() implies r2.children[a].id
                    != r2.children[b].id by {
                    if b == r2.children.len() - 1 {
                        assert(r.children[a].id != id1);
                    }
                }
                assert(record_wf(r2, m.section));
            }
        }
    } else if sec_depth(m.section) >= 2 && record_matches(
        line,
        2,
        Seq::empty(),
        sec_width2(m.section),
    ) {
        let w = sec_width2(m.section);
        crate::grammar::lemma_hex_seq_val_bound(line.subrange(2, 2 + w));
        if m.open_rec is Some && m.last_child is Some {
            let r = m.open_rec->Some_0;
            let cid = m.last_child->Some_0;
            lemma_child_idx(r.children, cid);
            let ci = child_idx(r.children, cid);
            if ci >= 0 {
                let id2 = record_id(line, 2, Seq::empty(), w);
                if !leaves_have_id(r.children[ci].leaves, id2) {
                    let m2 = spec_step(m, line)->Ok_0;
                    let r2 = m2.open_rec->Some_0;
                    let c2 = r2.children[ci];
                    assert(child_wf(r.children[ci], m.section));
                    assert forall|a: int, b: int| 0 <= a < b < c2.leaves.len() implies c2.leaves[a].id
                        != c2.leaves[b].id by {
                        if b == c2.leaves.len() - 1 {
                            assert(r.children[ci].leaves[a].id != id2);
                        }
                    }
                    assert(child_wf(c2, m.section));
                    assert forall|i: int| 0 <= i < r2.children.len() implies child_wf(
                        #[trigger] r2.children[i],
                        m.section,
                    ) by {
                        if i != ci {
                            assert(r2.children[i] == r.children[i]);
                        }
                    }
                    assert(record_wf(r2, m.section));
                }
            }
        }
    }
}

/// Well-formedness holds after any successful run.
pub proof fn lemma_run_preserves_wf(m: SpecMachine, lines: Seq<Seq<char>>)
    requires
        machine_wf(m),
    ensures
        spec_run(m, lines) matches Ok(m2) ==> machine_wf(m2),
    decreases lines.len(),
{
    if lines.len() > 0 {
        lemma_step_preserves_wf(m, lines[0]);
        if let Ok(m2) = spec_step(m, lines[0]) {
            lemma_run_preserves_wf(m2, lines.drop_first());
        }
    }
}

/// The finished tables of a successful compile are well formed.
pub proof fn lemma_parse_tables_wf(lines: Seq<Seq<char>>)
    ensures
        spec_parse(lines) matches Ok(tables) ==> {
            &&& tables.len() == 11
            &&& forall|i: int| 0 <= i < 11 ==> table_wf(#[trigger] tables[i], kind_of_index(i))
        },
{
    lemma_init_wf();
    lemma_run_preserves_wf(spec_init(), lines);
    if let Ok(m) = spec_run(spec_init(), lines) {
        lemma_flush_preserves_wf(m);
    }
}

} // verus!
