//! The executable compiler: section state machine and record forest builder.
//!
//! `Builder` consumes the file line by line and accumulates one table of raw
//! records per section. Every transition is proved equal to `spec_step` of
//! the reference machine, so the whole run is pinned down by `spec_parse`.

use vstd::prelude::*;

use crate::grammar::{
    is_skipped_ex, match_header, parse_record, sec_depth_ex, sec_index_ex, sec_prefix_ex,
    sec_width0_ex, sec_width1_ex, sec_width2_ex, SectionKind,
};
use crate::model::{
    child_idx, children_have_id, lemma_child_idx, lemma_child_idx_first, leaves_have_id,
    spec_flush, spec_init, spec_step, table_has_id, ErrorKind, SpecChild, SpecLeaf, SpecMachine,
    SpecRecord,
};

verus! {

/// A depth-2 record as accumulated during parsing.
#[derive(Debug, Clone, PartialEq, Eq)]
pub struct RawLeaf {
    pub id: u16,
    pub name: String,
}

impl View for RawLeaf {
    type V = SpecLeaf;

    open spec fn view(&self) -> SpecLeaf {
        SpecLeaf { id: self.id as int, name: self.name@ }
    }
}

impl DeepView for RawLeaf {
    type V = SpecLeaf;

    open spec fn deep_view(&self) -> SpecLeaf {
        self.view()
    }
}

/// A depth-1 record as accumulated during parsing.
#[derive(Debug, Clone, PartialEq, Eq)]
pub struct RawChild {
    pub id: u16,
    pub name: String,
    pub leaves: Vec<RawLeaf>,
}

impl View for RawChild {
    type V = SpecChild;

    open spec fn view(&self) -> SpecChild {
        SpecChild { id: self.id as int, name: self.name@, leaves: self.leaves.deep_view() }
    }
}

impl DeepView for RawChild {
    type V = SpecChild;

    open spec fn deep_view(&self) -> SpecChild {
        self.view()
    }
}

/// A top-level record as accumulated during parsing.
#[derive(Debug, Clone, PartialEq, Eq)]
pub struct RawRecord {
    pub id: u16,
    pub name: String,
    pub children: Vec<RawChild>,
}

impl View for RawRecord {
    type V = SpecRecord;

    open spec fn view(&self) -> SpecRecord {
        SpecRecord { id: self.id as int, name: self.name@, children: self.children.deep_view() }
    }
}

impl DeepView for RawRecord {
    type V = SpecRecord;

    open spec fn deep_view(&self) -> SpecRecord {
        self.view()
    }
}

/// Scans a table for a record with this id.
fn table_contains_id(t: &Vec<RawRecord>, id: u16) -> (b: bool)
    ensures
        b == table_has_id(t.deep_view(), id as int),
{
    let mut j: usize = 0;
    while j < t.len()
        invariant
            j <= t@.len(),
            forall|i: int| 0 <= i < j ==> #[trigger] t.deep_view()[i].id != id as int,
        decreases t@.len() - j,
    {
        if t[j].id == id {
            assert(t.deep_view()[j as int].id == id as int);
            return true;
        }
        j += 1;
    }
    false
}

/// Scans the open record's children for one with this id.
fn children_contain_id(cs: &Vec<RawChild>, id: u16) -> (b: bool)
    ensures
        b == children_have_id(cs.deep_view(), id as int),
{
    let mut j: usize = 0;
    while j < cs.len()
        invariant
            j <= cs@.len(),
            forall|i: int| 0 <= i < j ==> #[trigger] cs.deep_view()[i].id != id as int,
        decreases cs@.len() - j,
    {
        if cs[j].id == id {
            assert(cs.deep_view()[j as int].id == id as int);
            return true;
        }
        j += 1;
    }
    false
}

/// Scans a child's leaves for one with this id.
fn leaves_contain_id(ls: &Vec<RawLeaf>, id: u16) -> (b: bool)
    ensures
        b == leaves_have_id(ls.deep_view(), id as int),
{
    let mut j: usize = 0;
    while j < ls.len()
        invariant
            j <= ls@.len(),
            forall|i: int| 0 <= i < j ==> #[trigger] ls.deep_view()[i].id != id as int,
        decreases ls@.len() - j,
    {
        if ls[j].id == id {
            assert(ls.deep_view()[j as int].id == id as int);
            return true;
        }
        j += 1;
    }
    false
}

/// Linear scan for the child carrying this id, as positional re-parenting
/// demands; fan-out under one record is small.
fn find_child(cs: &Vec<RawChild>, id: u16) -> (r: Option<usize>)
    ensures
        match r {
            Some(i) => i < cs@.len() && child_idx(cs.deep_view(), id as int) == i as int,
            None => child_idx(cs.deep_view(), id as int) == -1,
        },
{
    let mut j: usize = 0;
    while j < cs.len()
        invariant
            j <= cs@.len(),
            forall|i: int| 0 <= i < j ==> #[trigger] cs.deep_view()[i].id != id as int,
        decreases cs@.len() - j,
    {
        if cs[j].id == id {
            assert(cs.deep_view()[j as int].id == id as int);
            proof {
                lemma_child_idx_first(cs.deep_view(), id as int, j as int);
            }
            return Some(j);
        }
        j += 1;
    }
    proof {
        lemma_child_idx(cs.deep_view(), id as int);
    }
    None
}

/// The compiler's whole mutable state: one growing table per section, the
/// active section, the record still being assembled, and the re-parenting
/// target for depth-2 lines.
pub struct Builder {
    tables: Vec<Vec<RawRecord>>,
    section: SectionKind,
    open_rec: Option<RawRecord>,
    last_child: Option<u16>,
}

impl View for Builder {
    type V = SpecMachine;

    closed spec fn view(&self) -> SpecMachine {
        SpecMachine {
            tables: self.tables.deep_view(),
            section: self.section,
            open_rec: self.open_rec.deep_view(),
            last_child: match self.last_child {
                Some(x) => Some(x as int),
                None => None,
            },
        }
    }
}

impl Builder {
    /// A fresh compiler, in the vendor section, with all tables empty.
    pub fn new() -> (b: Builder)
        ensures
            b@ == spec_init(),
    {
        let mut tables: Vec<Vec<RawRecord>> = Vec::new();
        let mut i: usize = 0;
        while i < 11
            invariant
                i <= 11,
                tables@.len() == i,
                forall|j: int| 0 <= j < i ==> #[trigger] tables.deep_view()[j] == Seq::<
                    SpecRecord,
                >::empty(),
            decreases 11 - i,
        {
            let ghost prev = tables.deep_view();
            tables.push(Vec::new());
            proof {
                assert(tables.deep_view() =~~= prev.push(Seq::<SpecRecord>::empty()));
            }
            i += 1;
        }
        let b = Builder {
            tables,
            section: SectionKind::Vendors,
            open_rec: None,
            last_child: None,
        };
        proof {
            assert(b@.tables =~~= spec_init().tables);
            assert(b@ =~~= spec_init());
        }
        b
    }

    /// The section the compiler is currently inside.
    pub fn section(&self) -> (k: SectionKind)
        ensures
            k == self@.section,
    {
        self.section
    }

    /// Closes the record still being built, if any, and moves it into the
    /// active section's table; fatal if the table already holds its id.
    fn flush_open(&mut self) -> (r: Result<(), ErrorKind>)
        requires
            old(self)@.tables.len() == 11,
        ensures
            match r {
                Ok(()) => spec_flush(old(self)@) == Ok::<SpecMachine, ErrorKind>(final(self)@),
                Err(e) => spec_flush(old(self)@) == Err::<SpecMachine, ErrorKind>(e),
            },
    {
        let o = self.open_rec.take();
        match o {
            None => {
                proof {
                    assert(self@ =~~= old(self)@);
                }
                Ok(())
            },
            Some(r) => {
                let ti = sec_index_ex(self.section);
                if table_contains_id(&self.tables[ti], r.id) {
                    return Err(ErrorKind::DuplicateId);
                }
                let ghost old_tables = self.tables.deep_view();
                self.tables[ti].push(r);
                self.last_child = None;
                proof {
                    let m2 = spec_flush(old(self)@)->Ok_0;
                    assert(self.tables.deep_view() =~~= old_tables.update(
                        ti as int,
                        old_tables[ti as int].push(r@),
                    ));
                    assert(self@ =~~= m2);
                }
                Ok(())
            },
        }
    }

    /// Feeds one line of the file to the compiler. The result, and the whole
    /// new state on success, are those of the reference machine's
    /// `spec_step`.
    pub fn process_line(&mut self, line: &str) -> (r: Result<(), ErrorKind>)
        requires
            old(self)@.tables.len() == 11,
        ensures
            match r {
                Ok(()) => {
                    &&& spec_step(old(self)@, line@) == Ok::<SpecMachine, ErrorKind>(final(self)@)
                    &&& final(self)@.tables.len() == 11
                },
                Err(e) => spec_step(old(self)@, line@) == Err::<SpecMachine, ErrorKind>(e),
            },
    {
        if let Some(k) = match_header(line) {
            return match self.flush_open() {
                Ok(()) => {
                    self.section = k;
                    proof {
                        let m2 = spec_step(old(self)@, line@)->Ok_0;
                        assert(self@ =~~= m2);
                    }
                    Ok(())
                },
                Err(e) => Err(e),
            };
        }
        if is_skipped_ex(line) {
            proof {
                assert(self@ =~~= old(self)@);
            }
            return Ok(());
        }
        let k = self.section;
        let prefix = sec_prefix_ex(k);
        let w0 = sec_width0_ex(k);
        if let Some((id0, name0)) = parse_record(line, 0, prefix, w0) {
            return match self.flush_open() {
                Ok(()) => {
                    self.open_rec = Some(RawRecord { id: id0, name: name0, children: Vec::new() });
                    self.last_child = None;
                    proof {
                        assert(spec_step(old(self)@, line@) is Ok);
                        let m2 = spec_step(old(self)@, line@)->Ok_0;
                        assert(self.open_rec.deep_view()->Some_0.children =~= m2.open_rec->Some_0.children);
                        assert(self@ =~~= m2);
                    }
                    Ok(())
                },
                Err(e) => Err(e),
            };
        }
        proof {
            reveal_strlit("");
            assert(""@ =~= Seq::<char>::empty());
        }
        let d = sec_depth_ex(k);
        if d >= 1 {
            let w1 = sec_width1_ex(k);
            if let Some((id1, name1)) = parse_record(line, 1, "", w1) {
                let o = self.open_rec.take();
                return match o {
                    None => Err(ErrorKind::OrphanChild),
                    Some(mut r) => {
                        if children_contain_id(&r.children, id1) {
                            return Err(ErrorKind::DuplicateId);
                        }
                        r.children.push(RawChild { id: id1, name: name1, leaves: Vec::new() });
                        self.open_rec = Some(r);
                        self.last_child = Some(id1);
                        proof {
                            assert(spec_step(old(self)@, line@) is Ok);
                            let m2 = spec_step(old(self)@, line@)->Ok_0;
                            assert(self.open_rec.deep_view()->Some_0.children =~~= m2.open_rec->Some_0.children);
                            assert(self@ =~~= m2);
                        }
                        Ok(())
                    },
                };
            }
        }
        if d >= 2 {
            let w2 = sec_width2_ex(k);
            if let Some((id2, name2)) = parse_record(line, 2, "", w2) {
                let o = self.open_rec.take();
                return match (o, self.last_child) {
                    (Some(mut r), Some(cid)) => {
                        match find_child(&r.children, cid) {
                            None => Err(ErrorKind::OrphanChild),
                            Some(ci) => {
                                if leaves_contain_id(&r.children[ci].leaves, id2) {
                                    return Err(ErrorKind::DuplicateId);
                                }
                                r.children[ci].leaves.push(RawLeaf { id: id2, name: name2 });
                                self.open_rec = Some(r);
                                proof {
                                    assert(spec_step(old(self)@, line@) is Ok);
                                    let m2 = spec_step(old(self)@, line@)->Ok_0;
                                    assert(self.open_rec.deep_view()->Some_0.children
                                        =~~= m2.open_rec->Some_0.children);
                                    assert(self@ =~~= m2);
                                }
                                Ok(())
                            },
                        }
                    },
                    _ => Err(ErrorKind::OrphanChild),
                };
            }
        }
        Err(ErrorKind::NoGrammarMatch)
    }

    /// Ends the input: flushes the record still open and hands over the
    /// eleven finished tables.
    pub fn finish_tables(self) -> (r: Result<Vec<Vec<RawRecord>>, ErrorKind>)
        requires
            self@.tables.len() == 11,
        ensures
            match r {
                Ok(ts) => spec_flush(self@) is Ok && ts.deep_view() == spec_flush(
                    self@,
                )->Ok_0.tables,
                Err(e) => spec_flush(self@) == Err::<SpecMachine, ErrorKind>(e),
            },
    {
        let mut b = self;
        match b.flush_open() {
            Ok(()) => Ok(b.tables),
            Err(e) => Err(e),
        }
    }
}

} // verus!
