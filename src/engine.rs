//! The pairing engine: it keeps the previous record of the stream, checks
//! the stream order, finds the tag changes of each pair and renders the rows
//! of those that pass the filters.

use vstd::prelude::*;
use std::cmp::Ordering;
use crate::column::{line_type_for, line_type_of, needs_changeset_tags, Column, LineType};
use crate::diff::{is_tag_diff, tag_changes, TagChange, Tags};
use crate::filter::FilterSet;
use crate::record::{record_order, sorted_objects, Record};
use crate::render::{
    change_rows,
    change_rows_spec,
    opt_record,
    rows_result_view,
    rows_view,
    EngineError,
    Row,
};

verus! {

/// What is reported and how: columns, filters and line layout.
#[derive(Debug)]
pub struct Report {
    pub columns: Vec<Column>,
    pub filters: FilterSet,
    pub line_type: LineType,
}

/// The rows of a list of changes, in order, skipping those that the
/// tag-level filters drop; the first change whose rows fail decides the error.
pub open spec fn changes_rows_spec(
    rep: Report,
    chs: Seq<TagChange>,
    cur: Record,
    prev: Option<Record>,
    cs: Option<Tags>,
) -> Result<Seq<Seq<Seq<u8>>>, EngineError>
    decreases chs.len(),
{
    if chs.len() == 0 {
        Ok(Seq::empty())
    } else {
        match changes_rows_spec(rep, chs.drop_last(), cur, prev, cs) {
            Err(e) => Err(e),
            Ok(a) => if !rep.filters.change_passes_spec(chs.last()) {
                Ok(a)
            } else {
                match change_rows_spec(rep.line_type, rep.columns@, chs.last(), cur, prev, cs) {
                    Err(e) => Err(e),
                    Ok(b) => Ok(a + b),
                }
            },
        }
    }
}

proof fn lemma_changes_rows_err_extends(
    rep: Report,
    chs: Seq<TagChange>,
    i: int,
    cur: Record,
    prev: Option<Record>,
    cs: Option<Tags>,
)
    requires
        0 <= i <= chs.len(),
        changes_rows_spec(rep, chs.subrange(0, i), cur, prev, cs) is Err,
    ensures
        changes_rows_spec(rep, chs, cur, prev, cs) == changes_rows_spec(
            rep,
            chs.subrange(0, i),
            cur,
            prev,
            cs,
        ),
    decreases chs.len() - i,
{
    if i < chs.len() {
        assert(chs.subrange(0, i + 1).drop_last() =~= chs.subrange(0, i));
        lemma_changes_rows_err_extends(rep, chs, i + 1, cur, prev, cs);
    } else {
        assert(chs.subrange(0, i) =~= chs);
    }
}

/// The previous record if it is an earlier version of the same object.
pub open spec fn comparable(prev: Option<Record>, cur: Record) -> Option<Record> {
    match prev {
        Some(p) => if p.same_object_spec(&cur) {
            Some(p)
        } else {
            None
        },
        None => None,
    }
}

/// The tags that the current record is compared with: none when there is no
/// comparable previous record.
pub open spec fn old_tags(cp: Option<Record>) -> Seq<(String, String)> {
    match cp {
        Some(p) => p.tags@,
        None => Seq::empty(),
    }
}

/// Whether the stream order is broken between the previous record and `cur`.
pub open spec fn out_of_order(prev: Option<Record>, cur: Record) -> bool {
    match prev {
        Some(p) => record_order(p, cur) != Ordering::Less,
        None => false,
    }
}

/// Whether the pair is looked at: one of its records is tagged and the
/// current record passes the user and kind filters.
pub open spec fn selected(rep: Report, prev: Option<Record>, cur: Record) -> bool {
    let has_tags = match prev {
        Some(p) => p.tagged_spec() || cur.tagged_spec(),
        None => cur.tagged_spec(),
    };
    has_tags && rep.filters.uid_passes_spec(cur.uid) && rep.filters.kinds.allows_spec(cur.kind)
}

/// What one step of the engine returns, given the changes of the pair.
pub open spec fn step_spec(
    rep: Report,
    prev: Option<Record>,
    cur: Record,
    cs: Option<Tags>,
    chs: Seq<TagChange>,
) -> Result<Seq<Seq<Seq<u8>>>, EngineError> {
    if out_of_order(prev, cur) {
        Err(EngineError::Unsorted)
    } else if !selected(rep, prev, cur) {
        Ok(Seq::empty())
    } else {
        changes_rows_spec(rep, chs, cur, comparable(prev, cur), cs)
    }
}

/// The rows of a list of changes.
fn rows_of_changes(
    rep: &Report,
    chs: &Vec<TagChange>,
    cur: &Record,
    prev: Option<&Record>,
    cs: &Option<Tags>,
) -> (r: Result<Vec<Row>, EngineError>)
    ensures
        rows_result_view(r) == changes_rows_spec(*rep, chs@, *cur, opt_record(prev), *cs),
{
    let n = chs.len();
    let mut out: Vec<Row> = Vec::new();
    let mut i: usize = 0;
    assert(chs@.subrange(0, 0) =~= Seq::<TagChange>::empty());
    assert(rows_view(out@) =~= Seq::<Seq<Seq<u8>>>::empty());
    while i < n
        invariant
            n == chs@.len(),
            i <= n,
            changes_rows_spec(*rep, chs@.subrange(0, i as int), *cur, opt_record(prev), *cs) == Ok::<
                Seq<Seq<Seq<u8>>>,
                EngineError,
            >(rows_view(out@)),
        decreases n - i,
    {
        assert(chs@.subrange(0, i + 1).drop_last() =~= chs@.subrange(0, i as int));
        assert(chs@.subrange(0, i + 1).last() == chs@[i as int]);
        let c = &chs[i];
        if rep.filters.change_passes(c) {
            match change_rows(rep.line_type, &rep.columns, c, cur, prev, cs) {
                Err(e) => {
                    proof {
                        lemma_changes_rows_err_extends(*rep, chs@, i + 1, *cur, opt_record(prev), *cs);
                    }
                    return Err(e);
                },
                Ok(mut rows) => {
                    let ghost before = out@;
                    let ghost added = rows@;
                    out.append(&mut rows);
                    assert(rows_view(out@) =~= rows_view(before) + rows_view(added));
                },
            }
        }
        i = i + 1;
    }
    assert(chs@.subrange(0, n as int) =~= chs@);
    Ok(out)
}

/// The state of a run: the report settings and the previous record.
#[derive(Debug)]
pub struct Engine {
    pub report: Report,
    pub previous: Option<Record>,
}

impl Engine {
    /// A fresh engine; the layout follows from the columns.
    pub fn new(columns: Vec<Column>, filters: FilterSet) -> (r: Engine)
        ensures
            r.report.columns == columns,
            r.report.filters == filters,
            r.report.line_type == line_type_of(columns@),
            r.previous is None,
    {
        let line_type = line_type_for(&columns);
        Engine { report: Report { columns, filters, line_type }, previous: None }
    }

    /// Whether the rows need the tags of the current record's changeset.
    pub fn needs_changeset_tags(&self) -> (r: bool)
        ensures
            r == exists|i: int|
                0 <= i < self.report.columns@.len()
                    && (#[trigger] self.report.columns@[i]).is_changeset_tag_spec(),
    {
        needs_changeset_tags(&self.report.columns)
    }

    /// Takes the next record of the stream, with the tags of its changeset
    /// if they are known, and returns the rows it gives. The record becomes
    /// the previous one, whatever the result.
    pub fn process(&mut self, current: Record, changeset_tags: Option<Tags>) -> (r: Result<
        Vec<Row>,
        EngineError,
    >)
        ensures
            final(self).report == old(self).report,
            final(self).previous == Some(current),
            exists|chs: Seq<TagChange>|
                is_tag_diff(old_tags(comparable(old(self).previous, current)), current.tags@, chs)
                    && rows_result_view(r) == step_spec(
                    old(self).report,
                    old(self).previous,
                    current,
                    changeset_tags,
                    chs,
                ),
    {
        let r = self.step(&current, &changeset_tags);
        self.previous = Some(current);
        r
    }

    fn step(&self, current: &Record, cs: &Option<Tags>) -> (r: Result<Vec<Row>, EngineError>)
        ensures
            exists|chs: Seq<TagChange>|
                is_tag_diff(old_tags(comparable(self.previous, *current)), current.tags@, chs)
                    && rows_result_view(r) == step_spec(self.report, self.previous, *current, *cs, chs),
    {
        let prev: Option<&Record> = match &self.previous {
            Some(p) => if p.same_object(current) {
                Some(p)
            } else {
                None
            },
            None => None,
        };
        assert(opt_record(prev) == comparable(self.previous, *current));
        let empty: Tags = Vec::new();
        let chs = match prev {
            Some(p) => tag_changes(&p.tags, &current.tags),
            None => tag_changes(&empty, &current.tags),
        };
        assert(is_tag_diff(old_tags(comparable(self.previous, *current)), current.tags@, chs@));
        if let Some(p) = &self.previous {
            if !matches!(sorted_objects(p, current), Ordering::Less) {
                let r: Result<Vec<Row>, EngineError> = Err(EngineError::Unsorted);
                assert(rows_result_view(r) == step_spec(self.report, self.previous, *current, *cs, chs@));
                return r;
            }
        }
        let has_tags = match &self.previous {
            Some(p) => p.tagged() || current.tagged(),
            None => current.tagged(),
        };
        if !(has_tags && self.report.filters.uid_passes(current.uid)
            && self.report.filters.kinds.allows(current.kind)) {
            let r: Vec<Row> = Vec::new();
            assert(rows_view(r@) =~= Seq::<Seq<Seq<u8>>>::empty());
            let r: Result<Vec<Row>, EngineError> = Ok(r);
            assert(rows_result_view(r) == step_spec(self.report, self.previous, *current, *cs, chs@));
            return r;
        }
        assert(!out_of_order(self.previous, *current));
        let r = rows_of_changes(&self.report, &chs, current, prev, cs);
        assert(rows_result_view(r) == step_spec(self.report, self.previous, *current, *cs, chs@));
        r
    }
}

} // verus!
