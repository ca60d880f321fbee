//! Rendering of one report row: one byte field per configured column.

use vstd::prelude::*;
use vstd::utf8::encode_utf8;
use crate::column::{Column, LineType};
use crate::decimal::{decimal, decimal_bytes, signed_decimal, signed_decimal_bytes};
use crate::diff::{find_tag, tag_value, TagChange, Tags};
use crate::escape::{encode_field, escape_bytes};
use crate::record::{ObjectKind, Record};

verus! {

/// Which value of a change a row stands for. A change laid out on one line
/// uses `Old`; on separate lines the removal row is `Old` and the addition
/// row is `New`.
#[derive(Clone, Copy, Debug, PartialEq, Eq, Structural)]
pub enum RowSide {
    Old,
    New,
}

/// A field that a column needs and the record lacks.
#[derive(Clone, Copy, Debug, PartialEq, Eq, Structural)]
pub enum MissingField {
    Version,
    Timestamp,
    User,
    Uid,
    ChangesetId,
}

/// Why a run stops.
#[derive(Clone, Copy, Debug, PartialEq, Eq, Structural)]
pub enum EngineError {
    /// A record does not come after the one before it in stream order.
    Unsorted,
    /// A record lacks a field that a configured column renders.
    Missing(MissingField),
}

/// One output row: a byte field per column.
pub type Row = Vec<Vec<u8>>;

pub open spec fn row_view(r: Seq<Vec<u8>>) -> Seq<Seq<u8>> {
    r.map_values(|f: Vec<u8>| f@)
}

pub open spec fn value_or_empty(o: Option<Seq<char>>) -> Seq<char> {
    match o {
        Some(v) => v,
        None => Seq::empty(),
    }
}

/// The escaped bytes of a text.
pub open spec fn escaped_text(s: Seq<char>) -> Seq<u8> {
    escape_bytes(encode_utf8(s))
}

pub open spec fn kind_letter(k: ObjectKind) -> Seq<u8> {
    match k {
        ObjectKind::Node => seq![110u8],
        ObjectKind::Way => seq![119u8],
        ObjectKind::Relation => seq![114u8],
    }
}

pub open spec fn kind_word(k: ObjectKind) -> Seq<u8> {
    match k {
        ObjectKind::Node => seq![110u8, 111u8, 100u8, 101u8],
        ObjectKind::Way => seq![119u8, 97u8, 121u8],
        ObjectKind::Relation => seq![114u8, 101u8, 108u8, 97u8, 116u8, 105u8, 111u8, 110u8],
    }
}

pub open spec fn plus_one() -> Seq<u8> {
    seq![43u8, 49u8]
}

pub open spec fn minus_one() -> Seq<u8> {
    seq![45u8, 49u8]
}

pub open spec fn zero() -> Seq<u8> {
    seq![48u8]
}

/// `+1` for a tag that appeared, `-1` for one that went away, `0` for a new value.
pub open spec fn tag_count_delta(c: TagChange) -> Seq<u8> {
    if c.old_chars() is None {
        plus_one()
    } else if c.new_chars() is None {
        minus_one()
    } else {
        zero()
    }
}

pub open spec fn side_value(c: TagChange, side: RowSide) -> Option<Seq<char>> {
    match side {
        RowSide::Old => c.old_chars(),
        RowSide::New => c.new_chars(),
    }
}

pub open spec fn opt_record(r: Option<&Record>) -> Option<Record> {
    match r {
        Some(p) => Some(*p),
        None => None,
    }
}

/// The field of column `col` in the row for side `side` of change `c`, where
/// `cur` is the current record, `prev` the previous version of the same
/// object if the stream had one just before, and `cs` the tags of the
/// current record's changeset, if the changeset is known.
pub open spec fn field_spec(
    col: Column,
    c: TagChange,
    side: RowSide,
    cur: Record,
    prev: Option<Record>,
    cs: Option<Tags>,
) -> Result<Seq<u8>, EngineError> {
    match col {
        Column::Key => Ok(escaped_text(c.key@)),
        Column::NewValue => Ok(escaped_text(value_or_empty(c.new_chars()))),
        Column::OldValue => Ok(escaped_text(value_or_empty(c.old_chars()))),
        Column::Value => Ok(escaped_text(value_or_empty(side_value(c, side)))),
        Column::Id => Ok(kind_letter(cur.kind) + signed_decimal(cur.id as int)),
        Column::RawId => Ok(signed_decimal(cur.id as int)),
        Column::ObjectTypeShort => Ok(kind_letter(cur.kind)),
        Column::ObjectTypeLong => Ok(kind_word(cur.kind)),
        Column::NewVersion => match cur.version {
            Some(v) => Ok(decimal(v as nat)),
            None => Err(EngineError::Missing(MissingField::Version)),
        },
        Column::OldVersion => match prev {
            None => Ok(Seq::empty()),
            Some(p) => match p.version {
                Some(v) => Ok(decimal(v as nat)),
                None => Err(EngineError::Missing(MissingField::Version)),
            },
        },
        Column::IsoDatetime => match cur.timestamp {
            Some(t) => Ok(encode_utf8(t.iso_spec())),
            None => Err(EngineError::Missing(MissingField::Timestamp)),
        },
        Column::EpochDatetime => match cur.timestamp {
            Some(t) => Ok(signed_decimal(t.epoch_spec())),
            None => Err(EngineError::Missing(MissingField::Timestamp)),
        },
        Column::Username => match cur.user {
            Some(u) => Ok(escaped_text(u@)),
            None => Err(EngineError::Missing(MissingField::User)),
        },
        Column::Uid => match cur.uid {
            Some(u) => Ok(decimal(u as nat)),
            None => Err(EngineError::Missing(MissingField::Uid)),
        },
        Column::ChangesetId => match cur.changeset_id {
            Some(id) => Ok(decimal(id as nat)),
            None => Err(EngineError::Missing(MissingField::ChangesetId)),
        },
        Column::ChangesetTag(t) => match cur.changeset_id {
            None => Err(EngineError::Missing(MissingField::ChangesetId)),
            Some(_) => match cs {
                None => Ok(Seq::empty()),
                Some(pairs) => Ok(encode_utf8(value_or_empty(tag_value(pairs@, t@)))),
            },
        },
        Column::TagCountDelta => Ok(tag_count_delta(c)),
        Column::ValueCountDelta => Ok(
            match side {
                RowSide::Old => minus_one(),
                RowSide::New => plus_one(),
            },
        ),
    }
}

pub open spec fn field_view(r: Result<Vec<u8>, EngineError>) -> Result<Seq<u8>, EngineError> {
    match r {
        Ok(v) => Ok(v@),
        Err(e) => Err(e),
    }
}

fn kind_letter_bytes(k: ObjectKind) -> (r: Vec<u8>)
    ensures
        r@ == kind_letter(k),
{
    let mut out: Vec<u8> = Vec::new();
    match k {
        ObjectKind::Node => out.push(110u8),
        ObjectKind::Way => out.push(119u8),
        ObjectKind::Relation => out.push(114u8),
    }
    assert(out@ =~= kind_letter(k));
    out
}

fn push_all(out: &mut Vec<u8>, s: &[u8])
    ensures
        final(out)@ == old(out)@ + s@,
{
    let n = s.len();
    let mut i: usize = 0;
    while i < n
        invariant
            n == s@.len(),
            i <= n,
            out@ == old(out)@ + s@.subrange(0, i as int),
        decreases n - i,
    {
        out.push(s[i]);
        i = i + 1;
        assert(out@ =~= old(out)@ + s@.subrange(0, i as int));
    }
    assert(s@.subrange(0, n as int) =~= s@);
}

fn bytes_of(s: &[u8]) -> (r: Vec<u8>)
    ensures
        r@ == s@,
{
    let mut out: Vec<u8> = Vec::new();
    push_all(&mut out, s);
    assert(out@ =~= s@);
    out
}

fn kind_word_bytes(k: ObjectKind) -> (r: Vec<u8>)
    ensures
        r@ == kind_word(k),
{
    let r = match k {
        ObjectKind::Node => bytes_of(&[110u8, 111u8, 100u8, 101u8]),
        ObjectKind::Way => bytes_of(&[119u8, 97u8, 121u8]),
        ObjectKind::Relation => bytes_of(&[114u8, 101u8, 108u8, 97u8, 116u8, 105u8, 111u8, 110u8]),
    };
    assert(r@ =~= kind_word(k));
    r
}

fn escaped(s: &str) -> (r: Vec<u8>)
    ensures
        r@ == escaped_text(s@),
{
    let mut out: Vec<u8> = Vec::new();
    encode_field(s, &mut out);
    out
}

fn escaped_opt(o: &Option<String>) -> (r: Vec<u8>)
    ensures
        r@ == escaped_text(value_or_empty(crate::diff::opt_chars(*o))),
{
    match o {
        Some(s) => escaped(s.as_str()),
        None => {
            let r = escaped("");
            proof {
                reveal_strlit("");
            }
            r
        },
    }
}

fn delta_bytes(plus: bool) -> (r: Vec<u8>)
    ensures
        r@ == if plus {
            plus_one()
        } else {
            minus_one()
        },
{
    let mut out: Vec<u8> = Vec::new();
    if plus {
        out.push(43u8);
    } else {
        out.push(45u8);
    }
    out.push(49u8);
    assert(out@ =~= if plus {
        plus_one()
    } else {
        minus_one()
    });
    out
}

/// Renders one field.
pub fn render_field(
    col: &Column,
    c: &TagChange,
    side: RowSide,
    cur: &Record,
    prev: Option<&Record>,
    cs: &Option<Tags>,
) -> (r: Result<Vec<u8>, EngineError>)
    ensures
        field_view(r) == field_spec(*col, *c, side, *cur, opt_record(prev), *cs),
{
    match col {
        Column::Key => Ok(escaped(c.key.as_str())),
        Column::NewValue => Ok(escaped_opt(&c.new_value)),
        Column::OldValue => Ok(escaped_opt(&c.old_value)),
        Column::Value => match side {
            RowSide::Old => Ok(escaped_opt(&c.old_value)),
            RowSide::New => Ok(escaped_opt(&c.new_value)),
        },
        Column::Id => {
            let mut out = kind_letter_bytes(cur.kind);
            let digits = signed_decimal_bytes(cur.id);
            push_all(&mut out, digits.as_slice());
            Ok(out)
        },
        Column::RawId => Ok(signed_decimal_bytes(cur.id)),
        Column::ObjectTypeShort => Ok(kind_letter_bytes(cur.kind)),
        Column::ObjectTypeLong => Ok(kind_word_bytes(cur.kind)),
        Column::NewVersion => match cur.version {
            Some(v) => Ok(decimal_bytes(v as u64)),
            None => Err(EngineError::Missing(MissingField::Version)),
        },
        Column::OldVersion => match prev {
            None => Ok(Vec::new()),
            Some(p) => match p.version {
                Some(v) => Ok(decimal_bytes(v as u64)),
                None => Err(EngineError::Missing(MissingField::Version)),
            },
        },
        Column::IsoDatetime => match &cur.timestamp {
            Some(t) => {
                let s = t.to_iso_string();
                Ok(s.as_str().as_bytes_vec())
            },
            None => Err(EngineError::Missing(MissingField::Timestamp)),
        },
        Column::EpochDatetime => match &cur.timestamp {
            Some(t) => Ok(signed_decimal_bytes(t.to_epoch_number())),
            None => Err(EngineError::Missing(MissingField::Timestamp)),
        },
        Column::Username => match &cur.user {
            Some(u) => Ok(escaped(u.as_str())),
            None => Err(EngineError::Missing(MissingField::User)),
        },
        Column::Uid => match cur.uid {
            Some(u) => Ok(decimal_bytes(u as u64)),
            None => Err(EngineError::Missing(MissingField::Uid)),
        },
        Column::ChangesetId => match cur.changeset_id {
            Some(id) => Ok(decimal_bytes(id as u64)),
            None => Err(EngineError::Missing(MissingField::ChangesetId)),
        },
        Column::ChangesetTag(t) => match cur.changeset_id {
            None => Err(EngineError::Missing(MissingField::ChangesetId)),
            Some(_) => match cs {
                None => Ok(Vec::new()),
                Some(pairs) => match find_tag(pairs, t) {
                    Some(v) => Ok(v.as_str().as_bytes_vec()),
                    None => Ok(Vec::new()),
                },
            },
        },
        Column::TagCountDelta => {
            if c.old_value.is_none() {
                Ok(delta_bytes(true))
            } else if c.new_value.is_none() {
                Ok(delta_bytes(false))
            } else {
                let mut out: Vec<u8> = Vec::new();
                out.push(48u8);
                assert(out@ =~= zero());
                Ok(out)
            }
        },
        Column::ValueCountDelta => match side {
            RowSide::Old => Ok(delta_bytes(false)),
            RowSide::New => Ok(delta_bytes(true)),
        },
    }
}

/// The fields of a row, column by column; the first column that fails decides
/// the error.
pub open spec fn row_spec(
    cols: Seq<Column>,
    c: TagChange,
    side: RowSide,
    cur: Record,
    prev: Option<Record>,
    cs: Option<Tags>,
) -> Result<Seq<Seq<u8>>, EngineError>
    decreases cols.len(),
{
    if cols.len() == 0 {
        Ok(Seq::empty())
    } else {
        match row_spec(cols.drop_last(), c, side, cur, prev, cs) {
            Err(e) => Err(e),
            Ok(fs) => match field_spec(cols.last(), c, side, cur, prev, cs) {
                Err(e) => Err(e),
                Ok(f) => Ok(fs.push(f)),
            },
        }
    }
}

pub open spec fn row_result_view(r: Result<Row, EngineError>) -> Result<Seq<Seq<u8>>, EngineError> {
    match r {
        Ok(v) => Ok(row_view(v@)),
        Err(e) => Err(e),
    }
}

/// Renders one row.
pub fn render_row(
    cols: &Vec<Column>,
    c: &TagChange,
    side: RowSide,
    cur: &Record,
    prev: Option<&Record>,
    cs: &Option<Tags>,
) -> (r: Result<Row, EngineError>)
    ensures
        row_result_view(r) == row_spec(cols@, *c, side, *cur, opt_record(prev), *cs),
{
    let n = cols.len();
    let mut out: Row = Vec::new();
    let mut i: usize = 0;
    assert(cols@.subrange(0, 0) =~= Seq::<Column>::empty());
    assert(row_view(out@) =~= Seq::<Seq<u8>>::empty());
    while i < n
        invariant
            n == cols@.len(),
            i <= n,
            row_spec(cols@.subrange(0, i as int), *c, side, *cur, opt_record(prev), *cs) == Ok::<
                Seq<Seq<u8>>,
                EngineError,
            >(row_view(out@)),
        decreases n - i,
    {
        let ghost before = out@;
        assert(cols@.subrange(0, i + 1).drop_last() =~= cols@.subrange(0, i as int));
        assert(cols@.subrange(0, i + 1).last() == cols@[i as int]);
        match render_field(&cols[i], c, side, cur, prev, cs) {
            Err(e) => {
                proof {
                    lemma_row_spec_err_extends(cols@, i as int + 1, *c, side, *cur, opt_record(prev), *cs);
                }
                return Err(e);
            },
            Ok(f) => {
                out.push(f);
                assert(row_view(out@) =~= row_view(before).push(f@));
            },
        }
        i = i + 1;
    }
    assert(cols@.subrange(0, n as int) =~= cols@);
    Ok(out)
}

/// An error on a prefix of the columns is the error of the whole row.
proof fn lemma_row_spec_err_extends(
    cols: Seq<Column>,
    i: int,
    c: TagChange,
    side: RowSide,
    cur: Record,
    prev: Option<Record>,
    cs: Option<Tags>,
)
    requires
        0 <= i <= cols.len(),
        row_spec(cols.subrange(0, i), c, side, cur, prev, cs) is Err,
    ensures
        row_spec(cols, c, side, cur, prev, cs) == row_spec(cols.subrange(0, i), c, side, cur, prev, cs),
    decreases cols.len() - i,
{
    if i < cols.len() {
        let j = i + 1;
        assert(cols.subrange(0, j).drop_last() =~= cols.subrange(0, i));
        lemma_row_spec_err_extends(cols, j, c, side, cur, prev, cs);
    } else {
        assert(cols.subrange(0, i) =~= cols);
    }
}

/// The rows of one change under a layout.
pub open spec fn change_rows_spec(
    lt: LineType,
    cols: Seq<Column>,
    c: TagChange,
    cur: Record,
    prev: Option<Record>,
    cs: Option<Tags>,
) -> Result<Seq<Seq<Seq<u8>>>, EngineError> {
    match lt {
        LineType::OldNewValue => match row_spec(cols, c, RowSide::Old, cur, prev, cs) {
            Ok(r) => Ok(seq![r]),
            Err(e) => Err(e),
        },
        LineType::SeparateLines => {
            let first = if c.old_chars() is Some {
                match row_spec(cols, c, RowSide::Old, cur, prev, cs) {
                    Ok(r) => Ok(seq![r]),
                    Err(e) => Err(e),
                }
            } else {
                Ok(Seq::empty())
            };
            match first {
                Err(e) => Err(e),
                Ok(a) => if c.new_chars() is Some {
                    match row_spec(cols, c, RowSide::New, cur, prev, cs) {
                        Ok(r) => Ok(a.push(r)),
                        Err(e) => Err(e),
                    }
                } else {
                    Ok(a)
                },
            }
        },
    }
}

pub open spec fn rows_view(r: Seq<Row>) -> Seq<Seq<Seq<u8>>> {
    r.map_values(|row: Row| row_view(row@))
}

pub open spec fn rows_result_view(r: Result<Vec<Row>, EngineError>) -> Result<
    Seq<Seq<Seq<u8>>>,
    EngineError,
> {
    match r {
        Ok(v) => Ok(rows_view(v@)),
        Err(e) => Err(e),
    }
}

/// Renders the rows of one change.
pub fn change_rows(
    lt: LineType,
    cols: &Vec<Column>,
    c: &TagChange,
    cur: &Record,
    prev: Option<&Record>,
    cs: &Option<Tags>,
) -> (r: Result<Vec<Row>, EngineError>)
    ensures
        rows_result_view(r) == change_rows_spec(lt, cols@, *c, *cur, opt_record(prev), *cs),
{
    let mut out: Vec<Row> = Vec::new();
    match lt {
        LineType::OldNewValue => {
            let row = render_row(cols, c, RowSide::Old, cur, prev, cs)?;
            out.push(row);
            assert(rows_view(out@) =~= seq![row_view(out@[0]@)]);
        },
        LineType::SeparateLines => {
            if c.old_value.is_some() {
                let row = render_row(cols, c, RowSide::Old, cur, prev, cs)?;
                out.push(row);
            }
            let ghost first = out@;
            assert(rows_view(first) =~= if c.old_chars() is Some {
                seq![row_view(first[0]@)]
            } else {
                Seq::empty()
            });
            if c.new_value.is_some() {
                let row = render_row(cols, c, RowSide::New, cur, prev, cs)?;
                out.push(row);
                assert(rows_view(out@) =~= rows_view(first).push(row_view(row@)));
            }
        },
    }
    Ok(out)
}

} // verus!
