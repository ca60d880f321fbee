//! The columns that a report row can hold, their names and headers.

use vstd::prelude::*;
use std::cmp::Ordering;
use crate::order::compare_keys;

verus! {

/// One output column.
#[derive(Debug, PartialEq, Eq)]
pub enum Column {
    Key,
    NewValue,
    OldValue,
    Value,
    Id,
    RawId,
    ObjectTypeShort,
    ObjectTypeLong,
    NewVersion,
    OldVersion,
    IsoDatetime,
    EpochDatetime,
    Username,
    Uid,
    ChangesetId,
    ChangesetTag(String),
    TagCountDelta,
    ValueCountDelta,
}

/// A column name that no column has.
#[derive(Debug, PartialEq, Eq)]
pub enum ColumnError {
    Unknown(String),
}

/// The lower-case form of a text, as `str::to_lowercase` gives it.
pub uninterp spec fn lowercase_of(s: Seq<char>) -> Seq<char>;

/// A text without its leading and trailing white space, as `str::trim` gives it.
pub uninterp spec fn trimmed_of(s: Seq<char>) -> Seq<char>;

/// Relies on `str::to_lowercase`: the result depends on the text alone.
#[verifier::external_body]
pub(crate) fn lowercase(s: &str) -> (r: String)
    ensures
        r@ == lowercase_of(s@),
{
    s.to_lowercase()
}

/// Relies on `str::trim`: the result depends on the text alone.
#[verifier::external_body]
fn trim(s: &str) -> (r: &str)
    ensures
        r@ == trimmed_of(s@),
{
    s.trim()
}

pub const CHANGESET_PREFIX_LEN: usize = 10;

/// Whether `name` starts with `changeset.`.
pub open spec fn has_changeset_prefix(name: Seq<char>) -> bool {
    name.len() >= CHANGESET_PREFIX_LEN && name.subrange(0, CHANGESET_PREFIX_LEN as int) == "changeset."@
}

/// `c` is the column that the normalised name `name` stands for.
pub open spec fn names_column(name: Seq<char>, c: Column) -> bool {
    match c {
        Column::Key => name == "key"@,
        Column::NewValue => name == "new_value"@,
        Column::OldValue => name == "old_value"@,
        Column::Value => name == "value"@,
        Column::Id => name == "id"@,
        Column::RawId => name == "raw_id"@ || name == "osm_raw_id"@,
        Column::NewVersion => name == "new_version"@,
        Column::OldVersion => name == "old_version"@,
        Column::IsoDatetime => name == "datetime"@ || name == "iso_datetime"@ || name
            == "iso_timestamp"@,
        Column::EpochDatetime => name == "epoch"@ || name == "epoch_datetime"@ || name
            == "epoch_timestamp"@,
        Column::Username => name == "username"@,
        Column::Uid => name == "uid"@,
        Column::ChangesetId => name == "changeset_id"@,
        Column::ChangesetTag(t) => has_changeset_prefix(name) && t@ == name.subrange(
            CHANGESET_PREFIX_LEN as int,
            name.len() as int,
        ),
        Column::TagCountDelta => name == "tag_count_delta"@,
        Column::ValueCountDelta => name == "value_count_delta"@,
        Column::ObjectTypeShort => name == "object_type_short"@ || name == "osm_type_short"@,
        Column::ObjectTypeLong => name == "object_type_long"@ || name == "osm_type_long"@,
    }
}

/// The result of reading a normalised column name.
pub open spec fn parses_as(name: Seq<char>, r: Result<Column, ColumnError>) -> bool {
    match r {
        Ok(c) => names_column(name, c),
        Err(ColumnError::Unknown(n)) => n@ == name && forall|c: Column| !names_column(name, c),
    }
}

/// Whether two texts are equal.
pub fn text_eq(a: &str, b: &str) -> (r: bool)
    ensures
        r == (a@ == b@),
{
    matches!(compare_keys(a, b), Ordering::Equal)
}

/// Reads a column name that is already lower case and trimmed.
pub fn column_from_name(name: &str) -> (r: Result<Column, ColumnError>)
    ensures
        parses_as(name@, r),
{
    if text_eq(name, "key") {
        Ok(Column::Key)
    } else if text_eq(name, "new_value") {
        Ok(Column::NewValue)
    } else if text_eq(name, "old_value") {
        Ok(Column::OldValue)
    } else if text_eq(name, "value") {
        Ok(Column::Value)
    } else if text_eq(name, "id") {
        Ok(Column::Id)
    } else if text_eq(name, "raw_id") || text_eq(name, "osm_raw_id") {
        Ok(Column::RawId)
    } else if text_eq(name, "new_version") {
        Ok(Column::NewVersion)
    } else if text_eq(name, "old_version") {
        Ok(Column::OldVersion)
    } else if text_eq(name, "datetime") || text_eq(name, "iso_datetime") || text_eq(
        name,
        "iso_timestamp",
    ) {
        Ok(Column::IsoDatetime)
    } else if text_eq(name, "epoch") || text_eq(name, "epoch_datetime") || text_eq(
        name,
        "epoch_timestamp",
    ) {
        Ok(Column::EpochDatetime)
    } else if text_eq(name, "username") {
        Ok(Column::Username)
    } else if text_eq(name, "uid") {
        Ok(Column::Uid)
    } else if text_eq(name, "changeset_id") {
        Ok(Column::ChangesetId)
    } else if text_eq(name, "tag_count_delta") {
        Ok(Column::TagCountDelta)
    } else if text_eq(name, "value_count_delta") {
        Ok(Column::ValueCountDelta)
    } else if text_eq(name, "object_type_short") || text_eq(name, "osm_type_short") {
        Ok(Column::ObjectTypeShort)
    } else if text_eq(name, "object_type_long") || text_eq(name, "osm_type_long") {
        Ok(Column::ObjectTypeLong)
    } else {
        let n = name.unicode_len();
        if n >= CHANGESET_PREFIX_LEN && text_eq(name.substring_char(0, CHANGESET_PREFIX_LEN), "changeset.") {
            let rest = name.substring_char(CHANGESET_PREFIX_LEN, n);
            Ok(Column::ChangesetTag(rest.to_owned()))
        } else {
            let r = Err(ColumnError::Unknown(name.to_owned()));
            assert forall|c: Column| !names_column(name@, c) by {
                if let Column::ChangesetTag(t) = c {
                    if has_changeset_prefix(name@) {
                        assert(name@.subrange(0, 10) == "changeset."@);
                    }
                }
            }
            r
        }
    }
}

impl Column {
    /// Reads a column name; case and surrounding white space do not matter.
    pub fn from_str(val: &str) -> (r: Result<Column, ColumnError>)
        ensures
            parses_as(trimmed_of(lowercase_of(val@)), r),
    {
        let lower = lowercase(val);
        let name = trim(lower.as_str());
        column_from_name(name)
    }

    pub open spec fn is_changeset_tag_spec(&self) -> bool {
        self is ChangesetTag
    }

    /// Whether the column reads the changeset's own tags.
    pub fn is_changeset_tag(&self) -> (r: bool)
        ensures
            r == self.is_changeset_tag_spec(),
    {
        matches!(self, Column::ChangesetTag(_))
    }

    pub open spec fn header_spec(&self) -> Seq<char> {
        match self {
            Column::Key => "key"@,
            Column::NewValue => "new_value"@,
            Column::OldValue => "old_value"@,
            Column::Value => "value"@,
            Column::Id => "id"@,
            Column::RawId => "raw_id"@,
            Column::NewVersion => "new_version"@,
            Column::OldVersion => "old_version"@,
            Column::IsoDatetime => "iso_datetime"@,
            Column::EpochDatetime => "epoch_datetime"@,
            Column::Username => "username"@,
            Column::Uid => "uid"@,
            Column::ChangesetId => "changeset_id"@,
            Column::ChangesetTag(t) => "changeset_"@ + t@,
            Column::TagCountDelta => "tag_count_delta"@,
            Column::ValueCountDelta => "value_count_delta"@,
            Column::ObjectTypeShort => "object_type_short"@,
            Column::ObjectTypeLong => "object_type_long"@,
        }
    }

    /// The column's header text.
    pub fn header(&self) -> (r: String)
        ensures
            r@ == self.header_spec(),
    {
        match self {
            Column::Key => String::from_str("key"),
            Column::NewValue => String::from_str("new_value"),
            Column::OldValue => String::from_str("old_value"),
            Column::Value => String::from_str("value"),
            Column::Id => String::from_str("id"),
            Column::RawId => String::from_str("raw_id"),
            Column::NewVersion => String::from_str("new_version"),
            Column::OldVersion => String::from_str("old_version"),
            Column::IsoDatetime => String::from_str("iso_datetime"),
            Column::EpochDatetime => String::from_str("epoch_datetime"),
            Column::Username => String::from_str("username"),
            Column::Uid => String::from_str("uid"),
            Column::ChangesetId => String::from_str("changeset_id"),
            Column::ChangesetTag(t) => {
                let mut s = String::from_str("changeset_");
                s.append(t.as_str());
                s
            },
            Column::TagCountDelta => String::from_str("tag_count_delta"),
            Column::ValueCountDelta => String::from_str("value_count_delta"),
            Column::ObjectTypeShort => String::from_str("object_type_short"),
            Column::ObjectTypeLong => String::from_str("object_type_long"),
        }
    }
}

/// How the rows of one changed tag are laid out.
#[derive(Clone, Copy, Debug, PartialEq, Eq, Structural)]
pub enum LineType {
    /// One row per change, holding the old and the new value.
    OldNewValue,
    /// A row for the old value, if there was one, and a row for the new
    /// value, if there is one.
    SeparateLines,
}

/// Separate lines are used exactly when a value-count-delta column is asked for.
pub open spec fn line_type_of(columns: Seq<Column>) -> LineType {
    if exists|i: int| 0 <= i < columns.len() && (#[trigger] columns[i]) is ValueCountDelta {
        LineType::SeparateLines
    } else {
        LineType::OldNewValue
    }
}

/// Chooses the layout for a list of columns.
pub fn line_type_for(columns: &Vec<Column>) -> (r: LineType)
    ensures
        r == line_type_of(columns@),
{
    let n = columns.len();
    let mut i: usize = 0;
    while i < n
        invariant
            n == columns@.len(),
            i <= n,
            forall|j: int| 0 <= j < i ==> !((#[trigger] columns@[j]) is ValueCountDelta),
        decreases n - i,
    {
        if matches!(columns[i], Column::ValueCountDelta) {
            return LineType::SeparateLines;
        }
        i = i + 1;
    }
    LineType::OldNewValue
}

/// Whether some column reads the changeset's own tags.
pub fn needs_changeset_tags(columns: &Vec<Column>) -> (r: bool)
    ensures
        r == exists|i: int| 0 <= i < columns@.len() && (#[trigger] columns@[i]).is_changeset_tag_spec(),
{
    let n = columns.len();
    let mut i: usize = 0;
    while i < n
        invariant
            n == columns@.len(),
            i <= n,
            forall|j: int| 0 <= j < i ==> !(#[trigger] columns@[j]).is_changeset_tag_spec(),
        decreases n - i,
    {
        if columns[i].is_changeset_tag() {
            return true;
        }
        i = i + 1;
    }
    false
}

} // verus!
