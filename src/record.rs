//! One version of one map object, and the order of a version stream.

use vstd::prelude::*;
use std::cmp::Ordering;
use crate::diff::Tags;

verus! {

/// The three kinds of map object, in their stream order.
#[derive(Clone, Copy, Debug, PartialEq, Eq, Structural)]
pub enum ObjectKind {
    Node,
    Way,
    Relation,
}

/// Position of a kind in the stream order: nodes, then ways, then relations.
pub open spec fn kind_rank(k: ObjectKind) -> int {
    match k {
        ObjectKind::Node => 0,
        ObjectKind::Way => 1,
        ObjectKind::Relation => 2,
    }
}

/// The instant of a version, as the source gave it: an ISO-8601 text or a
/// number of seconds since the Unix epoch.
#[derive(Clone, Debug, PartialEq, Eq)]
pub enum Timestamp {
    IsoString(String),
    EpochNumber(i64),
}

/// The ISO-8601 text that osmio gives for a number of seconds since the epoch.
pub uninterp spec fn iso_of_epoch(t: int) -> Seq<char>;

/// The number of seconds since the epoch that osmio reads from an ISO-8601 text.
pub uninterp spec fn epoch_of_iso(s: Seq<char>) -> int;

/// Relies on osmio's `TimestampFormat::to_iso_string` for an epoch number:
/// the text depends on the number alone.
#[verifier::external_body]
fn epoch_to_iso(t: i64) -> (r: String)
    ensures
        r@ == iso_of_epoch(t as int),
{
    osmio::TimestampFormat::EpochNumber(t).to_iso_string()
}

/// Relies on osmio's `TimestampFormat::to_epoch_number` for an ISO-8601 text:
/// the number depends on the text alone.
#[verifier::external_body]
fn iso_to_epoch(s: &String) -> (r: i64)
    ensures
        r as int == epoch_of_iso(s@),
{
    osmio::TimestampFormat::ISOString(s.clone()).to_epoch_number()
}

impl Timestamp {
    pub open spec fn iso_spec(&self) -> Seq<char> {
        match self {
            Timestamp::IsoString(s) => s@,
            Timestamp::EpochNumber(t) => iso_of_epoch(*t as int),
        }
    }

    pub open spec fn epoch_spec(&self) -> int {
        match self {
            Timestamp::IsoString(s) => epoch_of_iso(s@),
            Timestamp::EpochNumber(t) => *t as int,
        }
    }

    /// The instant as ISO-8601 text.
    pub fn to_iso_string(&self) -> (r: String)
        ensures
            r@ == self.iso_spec(),
    {
        match self {
            Timestamp::IsoString(s) => s.clone(),
            Timestamp::EpochNumber(t) => epoch_to_iso(*t),
        }
    }

    /// The instant as seconds since the epoch.
    pub fn to_epoch_number(&self) -> (r: i64)
        ensures
            r as int == self.epoch_spec(),
    {
        match self {
            Timestamp::IsoString(s) => iso_to_epoch(s),
            Timestamp::EpochNumber(t) => *t,
        }
    }
}

/// One version of one object.
#[derive(Clone, Debug, PartialEq, Eq)]
pub struct Record {
    pub kind: ObjectKind,
    pub id: i64,
    pub version: Option<u32>,
    pub timestamp: Option<Timestamp>,
    pub user: Option<String>,
    pub uid: Option<u32>,
    pub changeset_id: Option<u32>,
    pub tags: Tags,
}

/// The order of two optional version numbers: an absent one comes first.
pub open spec fn version_order(a: Option<u32>, b: Option<u32>) -> Ordering {
    match (a, b) {
        (None, None) => Ordering::Equal,
        (None, Some(_)) => Ordering::Less,
        (Some(_), None) => Ordering::Greater,
        (Some(x), Some(y)) => if x < y {
            Ordering::Less
        } else if x == y {
            Ordering::Equal
        } else {
            Ordering::Greater
        },
    }
}

/// The stream order of two records: by kind, then id, then version.
pub open spec fn record_order(a: Record, b: Record) -> Ordering {
    if kind_rank(a.kind) < kind_rank(b.kind) {
        Ordering::Less
    } else if kind_rank(a.kind) > kind_rank(b.kind) {
        Ordering::Greater
    } else if a.id < b.id {
        Ordering::Less
    } else if a.id > b.id {
        Ordering::Greater
    } else {
        version_order(a.version, b.version)
    }
}

impl Record {
    pub open spec fn tagged_spec(&self) -> bool {
        self.tags@.len() > 0
    }

    /// Whether the record carries at least one tag.
    pub fn tagged(&self) -> (r: bool)
        ensures
            r == self.tagged_spec(),
    {
        self.tags.len() > 0
    }

    pub open spec fn same_object_spec(&self, other: &Record) -> bool {
        self.kind == other.kind && self.id == other.id
    }

    /// Whether two records are versions of the same object.
    pub fn same_object(&self, other: &Record) -> (r: bool)
        ensures
            r == self.same_object_spec(other),
    {
        self.kind == other.kind && self.id == other.id
    }
}

fn kind_index(k: ObjectKind) -> (r: u8)
    ensures
        r as int == kind_rank(k),
{
    match k {
        ObjectKind::Node => 0,
        ObjectKind::Way => 1,
        ObjectKind::Relation => 2,
    }
}

/// Compares two records in stream order.
pub fn sorted_objects(a: &Record, b: &Record) -> (r: Ordering)
    ensures
        r == record_order(*a, *b),
{
    let ka = kind_index(a.kind);
    let kb = kind_index(b.kind);
    if ka < kb {
        Ordering::Less
    } else if ka > kb {
        Ordering::Greater
    } else if a.id < b.id {
        Ordering::Less
    } else if a.id > b.id {
        Ordering::Greater
    } else {
        match (a.version, b.version) {
            (None, None) => Ordering::Equal,
            (None, Some(_)) => Ordering::Less,
            (Some(_), None) => Ordering::Greater,
            (Some(x), Some(y)) => if x < y {
                Ordering::Less
            } else if x == y {
                Ordering::Equal
            } else {
                Ordering::Greater
            },
        }
    }
}

} // verus!
