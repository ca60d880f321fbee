//! The tags of a changeset, as the changeset store keeps them: a JSON array
//! of `[key, value]` pairs.

use vstd::prelude::*;
use crate::diff::Tags;

verus! {

#[verifier::external_type_specification]
#[verifier::external_body]
pub struct ExJsonError(serde_json::Error);

/// The pairs that serde_json reads from a JSON array of two-string arrays;
/// `None` where the bytes are not such an array.
pub uninterp spec fn json_string_pairs(b: Seq<u8>) -> Option<Seq<(Seq<char>, Seq<char>)>>;

pub open spec fn pairs_view(v: Seq<(String, String)>) -> Seq<(Seq<char>, Seq<char>)> {
    v.map_values(|p: (String, String)| (p.0@, p.1@))
}

/// Relies on `serde_json::from_slice` into `Vec<(String, String)>`: the
/// outcome depends on the bytes alone.
#[verifier::external_body]
fn read_string_pairs(b: &[u8]) -> (r: Result<Vec<(String, String)>, serde_json::Error>)
    ensures
        match r {
            Ok(v) => json_string_pairs(b@) == Some(pairs_view(v@)),
            Err(_) => json_string_pairs(b@) is None,
        },
{
    serde_json::from_slice(b)
}

/// The stored tags of a changeset could not be read.
#[derive(Clone, Copy, Debug, PartialEq, Eq, Structural)]
pub enum ChangesetError {
    InvalidJson,
}

/// The tags of a changeset from what the store holds for it: `None` for a
/// changeset that the store does not know.
pub fn changeset_tags_from_json(stored: Option<Vec<u8>>) -> (r: Result<Option<Tags>, ChangesetError>)
    ensures
        match stored {
            None => r == Ok::<Option<Tags>, ChangesetError>(None),
            Some(b) => match json_string_pairs(b@) {
                None => r == Err::<Option<Tags>, ChangesetError>(ChangesetError::InvalidJson),
                Some(p) => r is Ok && r->Ok_0 is Some && pairs_view(r->Ok_0->Some_0@) == p,
            },
        },
{
    match stored {
        None => Ok(None),
        Some(b) => match read_string_pairs(b.as_slice()) {
            Ok(v) => Ok(Some(v)),
            Err(_) => Err(ChangesetError::InvalidJson),
        },
    }
}

} // verus!
