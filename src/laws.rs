//! Properties of the engine that hold for all inputs, proved from the
//! contracts of the functions they speak of.

use vstd::prelude::*;
use vstd::utf8::encode_utf8;
use crate::column::{Column, LineType};
use crate::diff::{is_tag_diff, tag_value, TagChange, Tags};
use crate::engine::{comparable, old_tags, out_of_order, step_spec, Report};
use crate::filter::FilterSet;
use crate::lists::pair_items;
use crate::order::{key_lt, lemma_key_lt_irreflexive, lemma_key_lt_transitive};
use crate::record::Record;
use crate::render::{
    change_rows_spec,
    field_spec,
    minus_one,
    plus_one,
    row_spec,
    value_or_empty,
    zero,
    EngineError,
    RowSide,
};

verus! {

/// The keys reported for a pair are exactly the keys whose value (present
/// or absent) differs between the two versions; no reported change has equal
/// old and new values.
pub proof fn lemma_reported_keys_are_changed_keys(
    old: Seq<(String, String)>,
    new: Seq<(String, String)>,
    chs: Seq<TagChange>,
)
    requires
        is_tag_diff(old, new, chs),
    ensures
        forall|k: Seq<char>|
            (exists|i: int| 0 <= i < chs.len() && (#[trigger] chs[i].key@) == k) <==> tag_value(old, k)
                != tag_value(new, k),
        forall|i: int| 0 <= i < chs.len() ==> (#[trigger] chs[i]).old_chars() != chs[i].new_chars(),
{
    reveal(is_tag_diff);
    assert forall|k: Seq<char>|
        (exists|i: int| 0 <= i < chs.len() && (#[trigger] chs[i].key@) == k) implies tag_value(old, k)
        != tag_value(new, k) by {
        let i = choose|i: int| 0 <= i < chs.len() && (#[trigger] chs[i].key@) == k;
        assert(chs[i].wf());
    }
}

/// A record that is out of stream order stops the run with an ordering
/// error and gives no rows.
pub proof fn lemma_unsorted_input_is_rejected(
    rep: Report,
    prev: Record,
    cur: Record,
    cs: Option<Tags>,
    chs: Seq<TagChange>,
)
    requires
        out_of_order(Some(prev), cur),
    ensures
        step_spec(rep, Some(prev), cur, cs, chs) == Err::<Seq<Seq<Seq<u8>>>, EngineError>(
            EngineError::Unsorted,
        ),
{
}

/// When the previous record is another object, every reported change of the
/// current record is an insertion: its old value is absent.
pub proof fn lemma_new_object_changes_are_insertions(
    prev: Option<Record>,
    cur: Record,
    chs: Seq<TagChange>,
)
    requires
        match prev {
            Some(p) => !p.same_object_spec(&cur),
            None => true,
        },
        is_tag_diff(old_tags(comparable(prev, cur)), cur.tags@, chs),
    ensures
        forall|i: int| 0 <= i < chs.len() ==> (#[trigger] chs[i]).old_chars() is None,
        forall|i: int| 0 <= i < chs.len() ==> (#[trigger] chs[i]).new_chars() == tag_value(cur.tags@, chs[i].key@),
{
    reveal(is_tag_diff);
    assert forall|i: int| 0 <= i < chs.len() implies (#[trigger] chs[i]).old_chars() is None by {
        assert(old_tags(comparable(prev, cur)) =~= Seq::<(String, String)>::empty());
    }
}

/// The tag-count delta is `+1` for a tag that appeared, `-1` for one that
/// went away and `0` for one whose value changed.
pub proof fn lemma_tag_count_delta(
    c: TagChange,
    side: RowSide,
    cur: Record,
    prev: Option<Record>,
    cs: Option<Tags>,
)
    requires
        c.wf(),
    ensures
        c.old_chars() is None ==> field_spec(Column::TagCountDelta, c, side, cur, prev, cs) == Ok::<
            Seq<u8>,
            EngineError,
        >(plus_one()),
        c.new_chars() is None ==> field_spec(Column::TagCountDelta, c, side, cur, prev, cs) == Ok::<
            Seq<u8>,
            EngineError,
        >(minus_one()),
        c.old_chars() is Some && c.new_chars() is Some ==> field_spec(
            Column::TagCountDelta,
            c,
            side,
            cur,
            prev,
            cs,
        ) == Ok::<Seq<u8>, EngineError>(zero()),
{
}

/// Under the separate-lines layout a change gives one row per side on which
/// the tag is present: the first row, if the old value existed, is the
/// removal row (value-count delta `-1`, value the old one), and the last, if
/// the new value exists, is the addition row (`+1`, the new value).
pub proof fn lemma_separate_lines_rows(
    cols: Seq<Column>,
    c: TagChange,
    cur: Record,
    prev: Option<Record>,
    cs: Option<Tags>,
)
    requires
        c.wf(),
        change_rows_spec(LineType::SeparateLines, cols, c, cur, prev, cs) is Ok,
    ensures
        ({
            let rows = change_rows_spec(LineType::SeparateLines, cols, c, cur, prev, cs)->Ok_0;
            &&& rows.len() == (if c.old_chars() is Some {
                1int
            } else {
                0int
            }) + (if c.new_chars() is Some {
                1int
            } else {
                0int
            })
            &&& c.old_chars() is Some ==> row_spec(cols, c, RowSide::Old, cur, prev, cs) == Ok::<
                Seq<Seq<u8>>,
                EngineError,
            >(rows[0])
            &&& c.new_chars() is Some ==> row_spec(cols, c, RowSide::New, cur, prev, cs) == Ok::<
                Seq<Seq<u8>>,
                EngineError,
            >(rows[rows.len() - 1])
        }),
        field_spec(Column::ValueCountDelta, c, RowSide::Old, cur, prev, cs) == Ok::<
            Seq<u8>,
            EngineError,
        >(minus_one()),
        field_spec(Column::ValueCountDelta, c, RowSide::New, cur, prev, cs) == Ok::<
            Seq<u8>,
            EngineError,
        >(plus_one()),
        field_spec(Column::Value, c, RowSide::Old, cur, prev, cs) == Ok::<Seq<u8>, EngineError>(
            crate::render::escaped_text(value_or_empty(c.old_chars())),
        ),
        field_spec(Column::Value, c, RowSide::New, cur, prev, cs) == Ok::<Seq<u8>, EngineError>(
            crate::render::escaped_text(value_or_empty(c.new_chars())),
        ),
{
}

/// A `(key, value)` filter lets a change of that key through exactly when
/// the old or the new value equals the filter's value.
pub proof fn lemma_single_tag_filter(f: FilterSet, c: TagChange)
    requires
        pair_items(f.tags).len() == 1,
    ensures
        f.tag_passes_spec(c) <==> (pair_items(f.tags)[0].0 == c.key@ && (c.old_chars() == Some(
            pair_items(f.tags)[0].1,
        ) || c.new_chars() == Some(pair_items(f.tags)[0].1))),
{
    if f.tag_passes_spec(c) {
        let i = choose|i: int|
            0 <= i < pair_items(f.tags).len() && FilterSet::pair_matches(
                (#[trigger] pair_items(f.tags)[i]).0,
                pair_items(f.tags)[i].1,
                c.key@,
                c.old_chars(),
                c.new_chars(),
            );
        assert(i == 0);
    }
}

/// For a changeset that the store does not know, every changeset-tag column
/// is empty, and so is one naming a tag the changeset lacks; neither is an
/// error.
pub proof fn lemma_unknown_changeset_gives_empty_fields(
    t: String,
    c: TagChange,
    side: RowSide,
    cur: Record,
    prev: Option<Record>,
    cs: Option<Tags>,
)
    requires
        cur.changeset_id is Some,
    ensures
        cs is None ==> field_spec(Column::ChangesetTag(t), c, side, cur, prev, cs) == Ok::<
            Seq<u8>,
            EngineError,
        >(Seq::empty()),
        cs is Some && tag_value(cs->Some_0@, t@) is None ==> field_spec(
            Column::ChangesetTag(t),
            c,
            side,
            cur,
            prev,
            cs,
        ) == Ok::<Seq<u8>, EngineError>(Seq::empty()),
{
    assert(encode_utf8(Seq::<char>::empty()) =~= Seq::<u8>::empty());
}

pub open spec fn change_view(c: TagChange) -> (Seq<char>, Option<Seq<char>>, Option<Seq<char>>) {
    (c.key@, c.old_chars(), c.new_chars())
}

/// Two change lists that both describe the changes between the same tag
/// lists hold the same keys at the same positions.
proof fn lemma_tag_diff_same_keys(
    old: Seq<(String, String)>,
    new: Seq<(String, String)>,
    a: Seq<TagChange>,
    b: Seq<TagChange>,
    i: int,
)
    requires
        is_tag_diff(old, new, a),
        is_tag_diff(old, new, b),
        0 <= i,
        forall|j: int| 0 <= j < i && j < a.len() ==> j < b.len() && (#[trigger] a[j]).key@ == b[j].key@,
        i < a.len(),
    ensures
        i < b.len(),
        a[i].key@ == b[i].key@,
{
    reveal(is_tag_diff);
    let k = a[i].key@;
    assert(a[i].wf());
    assert(tag_value(old, k) != tag_value(new, k));
    let m = choose|m: int| 0 <= m < b.len() && (#[trigger] b[m].key@) == k;
    if m < i {
        assert(a[m].key@ == b[m].key@);
        assert(key_lt(a[m].key@, a[i].key@));
        lemma_key_lt_irreflexive(k);
    }
    let k2 = b[i].key@;
    assert(b[i].wf());
    assert(tag_value(old, k2) != tag_value(new, k2));
    let p = choose|p: int| 0 <= p < a.len() && (#[trigger] a[p].key@) == k2;
    if p < i {
        assert(a[p].key@ == b[p].key@);
        assert(key_lt(b[p].key@, b[i].key@));
        lemma_key_lt_irreflexive(k2);
    } else if p > i {
        assert(key_lt(a[i].key@, a[p].key@));
        if m > i {
            assert(key_lt(b[i].key@, b[m].key@));
            lemma_key_lt_transitive(k, k2, k);
            lemma_key_lt_irreflexive(k);
        }
    }
}

proof fn lemma_tag_diff_prefix(
    old: Seq<(String, String)>,
    new: Seq<(String, String)>,
    a: Seq<TagChange>,
    b: Seq<TagChange>,
    i: int,
)
    requires
        is_tag_diff(old, new, a),
        is_tag_diff(old, new, b),
        0 <= i <= a.len(),
    ensures
        forall|j: int| 0 <= j < i ==> j < b.len() && (#[trigger] a[j]).key@ == b[j].key@,
    decreases i,
{
    if i > 0 {
        lemma_tag_diff_prefix(old, new, a, b, i - 1);
        lemma_tag_diff_same_keys(old, new, a, b, i - 1);
    }
}

proof fn lemma_tag_diff_views_agree(
    old: Seq<(String, String)>,
    new: Seq<(String, String)>,
    a: Seq<TagChange>,
    b: Seq<TagChange>,
)
    requires
        is_tag_diff(old, new, a),
        is_tag_diff(old, new, b),
        a.len() == b.len(),
        forall|j: int| 0 <= j < a.len() ==> j < b.len() && (#[trigger] a[j]).key@ == b[j].key@,
    ensures
        forall|j: int| 0 <= j < a.len() ==> change_view(#[trigger] a[j]) == change_view(b[j]),
{
    reveal(is_tag_diff);
    assert forall|j: int| 0 <= j < a.len() implies change_view(#[trigger] a[j]) == change_view(b[j]) by {
        assert(a[j].key@ == b[j].key@);
    }
}

/// The changes between two tag lists are determined by the lists: any two
/// change lists that describe them agree in length, keys and both values.
pub proof fn lemma_tag_diff_unique(
    old: Seq<(String, String)>,
    new: Seq<(String, String)>,
    a: Seq<TagChange>,
    b: Seq<TagChange>,
)
    requires
        is_tag_diff(old, new, a),
        is_tag_diff(old, new, b),
    ensures
        a.map_values(|c: TagChange| change_view(c)) == b.map_values(|c: TagChange| change_view(c)),
{
    lemma_tag_diff_prefix(old, new, a, b, a.len() as int);
    lemma_tag_diff_prefix(old, new, b, a, b.len() as int);
    if a.len() > 0 {
        assert(a[a.len() - 1].key@ == b[a.len() - 1].key@);
    }
    if b.len() > 0 {
        assert(b[b.len() - 1].key@ == a[b.len() - 1].key@);
    }
    lemma_tag_diff_views_agree(old, new, a, b);
    assert(a.map_values(|c: TagChange| change_view(c)) =~= b.map_values(|c: TagChange| change_view(c)));
}

} // verus!
