use osm_tag_csv_history::column::Column;
use osm_tag_csv_history::engine::Engine;
use osm_tag_csv_history::filter::{FilterSet, KindFilter};
use osm_tag_csv_history::lists::{KeyList, PairList, UidList};
use osm_tag_csv_history::record::{ObjectKind, Record, Timestamp};
use osm_tag_csv_history::render::{EngineError, MissingField};

fn tags(pairs: &[(&str, &str)]) -> Vec<(String, String)> {
    pairs.iter().map(|(k, v)| (k.to_string(), v.to_string())).collect()
}

fn rec(kind: ObjectKind, id: i64, version: u32, t: &[(&str, &str)]) -> Record {
    Record {
        kind,
        id,
        version: Some(version),
        timestamp: Some(Timestamp::EpochNumber(0)),
        user: Some("alice".to_string()),
        uid: Some(7),
        changeset_id: Some(42),
        tags: tags(t),
    }
}

fn cols(names: &[&str]) -> Vec<Column> {
    names.iter().map(|n| Column::from_str(n).unwrap()).collect()
}

fn text_rows(rows: &[Vec<Vec<u8>>]) -> Vec<Vec<String>> {
    rows.iter()
        .map(|r| r.iter().map(|f| String::from_utf8(f.clone()).unwrap()).collect())
        .collect()
}

#[test]
fn first_record_reports_all_tags_as_insertions() {
    let mut e = Engine::new(cols(&["key", "new_value", "old_value", "tag_count_delta"]), FilterSet::pass_all());
    let rows = e.process(rec(ObjectKind::Node, 1, 1, &[("b", "2"), ("a", "1")]), None).unwrap();
    assert_eq!(
        text_rows(&rows),
        vec![vec!["a", "1", "", "+1"], vec!["b", "2", "", "+1"]]
    );
}

#[test]
fn only_changed_keys_are_reported() {
    let mut e = Engine::new(cols(&["key", "old_value", "new_value"]), FilterSet::pass_all());
    e.process(rec(ObjectKind::Way, 5, 1, &[("a", "1"), ("b", "2"), ("c", "3")]), None).unwrap();
    let rows = e.process(rec(ObjectKind::Way, 5, 2, &[("a", "1"), ("b", "9"), ("d", "4")]), None).unwrap();
    assert_eq!(
        text_rows(&rows),
        vec![vec!["b", "2", "9"], vec!["c", "3", ""], vec!["d", "", "4"]]
    );
}

#[test]
fn unsorted_stream_is_rejected() {
    let mut e = Engine::new(cols(&["key"]), FilterSet::pass_all());
    let first = e.process(rec(ObjectKind::Node, 1, 2, &[("a", "1")]), None).unwrap();
    assert_eq!(first.len(), 1);
    let r = e.process(rec(ObjectKind::Node, 1, 1, &[("a", "2")]), None);
    assert_eq!(r, Err(EngineError::Unsorted));
}

#[test]
fn duplicate_record_is_rejected() {
    let mut e = Engine::new(cols(&["key"]), FilterSet::pass_all());
    e.process(rec(ObjectKind::Way, 3, 1, &[]), None).unwrap();
    let r = e.process(rec(ObjectKind::Way, 3, 1, &[]), None);
    assert_eq!(r, Err(EngineError::Unsorted));
}

#[test]
fn kind_order_is_node_way_relation() {
    let mut e = Engine::new(cols(&["key"]), FilterSet::pass_all());
    e.process(rec(ObjectKind::Way, 1, 1, &[]), None).unwrap();
    let r = e.process(rec(ObjectKind::Node, 9, 1, &[]), None);
    assert_eq!(r, Err(EngineError::Unsorted));
    let mut e = Engine::new(cols(&["key"]), FilterSet::pass_all());
    e.process(rec(ObjectKind::Way, 9, 1, &[]), None).unwrap();
    assert!(e.process(rec(ObjectKind::Relation, 1, 1, &[]), None).is_ok());
}

#[test]
fn other_object_tags_are_insertions() {
    let mut e = Engine::new(cols(&["key", "old_value", "new_value", "old_version", "tag_count_delta"]), FilterSet::pass_all());
    e.process(rec(ObjectKind::Node, 1, 1, &[("a", "1")]), None).unwrap();
    let rows = e.process(rec(ObjectKind::Node, 2, 1, &[("a", "1")]), None).unwrap();
    assert_eq!(text_rows(&rows), vec![vec!["a", "", "1", "", "+1"]]);
}

#[test]
fn tag_count_delta_values() {
    let mut e = Engine::new(cols(&["key", "tag_count_delta"]), FilterSet::pass_all());
    e.process(rec(ObjectKind::Node, 1, 1, &[("gone", "x"), ("same", "s"), ("val", "1")]), None).unwrap();
    let rows = e.process(rec(ObjectKind::Node, 1, 2, &[("new", "y"), ("same", "s"), ("val", "2")]), None).unwrap();
    assert_eq!(
        text_rows(&rows),
        vec![vec!["gone", "-1"], vec!["new", "+1"], vec!["val", "0"]]
    );
}

#[test]
fn separate_lines_value_change_gives_two_rows() {
    let mut e = Engine::new(cols(&["key", "value", "value_count_delta"]), FilterSet::pass_all());
    e.process(rec(ObjectKind::Node, 1, 1, &[("oneway", "yes")]), None).unwrap();
    let rows = e.process(rec(ObjectKind::Node, 1, 2, &[("oneway", "no")]), None).unwrap();
    assert_eq!(
        text_rows(&rows),
        vec![vec!["oneway", "yes", "-1"], vec!["oneway", "no", "+1"]]
    );
}

#[test]
fn separate_lines_new_tag_gives_one_row() {
    let mut e = Engine::new(cols(&["key", "value", "value_count_delta"]), FilterSet::pass_all());
    e.process(rec(ObjectKind::Node, 1, 1, &[]), None).unwrap();
    let rows = e.process(rec(ObjectKind::Node, 1, 2, &[("name", "x")]), None).unwrap();
    assert_eq!(text_rows(&rows), vec![vec!["name", "x", "+1"]]);
}

fn tag_filter(k: &str, v: &str) -> FilterSet {
    let mut f = FilterSet::pass_all();
    f.tags = PairList::from_pairs(&vec![(k.to_string(), v.to_string())]);
    f
}

#[test]
fn tag_filter_matches_old_value() {
    let mut e = Engine::new(cols(&["key", "old_value", "new_value"]), tag_filter("highway", "primary"));
    e.process(rec(ObjectKind::Way, 1, 1, &[("highway", "primary")]), None).unwrap();
    let rows = e.process(rec(ObjectKind::Way, 1, 2, &[("highway", "secondary")]), None).unwrap();
    assert_eq!(text_rows(&rows), vec![vec!["highway", "primary", "secondary"]]);
}

#[test]
fn tag_filter_rejects_other_values() {
    let mut e = Engine::new(cols(&["key"]), tag_filter("highway", "primary"));
    e.process(rec(ObjectKind::Way, 1, 1, &[("highway", "tertiary")]), None).unwrap();
    let rows = e.process(rec(ObjectKind::Way, 1, 2, &[("highway", "secondary")]), None).unwrap();
    assert!(rows.is_empty());
}

#[test]
fn key_filter_drops_other_keys() {
    let mut f = FilterSet::pass_all();
    f.keys = KeyList::from_texts(&vec!["name".to_string()]);
    let mut e = Engine::new(cols(&["key"]), f);
    let rows = e.process(rec(ObjectKind::Node, 1, 1, &[("name", "x"), ("shop", "y")]), None).unwrap();
    assert_eq!(text_rows(&rows), vec![vec!["name"]]);
}

#[test]
fn uid_and_kind_filters_skip_records() {
    let mut f = FilterSet::pass_all();
    f.uids = Some(UidList::from_ids(&vec![8]));
    let mut e = Engine::new(cols(&["key"]), f);
    assert!(e.process(rec(ObjectKind::Node, 1, 1, &[("a", "1")]), None).unwrap().is_empty());
    let mut f = FilterSet::pass_all();
    f.kinds = KindFilter::from_letters("wr");
    let mut e = Engine::new(cols(&["key"]), f);
    assert!(e.process(rec(ObjectKind::Node, 1, 1, &[("a", "1")]), None).unwrap().is_empty());
    assert_eq!(e.process(rec(ObjectKind::Way, 1, 1, &[("a", "1")]), None).unwrap().len(), 1);
}

#[test]
fn unknown_changeset_gives_empty_fields() {
    let mut e = Engine::new(cols(&["key", "changeset.comment", "changeset.source"]), FilterSet::pass_all());
    assert!(e.needs_changeset_tags());
    let rows = e.process(rec(ObjectKind::Node, 1, 1, &[("a", "1")]), None).unwrap();
    assert_eq!(text_rows(&rows), vec![vec!["a", "", ""]]);
}

#[test]
fn known_changeset_tags_are_looked_up() {
    let mut e = Engine::new(cols(&["changeset.comment", "changeset.source"]), FilterSet::pass_all());
    let cs = Some(tags(&[("comment", "fix\troads")]));
    let rows = e.process(rec(ObjectKind::Node, 1, 1, &[("a", "1")]), cs).unwrap();
    assert_eq!(text_rows(&rows), vec![vec!["fix\troads", ""]]);
}

#[test]
fn record_columns_render() {
    let mut e = Engine::new(
        cols(&["id", "raw_id", "object_type_short", "object_type_long", "new_version", "old_version", "epoch", "username", "uid", "changeset_id", "iso_datetime"]),
        FilterSet::pass_all(),
    );
    let mut r = rec(ObjectKind::Relation, 123, 3, &[("a", "1")]);
    r.timestamp = Some(Timestamp::EpochNumber(86400));
    r.user = Some("bob\tsmith".to_string());
    let rows = e.process(r, None).unwrap();
    assert_eq!(
        text_rows(&rows),
        vec![vec!["r123", "123", "r", "relation", "3", "", "86400", "bob\\tsmith", "7", "42", "1970-01-02T00:00:00Z"]]
    );
}

#[test]
fn old_version_of_same_object() {
    let mut e = Engine::new(cols(&["new_version", "old_version"]), FilterSet::pass_all());
    e.process(rec(ObjectKind::Node, 1, 4, &[("a", "1")]), None).unwrap();
    let rows = e.process(rec(ObjectKind::Node, 1, 6, &[("a", "2")]), None).unwrap();
    assert_eq!(text_rows(&rows), vec![vec!["6", "4"]]);
}

#[test]
fn missing_user_is_an_error() {
    let mut e = Engine::new(cols(&["key", "username"]), FilterSet::pass_all());
    let mut r = rec(ObjectKind::Node, 1, 1, &[("a", "1")]);
    r.user = None;
    assert_eq!(e.process(r, None), Err(EngineError::Missing(MissingField::User)));
}

#[test]
fn untagged_pair_gives_no_rows() {
    let mut e = Engine::new(cols(&["username"]), FilterSet::pass_all());
    let mut r = rec(ObjectKind::Node, 1, 1, &[]);
    r.user = None;
    assert!(e.process(r, None).unwrap().is_empty());
}

#[test]
fn escaped_values_in_rows() {
    let mut e = Engine::new(cols(&["key", "new_value"]), FilterSet::pass_all());
    let rows = e.process(rec(ObjectKind::Node, 1, 1, &[("note", "a\tb\nc")]), None).unwrap();
    assert_eq!(text_rows(&rows), vec![vec!["note", "a\\tb\\nc"]]);
}

#[test]
fn iso_timestamp_passes_through() {
    let mut e = Engine::new(cols(&["iso_datetime", "epoch_datetime"]), FilterSet::pass_all());
    let mut r = rec(ObjectKind::Node, 1, 1, &[("a", "1")]);
    r.timestamp = Some(Timestamp::IsoString("1970-01-01T00:01:00Z".to_string()));
    let rows = e.process(r, None).unwrap();
    assert_eq!(text_rows(&rows), vec![vec!["1970-01-01T00:01:00Z", "60"]]);
}
