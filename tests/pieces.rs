use osm_tag_csv_history::output::{compression_for, output_format_for, Compression, OutputFormat};
use osm_tag_csv_history::changeset::{changeset_tags_from_json, ChangesetError};
use osm_tag_csv_history::column::{line_type_for, Column, ColumnError, LineType};
use osm_tag_csv_history::config::{parse_columns, parse_tag_filter, split_text};
use osm_tag_csv_history::decimal::{decimal_bytes, signed_decimal_bytes};
use osm_tag_csv_history::diff::tag_changes;
use osm_tag_csv_history::escape::{decode_field, encode_field};
use osm_tag_csv_history::filter::KindFilter;
use osm_tag_csv_history::order::compare_keys;
use osm_tag_csv_history::record::{sorted_objects, ObjectKind, Record};
use osm_tag_csv_history::time::{format_seconds, format_time};
use std::cmp::Ordering;
use std::time::Duration;

#[test]
fn encode_field_escapes_tab_and_newline() {
    let mut out = vec![1u8, 2];
    encode_field("a\tb\nc", &mut out);
    assert_eq!(out, b"a\\tb\\nc".to_vec());
    encode_field("é\t", &mut out);
    assert_eq!(out, "é\\t".as_bytes().to_vec());
}

#[test]
fn escape_round_trip() {
    let value = "x\ty\nz \\ end";
    let mut out = Vec::new();
    encode_field(value, &mut out);
    assert_eq!(decode_field(&out), value.as_bytes().to_vec());
}

#[test]
fn compare_keys_is_byte_order() {
    assert_eq!(compare_keys("a", "b"), Ordering::Less);
    assert_eq!(compare_keys("ab", "a"), Ordering::Greater);
    assert_eq!(compare_keys("name", "name"), Ordering::Equal);
    assert_eq!(compare_keys("Z", "a"), Ordering::Less);
    assert_eq!(compare_keys("z", "é"), Ordering::Less);
}

#[test]
fn tag_changes_are_sorted_and_exact() {
    let old = vec![("z".to_string(), "1".to_string()), ("a".to_string(), "x".to_string())];
    let new = vec![("m".to_string(), "".to_string()), ("a".to_string(), "x".to_string())];
    let ch = tag_changes(&old, &new);
    assert_eq!(ch.len(), 2);
    assert_eq!(ch[0].key, "m");
    assert_eq!(ch[0].old_value, None);
    assert_eq!(ch[0].new_value, Some(String::new()));
    assert_eq!(ch[1].key, "z");
    assert_eq!(ch[1].old_value, Some("1".to_string()));
    assert_eq!(ch[1].new_value, None);
}

#[test]
fn column_names_parse() {
    assert_eq!(Column::from_str("  KEY "), Ok(Column::Key));
    assert_eq!(Column::from_str("osm_raw_id"), Ok(Column::RawId));
    assert_eq!(Column::from_str("Epoch_Timestamp"), Ok(Column::EpochDatetime));
    assert_eq!(Column::from_str("changeset.Comment"), Ok(Column::ChangesetTag("comment".to_string())));
    assert_eq!(Column::from_str("bogus"), Err(ColumnError::Unknown("bogus".to_string())));
}

#[test]
fn column_headers() {
    assert_eq!(Column::Key.header(), "key");
    assert_eq!(Column::RawId.header(), "raw_id");
    assert_eq!(Column::ChangesetTag("source".to_string()).header(), "changeset_source");
    assert!(Column::ChangesetTag("x".to_string()).is_changeset_tag());
    assert!(!Column::Uid.is_changeset_tag());
}

#[test]
fn column_list_parses() {
    let c = parse_columns("key,new_value,value_count_delta").unwrap();
    assert_eq!(c, vec![Column::Key, Column::NewValue, Column::ValueCountDelta]);
    assert_eq!(line_type_for(&c), LineType::SeparateLines);
    let c = parse_columns("key,uid").unwrap();
    assert_eq!(line_type_for(&c), LineType::OldNewValue);
    assert_eq!(parse_columns("key,nope,alsonope"), Err(ColumnError::Unknown("nope".to_string())));
}

#[test]
fn split_text_keeps_empty_pieces() {
    assert_eq!(split_text("a,,b", ','), vec!["a", "", "b"]);
    assert_eq!(split_text("", ','), vec![""]);
}

#[test]
fn tag_filter_parse() {
    assert_eq!(parse_tag_filter("highway=primary"), Some(("highway".to_string(), "primary".to_string())));
    assert_eq!(parse_tag_filter("a=b=c"), Some(("a".to_string(), "b=c".to_string())));
    assert_eq!(parse_tag_filter("nokey"), None);
}

#[test]
fn kind_letters() {
    let k = KindFilter::from_letters("NW");
    assert!(k.node && k.way && !k.relation);
    let k = KindFilter::from_letters("r");
    assert!(!k.node && !k.way && k.relation);
}

#[test]
fn decimals() {
    assert_eq!(decimal_bytes(0), b"0".to_vec());
    assert_eq!(decimal_bytes(1234567), b"1234567".to_vec());
    assert_eq!(signed_decimal_bytes(-45), b"-45".to_vec());
    assert_eq!(signed_decimal_bytes(i64::MIN), i64::MIN.to_string().into_bytes());
}

#[test]
fn seconds_text() {
    assert_eq!(format_seconds(5), " 5s");
    assert_eq!(format_seconds(59), "59s");
    assert_eq!(format_seconds(60), " 1m00s");
    assert_eq!(format_seconds(3599), "59m59s");
    assert_eq!(format_seconds(3600 + 61), "1h01m01s");
    assert_eq!(format_seconds(2 * 86400 + 4 * 3600 + 5 * 60), "2d4h05m00s");
}

#[test]
fn duration_text_rounds() {
    assert_eq!(format_time(&Duration::from_millis(4600)), " 5s");
    assert_eq!(format_time(&Duration::from_millis(4400)), " 4s");
    assert_eq!(format_time(&Duration::from_secs(125)), " 2m05s");
}

#[test]
fn changeset_json() {
    assert_eq!(changeset_tags_from_json(None), Ok(None));
    let stored = br#"[["comment","hello"],["source","survey"]]"#.to_vec();
    assert_eq!(
        changeset_tags_from_json(Some(stored)),
        Ok(Some(vec![
            ("comment".to_string(), "hello".to_string()),
            ("source".to_string(), "survey".to_string())
        ]))
    );
    assert_eq!(changeset_tags_from_json(Some(b"{bad".to_vec())), Err(ChangesetError::InvalidJson));
}

fn bare(kind: ObjectKind, id: i64, version: Option<u32>) -> Record {
    Record { kind, id, version, timestamp: None, user: None, uid: None, changeset_id: None, tags: Vec::new() }
}

#[test]
fn record_order() {
    assert_eq!(sorted_objects(&bare(ObjectKind::Node, 5, Some(1)), &bare(ObjectKind::Way, 1, Some(1))), Ordering::Less);
    assert_eq!(sorted_objects(&bare(ObjectKind::Way, 5, Some(1)), &bare(ObjectKind::Way, 4, Some(9))), Ordering::Greater);
    assert_eq!(sorted_objects(&bare(ObjectKind::Way, 5, None), &bare(ObjectKind::Way, 5, Some(1))), Ordering::Less);
    assert_eq!(sorted_objects(&bare(ObjectKind::Relation, 5, Some(2)), &bare(ObjectKind::Relation, 5, Some(2))), Ordering::Equal);
}

#[test]
fn output_choices() {
    assert_eq!(output_format_for("auto", "out.tsv.gz"), Some(OutputFormat::Tsv));
    assert_eq!(output_format_for("auto", "-"), Some(OutputFormat::Csv));
    assert_eq!(output_format_for("tsv", "x.csv"), Some(OutputFormat::Tsv));
    assert_eq!(output_format_for("auto", "out.txt"), None);
    assert_eq!(compression_for("auto", "out.csv.gz"), Some(Compression::Gzip));
    assert_eq!(compression_for("auto", "/dev/fd/3"), Some(Compression::Plain));
    assert_eq!(compression_for("auto", "out.csv"), Some(Compression::Plain));
    assert_eq!(compression_for("auto", "out.bin"), None);
    assert_eq!(compression_for("gzip", "out.bin"), Some(Compression::Gzip));
}
