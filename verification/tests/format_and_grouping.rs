use apology::csvfmt::{encode_field, encode_record, encode_records, parse_rows};
use apology::grouping::group_records;
use apology::record::Record;

fn rec(id: &str, country: &str, region: &str) -> Record {
    Record {
        id: id.to_string(),
        email: format!("{}@example.com", id),
        first_name: "A".to_string(),
        last_name: "B".to_string(),
        address1: "1 St".to_string(),
        address2: String::new(),
        city: "C".to_string(),
        region: region.to_string(),
        postal_code: "0".to_string(),
        country: country.to_string(),
        phone: "5".to_string(),
    }
}

#[test]
fn parse_splits_rows_and_fields() {
    let rows = parse_rows("a,b,c\nd,e,f\n");
    assert_eq!(rows, vec![vec!["a", "b", "c"], vec!["d", "e", "f"]]);
}

#[test]
fn parse_handles_missing_final_newline() {
    let rows = parse_rows("a,b\nc,d");
    assert_eq!(rows, vec![vec!["a", "b"], vec!["c", "d"]]);
}

#[test]
fn parse_handles_crlf_and_blank_lines() {
    let rows = parse_rows("a,b\r\n\r\nc,d\r\n");
    assert_eq!(rows, vec![vec!["a", "b"], vec!["c", "d"]]);
}

#[test]
fn parse_handles_lone_carriage_return_as_row_break() {
    let rows = parse_rows("a,b\rc,d");
    assert_eq!(rows, vec![vec!["a", "b"], vec!["c", "d"]]);
}

#[test]
fn parse_quoted_fields() {
    let rows = parse_rows("\"a,b\",c\n\"x \"\"y\"\"\",\"line\nbreak\"\n");
    assert_eq!(rows, vec![vec!["a,b", "c"], vec!["x \"y\"", "line\nbreak"]]);
}

#[test]
fn parse_empty_fields_and_trailing_comma() {
    let rows = parse_rows("a,,b,\n");
    assert_eq!(rows, vec![vec!["a", "", "b", ""]]);
}

#[test]
fn parse_empty_input_gives_no_rows() {
    let rows = parse_rows("");
    assert!(rows.is_empty());
    assert!(parse_rows("\n").is_empty());
}

#[test]
fn encode_plain_field_is_verbatim() {
    assert_eq!(encode_field("abc"), "abc");
    assert_eq!(encode_field(""), "");
}

#[test]
fn encode_quotes_fields_that_need_it() {
    assert_eq!(encode_field("a,b"), "\"a,b\"");
    assert_eq!(encode_field("a\"b"), "\"a\"\"b\"");
    assert_eq!(encode_field("a\nb"), "\"a\nb\"");
}

#[test]
fn encode_record_has_eleven_columns() {
    let r = rec("1", "USA", "IL");
    let line = encode_record(&r);
    assert_eq!(line, "1,1@example.com,A,B,1 St,,C,IL,0,USA,5\n");
}

#[test]
fn encode_round_trips_through_parse() {
    let r = rec("1", "US,A", "I\"L");
    let line = encode_record(&r);
    let rows = parse_rows(&line);
    assert_eq!(rows, vec![vec![
        "1", "1@example.com", "A", "B", "1 St", "", "C", "I\"L", "0", "US,A", "5",
    ]]);
}

#[test]
fn grouping_keeps_input_order_within_groups() {
    let records = vec![
        rec("1", "USA", "IL"),
        rec("2", "CAN", "ON"),
        rec("3", "USA", "IL"),
        rec("4", "USA", "NY"),
    ];
    let groups = group_records(records);
    assert_eq!(groups.len(), 3);
    assert_eq!(groups[0].key, "USA_IL");
    assert_eq!(groups[0].records.len(), 2);
    assert_eq!(groups[0].records[0].id, "1");
    assert_eq!(groups[0].records[1].id, "3");
    assert_eq!(groups[1].key, "CAN_ON");
    assert_eq!(groups[1].records[0].id, "2");
    assert_eq!(groups[2].key, "USA_NY");
    assert_eq!(groups[2].records[0].id, "4");
}

#[test]
fn grouping_is_a_partition_of_the_input() {
    let records = vec![
        rec("1", "USA", "IL"),
        rec("2", "CAN", "ON"),
        rec("3", "USA", "IL"),
    ];
    let groups = group_records(records);
    let mut ids: Vec<String> = groups
        .iter()
        .flat_map(|g| g.records.iter().map(|r| r.id.clone()))
        .collect();
    ids.sort();
    assert_eq!(ids, vec!["1", "2", "3"]);
    let mut keys: Vec<&str> = groups.iter().map(|g| g.key.as_str()).collect();
    keys.sort();
    keys.dedup();
    assert_eq!(keys.len(), groups.len());
}

#[test]
fn grouping_empty_input_gives_no_groups() {
    let groups = group_records(Vec::new());
    assert!(groups.is_empty());
}

#[test]
fn encode_records_concatenates_lines() {
    let out = encode_records(&vec![rec("1", "USA", "IL"), rec("2", "USA", "IL")]);
    assert_eq!(
        out,
        "1,1@example.com,A,B,1 St,,C,IL,0,USA,5\n2,2@example.com,A,B,1 St,,C,IL,0,USA,5\n"
    );
}
