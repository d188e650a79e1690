use apology::pipeline::{output_name, process};
use apology::record::pull_records;
use apology::translator::create_translator;

#[test]
fn output_name_uses_fixed_template() {
    assert_eq!(output_name("USA_IL"), "apology.USA_IL.csv");
    assert_eq!(output_name(""), "apology..csv");
}

#[test]
fn round_trip_single_record() {
    let t = create_translator();
    let input = "1,a@b.com,Jo,Doe,1 Main St,Springfield,IL,62704,0000,217-555-0100\n";
    let outs = process(&t, input).unwrap();
    assert_eq!(outs.len(), 1);
    assert_eq!(outs[0].name, "apology.USA_IL.csv");
    assert_eq!(
        outs[0].contents,
        "1,a@b.com,Jo,Doe,1 Main St,,Springfield,IL,62704,USA,217-555-0100\n"
    );
}

#[test]
fn redacted_phone_is_empty_in_output() {
    let t = create_translator();
    let input = "1,a@b.com,Jo,Doe,1 Main St,London,LDN,SW1,1072,\"+44 20 7946 0958\"\n";
    let outs = process(&t, input).unwrap();
    assert_eq!(outs.len(), 1);
    assert_eq!(outs[0].name, "apology.GBR_LDN.csv");
    assert_eq!(outs[0].contents, "1,a@b.com,Jo,Doe,1 Main St,,London,LDN,SW1,GBR,\n");
}

#[test]
fn malformed_row_fails_whole_run_with_no_output() {
    let t = create_translator();
    let input = "1,a@b.com,Jo,Doe,1 Main St,Springfield,IL,62704\n";
    let e = process(&t, input).unwrap_err();
    assert_eq!(e.line, 2);
    assert_eq!(e.fields_found, 8);
}

#[test]
fn failure_on_later_row_reports_its_line() {
    let t = create_translator();
    let input = "1,a@b.com,Jo,Doe,1 Main St,Springfield,IL,62704,0000,555\n2,b@b.com,Al,Poe,2 Main St,Springfield,IL,62704,0000,555\n3,short\n";
    let e = process(&t, input).unwrap_err();
    assert_eq!(e.line, 4);
    assert_eq!(e.fields_found, 2);
}

#[test]
fn records_partition_into_one_file_per_key() {
    let t = create_translator();
    let input = "1,a@b.com,Jo,Doe,1 Main St,Springfield,IL,62704,0000,555\n2,b@b.com,Al,Poe,9 Elm St,Toronto,ON,M1,0001,556\n3,c@b.com,Cy,Roe,5 Oak St,Chicago,IL,60601,0000,557\n";
    let outs = process(&t, input).unwrap();
    assert_eq!(outs.len(), 2);
    assert_eq!(outs[0].name, "apology.USA_IL.csv");
    assert_eq!(
        outs[0].contents,
        "1,a@b.com,Jo,Doe,1 Main St,,Springfield,IL,62704,USA,555\n3,c@b.com,Cy,Roe,5 Oak St,,Chicago,IL,60601,USA,557\n"
    );
    assert_eq!(outs[1].name, "apology.CAN_ON.csv");
    assert_eq!(outs[1].contents, "2,b@b.com,Al,Poe,9 Elm St,,Toronto,ON,M1,CAN,556\n");
}

#[test]
fn empty_input_produces_no_files() {
    let t = create_translator();
    let outs = process(&t, "").unwrap();
    assert!(outs.is_empty());
}

#[test]
fn pull_records_preserves_row_order() {
    let t = create_translator();
    let rows: Vec<Vec<String>> = vec![
        vec!["1", "a@b.com", "Jo", "Doe", "1 Main St", "Springfield", "IL", "62704", "0000",
            "555"],
        vec!["2", "b@b.com", "Al", "Poe", "9 Elm St", "Toronto", "ON", "M1", "0001", "556"],
    ]
        .into_iter()
        .map(|r| r.into_iter().map(|f| f.to_string()).collect())
        .collect();
    let recs = pull_records(&t, &rows).unwrap();
    assert_eq!(recs.len(), 2);
    assert_eq!(recs[0].id, "1");
    assert_eq!(recs[0].country, "USA");
    assert_eq!(recs[1].id, "2");
    assert_eq!(recs[1].country, "CAN");
}

#[test]
fn pull_records_stops_at_first_bad_row() {
    let t = create_translator();
    let rows: Vec<Vec<String>> = vec![
        vec!["1", "a@b.com", "Jo", "Doe", "1 Main St", "Springfield", "IL", "62704", "0000",
            "555"],
        vec!["2", "oops"],
        vec!["3", "c@b.com", "Cy", "Roe", "5 Oak St", "Chicago", "IL", "60601", "0000", "557"],
    ]
        .into_iter()
        .map(|r| r.into_iter().map(|f| f.to_string()).collect())
        .collect();
    let e = pull_records(&t, &rows).unwrap_err();
    assert_eq!(e.line, 3);
    assert_eq!(e.fields_found, 2);
}

#[test]
fn fallback_country_code_flows_to_output() {
    let t = create_translator();
    let input = "1,a@b.com,Jo,Doe,1 Main St,Nowhere,ZZ,0,9999,555\n";
    let outs = process(&t, input).unwrap();
    assert_eq!(outs[0].name, "apology.9999_ZZ.csv");
    assert_eq!(outs[0].contents, "1,a@b.com,Jo,Doe,1 Main St,,Nowhere,ZZ,0,9999,555\n");
}

#[test]
fn quoted_input_fields_decode_and_reencode() {
    let t = create_translator();
    let input = "1,a@b.com,Jo,Doe,\"1, Main St\",Springfield,IL,62704,0000,555\n";
    let outs = process(&t, input).unwrap();
    assert_eq!(
        outs[0].contents,
        "1,a@b.com,Jo,Doe,\"1, Main St\",,Springfield,IL,62704,USA,555\n"
    );
}
