use apology::record::Record;
use apology::text::trim_str;
use apology::translator::{create_translator, pad_code, translate};

fn row(fields: &[&str]) -> Vec<String> {
    fields.iter().map(|f| f.to_string()).collect()
}

#[test]
fn trim_removes_edges() {
    assert_eq!(trim_str("  a b  "), "a b");
    assert_eq!(trim_str("\t\nx\r "), "x");
    assert_eq!(trim_str("   "), "");
    assert_eq!(trim_str(""), "");
    assert_eq!(trim_str("no-space"), "no-space");
}

#[test]
fn trim_is_idempotent_on_samples() {
    for s in ["  a b  ", "x", "", " \u{00A0} y \u{3000}", "a  "] {
        let once = trim_str(s);
        let twice = trim_str(&once);
        assert_eq!(once, twice);
    }
}

#[test]
fn translate_known_codes() {
    assert_eq!(translate("1000"), "AFG");
    assert_eq!(translate("0000"), "USA");
    assert_eq!(translate("0001"), "CAN");
    assert_eq!(translate("1072"), "GBR");
}

#[test]
fn translate_absent_code_unchanged() {
    assert_eq!(translate("9999"), "9999");
    assert_eq!(translate("abcd"), "abcd");
    assert_eq!(translate("123"), "123");
    assert_eq!(translate("12345"), "12345");
    assert_eq!(translate(""), "");
}

#[test]
fn translate_known_anomaly_both_map_to_kor() {
    assert_eq!(translate("1101"), "KOR");
    assert_eq!(translate("1152"), "KOR");
}

#[test]
fn short_codes_are_zero_padded_before_lookup() {
    assert_eq!(pad_code("1"), "0001");
    assert_eq!(pad_code(""), "0000");
    assert_eq!(pad_code("72"), "0072");
    assert_eq!(pad_code("1101"), "1101");
    assert_eq!(pad_code("12345"), "12345");
    assert_eq!(translate(&pad_code("1")), "CAN");
    assert_eq!(translate(&pad_code("0")), "USA");
}

#[test]
fn phone_with_plus_is_redacted() {
    assert_eq!(clean("+44 20 7946 0958"), "");
    assert_eq!(clean("1+1"), "");
    assert_eq!(clean("+"), "");
}

#[test]
fn phone_without_plus_is_trimmed() {
    assert_eq!(clean(" 217-555-0100 "), "217-555-0100");
    assert_eq!(clean("217-555-0100"), "217-555-0100");
    assert_eq!(clean(""), "");
}

fn clean(s: &str) -> String {
    apology::record::clean_phone_number(s)
}

#[test]
fn decode_normalizes_all_fields() {
    let t = create_translator();
    let r = row(&[
        " 1 ", " a@b.com", "Jo ", "\tDoe", " 1 Main St ", " Springfield", "IL ", " 62704 ",
        "0000", "217-555-0100",
    ]);
    let rec = Record::decode(&t, &r).unwrap();
    assert_eq!(rec.id, "1");
    assert_eq!(rec.email, "a@b.com");
    assert_eq!(rec.first_name, "Jo");
    assert_eq!(rec.last_name, "Doe");
    assert_eq!(rec.address1, "1 Main St");
    assert_eq!(rec.address2, "");
    assert_eq!(rec.city, "Springfield");
    assert_eq!(rec.region, "IL");
    assert_eq!(rec.postal_code, "62704");
    assert_eq!(rec.country, "USA");
    assert_eq!(rec.phone, "217-555-0100");
}

#[test]
fn decode_redacts_international_phone_regardless_of_country() {
    let t = create_translator();
    for country in ["0000", "1072", "9999"] {
        let r = row(&[
            "1", "a@b.com", "Jo", "Doe", "1 Main St", "London", "LDN", "SW1", country,
            "+44 20 7946 0958",
        ]);
        let rec = Record::decode(&t, &r).unwrap();
        assert_eq!(rec.phone, "");
    }
}

#[test]
fn decode_falls_back_to_padded_code() {
    let t = create_translator();
    let r = row(&[
        "1", "a@b.com", "Jo", "Doe", "1 Main St", "Nowhere", "ZZ", "0", "9999", "555",
    ]);
    let rec = Record::decode(&t, &r).unwrap();
    assert_eq!(rec.country, "9999");
}

#[test]
fn decode_fallback_keeps_padded_form_untrimmed() {
    let t = create_translator();
    let r = row(&[
        "1", "a@b.com", "Jo", "Doe", "1 Main St", "Nowhere", "ZZ", "0", " 9", "555",
    ]);
    let rec = Record::decode(&t, &r).unwrap();
    assert_eq!(rec.country, "00 9");
}

#[test]
fn decode_rejects_short_row() {
    let t = create_translator();
    let r = row(&["1", "a@b.com", "Jo", "Doe", "1 Main St", "Springfield", "IL", "62704"]);
    let e = Record::decode(&t, &r).unwrap_err();
    assert_eq!(e.fields_found, 8);
}

#[test]
fn record_key_joins_country_and_region() {
    let t = create_translator();
    let r = row(&[
        "1", "a@b.com", "Jo", "Doe", "1 Main St", "Springfield", "IL", "62704", "0000",
        "217-555-0100",
    ]);
    let rec = Record::decode(&t, &r).unwrap();
    assert_eq!(rec.key(), "USA_IL");
}
