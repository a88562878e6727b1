use fireplan_alert::config::{ParsedData, PatternRules, Ric};
use fireplan_alert::parser::parse;
use fireplan_alert::text::{contains_chars, trim_chars, zero_pad};

fn rules() -> PatternRules {
    PatternRules {
        regex_einsatznrleitstelle: "Einsatznummer: (\\S+)".to_string(),
        regex_einsatzstichwort: "Stichwort: (.*)".to_string(),
        regex_strasse: "Strasse: (.*)".to_string(),
        regex_hausnummer: "Hausnummer: (.*)".to_string(),
        regex_ort: "Ort: (.*)".to_string(),
        regex_ortsteil: "Ortsteil: (.*)".to_string(),
        regex_koordinaten: "Koordinaten: (.*)".to_string(),
        regex_objektname: "Objekt: (.*)".to_string(),
        regex_zusatzinfo: "Bemerkung: ([^#]*)".to_string(),
        rics: vec![],
        ric_width: 7,
    }
}

fn ric(text: &str, code: &str, sub: &str) -> Ric {
    Ric { text: text.to_string(), ric: code.to_string(), subric: sub.to_string() }
}

fn chars(s: &str) -> Vec<char> {
    s.chars().collect()
}

fn string(v: &[char]) -> String {
    v.iter().collect()
}

#[test]
fn longest_match_suppression() {
    let mut r = rules();
    r.rics = vec![ric("A12", "12", "a"), ric("A12-3", "123", "b")];
    let parsed: ParsedData = parse("Nord", "Alarm fuer A12-3 ausgeloest".to_string(), &r);
    assert_eq!(parsed.rics.len(), 1);
    assert_eq!(parsed.rics[0].text, "A12-3");
    assert_eq!(parsed.rics[0].ric, "0000123");
    assert_eq!(parsed.rics[0].subric, "b");
}

#[test]
fn longest_match_suppression_table_order_irrelevant() {
    let mut r = rules();
    r.rics = vec![ric("A12-3", "123", "b"), ric("A12", "12", "a")];
    let parsed = parse("Nord", "Alarm fuer A12-3 ausgeloest".to_string(), &r);
    assert_eq!(parsed.rics.len(), 1);
    assert_eq!(parsed.rics[0].text, "A12-3");
}

#[test]
fn matches_on_separate_lines_all_kept() {
    let mut r = rules();
    r.rics = vec![ric("A12", "12", "a"), ric("A12-3", "123", "b")];
    let parsed = parse("Nord", "erst A12 hier\ndann A12-3 dort".to_string(), &r);
    assert_eq!(parsed.rics.len(), 2);
    assert_eq!(parsed.rics[0].text, "A12");
    assert_eq!(parsed.rics[1].text, "A12-3");
}

#[test]
fn field_overwrite_order() {
    let r = rules();
    let parsed = parse("Nord", "Ort: Adorf\nOrt: Bedorf".to_string(), &r);
    assert_eq!(parsed.ort, "Bedorf");
}

#[test]
fn field_capture_is_group_not_line() {
    let r = rules();
    let parsed = parse("Nord", "Strasse: Hauptweg\nsonstiges".to_string(), &r);
    assert_eq!(parsed.strasse, "Hauptweg");
}

#[test]
fn zero_pad_width_seven() {
    let padded = zero_pad(&chars("7"), 7);
    assert_eq!(string(&padded), "0000007");
}

#[test]
fn zero_pad_keeps_wide_codes() {
    let padded = zero_pad(&chars("12345678"), 7);
    assert_eq!(string(&padded), "12345678");
}

#[test]
fn zero_pad_through_extraction() {
    let mut r = rules();
    r.rics = vec![ric("Probealarm", "7", "")];
    let parsed = parse("Nord", "heute Probealarm um acht".to_string(), &r);
    assert_eq!(parsed.rics.len(), 1);
    assert_eq!(parsed.rics[0].ric, "0000007");
}

#[test]
fn fields_are_trimmed() {
    let r = rules();
    let parsed = parse("Nord", "Ort:    Adorf   ".to_string(), &r);
    assert_eq!(parsed.ort, "Adorf");
}

#[test]
fn keyword_loses_slashes_and_is_trimmed() {
    let r = rules();
    let parsed = parse("Nord", "Stichwort:  B 2 / Wald  ".to_string(), &r);
    assert_eq!(parsed.einsatzstichwort, "B 2  Wald");
}

#[test]
fn addendum_spans_lines() {
    let r = rules();
    let parsed = parse("Nord", "Bemerkung: eins\nzwei # Ende".to_string(), &r);
    assert_eq!(parsed.zusatzinfo, "eins\nzwei");
}

#[test]
fn carriage_returns_are_stripped() {
    let r = rules();
    let parsed = parse("Nord", "Ort: Adorf\r\nOrtsteil: West\r\n".to_string(), &r);
    assert_eq!(parsed.ort, "Adorf");
    assert_eq!(parsed.ortsteil, "West");
}

#[test]
fn invalid_pattern_leaves_field_empty() {
    let mut r = rules();
    r.regex_ort = "(".to_string();
    let parsed = parse("Nord", "Ort: Adorf".to_string(), &r);
    assert_eq!(parsed.ort, "");
    assert_eq!(parsed.einsatznrlst, "");
}

#[test]
fn pattern_without_group_leaves_field_empty() {
    let mut r = rules();
    r.regex_ort = "Ort: .*".to_string();
    let parsed = parse("Nord", "Ort: Adorf".to_string(), &r);
    assert_eq!(parsed.ort, "");
}

#[test]
fn empty_body_gives_empty_record() {
    let mut r = rules();
    r.rics = vec![ric("A12", "12", "a")];
    let parsed = parse("Nord", "".to_string(), &r);
    assert_eq!(parsed.rics.len(), 0);
    assert_eq!(parsed.ort, "");
    assert_eq!(parsed.zusatzinfo, "");
}

#[test]
fn duplicate_triggers_not_deduplicated_within_extraction() {
    let mut r = rules();
    r.rics = vec![ric("A12", "12", "a")];
    let parsed = parse("Nord", "A12 hier\nA12 dort".to_string(), &r);
    assert_eq!(parsed.rics.len(), 2);
}

#[test]
fn full_record() {
    let mut r = rules();
    r.rics = vec![ric("Florian 1", "44", "2")];
    let body = "Einsatznummer: 2024-001\nStichwort: B 2\nStrasse: Hauptweg\nHausnummer: 3a\n\
                Ort: Adorf\nOrtsteil: West\nKoordinaten: 49.1,8.2\nObjekt: Halle\n\
                Florian 1 kommen\nBemerkung: Tor offen"
        .to_string();
    let parsed = parse("Nord", body, &r);
    assert_eq!(parsed.einsatznrlst, "2024-001");
    assert_eq!(parsed.einsatzstichwort, "B 2");
    assert_eq!(parsed.strasse, "Hauptweg");
    assert_eq!(parsed.hausnummer, "3a");
    assert_eq!(parsed.ort, "Adorf");
    assert_eq!(parsed.ortsteil, "West");
    assert_eq!(parsed.koordinaten, "49.1,8.2");
    assert_eq!(parsed.objektname, "Halle");
    assert_eq!(parsed.rics.len(), 1);
    assert_eq!(parsed.rics[0].ric, "0000044");
    assert_eq!(parsed.rics[0].subric, "2");
    assert_eq!(parsed.zusatzinfo, "Tor offen");
}

#[test]
fn contains_chars_substring_search() {
    assert!(contains_chars(&chars("Alarm A12-3"), &chars("A12")));
    assert!(!contains_chars(&chars("Alarm A13"), &chars("A12")));
    assert!(contains_chars(&chars("abc"), &chars("")));
    assert!(!contains_chars(&chars("ab"), &chars("abc")));
}

#[test]
fn trim_chars_surrounding_whitespace() {
    assert_eq!(string(&trim_chars(&chars("  a b\t\n"))), "a b");
    assert_eq!(string(&trim_chars(&chars("\u{00A0}x\u{00A0}"))), "x");
    assert_eq!(string(&trim_chars(&chars("   "))), "");
}
