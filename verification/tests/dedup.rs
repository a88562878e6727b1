use fireplan_alert::config::{ParsedData, Ric};
use fireplan_alert::dispatch::SeenCodes;

fn record(einsatz: &str, codes: &[&str]) -> ParsedData {
    ParsedData {
        rics: codes
            .iter()
            .map(|c| Ric {
                text: format!("T{}", c),
                ric: c.to_string(),
                subric: "".to_string(),
            })
            .collect(),
        einsatznrlst: einsatz.to_string(),
        strasse: "Hauptweg".to_string(),
        hausnummer: "3".to_string(),
        ort: "Adorf".to_string(),
        ortsteil: "West".to_string(),
        objektname: "".to_string(),
        koordinaten: "".to_string(),
        einsatzstichwort: "B 2".to_string(),
        zusatzinfo: "".to_string(),
    }
}

#[test]
fn dedup_idempotence() {
    let mut seen = SeenCodes::new();
    let r = record("2024-001", &["0000007"]);
    let first = seen.process(&r).expect("first submission expected");
    assert_eq!(first.rics.len(), 1);
    assert_eq!(first.rics[0].ric, "0000007");
    assert_eq!(first.einsatznrlst, "2024-001");
    let second = seen.process(&r);
    assert!(second.is_none());
}

#[test]
fn cross_site_dedup() {
    let mut seen = SeenCodes::new();
    let from_north = record("2024-002", &["0000042", "0000050"]);
    let from_south = record("2024-002", &["0000042", "0000060"]);
    let first = seen.process(&from_north).expect("first submission expected");
    assert_eq!(
        first.rics.iter().filter(|e| e.ric == "0000042").count(),
        1
    );
    let second = seen.process(&from_south).expect("second still has a new code");
    assert_eq!(
        second.rics.iter().filter(|e| e.ric == "0000042").count(),
        0
    );
    assert_eq!(second.rics.len(), 1);
    assert_eq!(second.rics[0].ric, "0000060");
}

#[test]
fn cross_site_dedup_other_arrival_order() {
    let mut seen = SeenCodes::new();
    let from_south = record("2024-002", &["0000042", "0000060"]);
    let from_north = record("2024-002", &["0000042", "0000050"]);
    let first = seen.process(&from_south).expect("first submission expected");
    assert_eq!(first.rics.iter().filter(|e| e.ric == "0000042").count(), 1);
    let second = seen.process(&from_north).expect("second still has a new code");
    assert_eq!(second.rics.iter().filter(|e| e.ric == "0000042").count(), 0);
}

#[test]
fn empty_record_suppression() {
    let mut seen = SeenCodes::new();
    let nothing = record("2024-003", &[]);
    assert!(seen.process(&nothing).is_none());
    let r = record("2024-004", &["0000001"]);
    assert!(seen.process(&r).is_some());
    assert!(seen.process(&r).is_none());
}

#[test]
fn distinct_incidents_not_deduplicated() {
    let mut seen = SeenCodes::new();
    let a = record("2024-005", &["0000007"]);
    let b = record("2024-006", &["0000007"]);
    assert!(seen.process(&a).is_some());
    let again = seen.process(&b).expect("other incident pages again");
    assert_eq!(again.rics[0].ric, "0000007");
}

#[test]
fn duplicate_code_within_record_paged_once() {
    let mut seen = SeenCodes::new();
    let r = record("2024-007", &["0000008", "0000008"]);
    let sub = seen.process(&r).expect("submission expected");
    assert_eq!(sub.rics.len(), 1);
    assert_eq!(sub.rics[0].ric, "0000008");
}

#[test]
fn submission_carries_record_fields() {
    let mut seen = SeenCodes::new();
    let r = record("2024-008", &["0000009"]);
    let sub = seen.process(&r).expect("submission expected");
    assert_eq!(sub.strasse, "Hauptweg");
    assert_eq!(sub.hausnummer, "3");
    assert_eq!(sub.ort, "Adorf");
    assert_eq!(sub.ortsteil, "West");
    assert_eq!(sub.einsatzstichwort, "B 2");
}
