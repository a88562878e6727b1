use fireplan_alert::config::{Configuration, KonfigKalender};

#[test]
fn kalender_getters_return_what_was_set() {
    let k = KonfigKalender::new(
        "Gesamtwehr".to_string(),
        "Nord".to_string(),
        "FW".to_string(),
        "gesamt".to_string(),
        "Alle Termine".to_string(),
    );
    assert_eq!(k.name().as_str(), "Gesamtwehr");
    assert_eq!(k.standort().as_str(), "Nord");
    assert_eq!(k.praefix().as_str(), "FW");
    assert_eq!(k.ical_name().as_str(), "gesamt");
    assert_eq!(k.ical_beschreibung().as_str(), "Alle Termine");
}

#[test]
fn configuration_getters_return_what_was_set() {
    let k = KonfigKalender::new(
        "Abteilung West".to_string(),
        "West".to_string(),
        "FW West".to_string(),
        "west".to_string(),
        "Termine West".to_string(),
    );
    let c = Configuration::new(
        "key-eins-zwei".to_string(),
        "FW".to_string(),
        "/var/kalender".to_string(),
        900,
        vec![k],
    );
    assert_eq!(c.fireplan_api_key().as_str(), "key-eins-zwei");
    assert_eq!(c.praefix_gesamtwehr().as_str(), "FW");
    assert_eq!(c.zielordner().as_str(), "/var/kalender");
    assert_eq!(c.intervall_sekunden(), 900);
    assert_eq!(c.kalender().len(), 1);
    assert_eq!(c.kalender()[0].standort().as_str(), "West");
}
