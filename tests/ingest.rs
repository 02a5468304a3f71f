use iracing_stats::document::{RawDriverResult, RawParticipant, RawSimsession, RawSubsession};
use iracing_stats::ingest::{ingest_subsession, NO_TEAM};

fn driver(cust_id: Option<i64>, name: &str, rating: i64, class: i64) -> RawDriverResult {
    RawDriverResult {
        cust_id,
        display_name: Some(name.to_string()),
        oldi_rating: Some(rating),
        newi_rating: Some(rating + 10),
        old_cpi: Some("12.5".to_string()),
        new_cpi: Some("13.25".to_string()),
        incidents: Some(2),
        laps_complete: Some(30),
        average_lap: Some(905000),
        car_id: Some(77),
        car_class_id: Some(class),
        finish_position: Some(0),
        finish_position_in_class: Some(0),
        reason_out_id: Some(0),
        reason_out: Some("Running".to_string()),
    }
}

fn team(team_id: Option<i64>, name: Option<&str>, class: i64, drivers: Vec<RawDriverResult>) -> RawParticipant {
    let mut fields = driver(None, "", 0, class);
    fields.display_name = name.map(|n| n.to_string());
    RawParticipant { fields, team_id, driver_results: Some(drivers) }
}

fn document(results: Vec<RawParticipant>) -> RawSubsession {
    RawSubsession {
        subsession_id: Some(5001),
        session_id: Some(400),
        start_time: Some("2021-03-04T18:00:00Z".to_string()),
        license_category_id: Some(2),
        event_type: Some(5),
        track_id: Some(123),
        official_session: Some(true),
        series_name: Some("GT Sprint".to_string()),
        session_name: None,
        session_results: Some(vec![RawSimsession {
            simsession_number: Some(0),
            simsession_type: Some(6),
            results: Some(results),
        }]),
    }
}

#[test]
fn solo_and_team_entries_become_rows() {
    let doc = document(vec![
        RawParticipant { fields: driver(Some(1), "Ann", -1, 10), team_id: None, driver_results: None },
        team(Some(900), Some("Fast Team"), 10, vec![driver(Some(2), "Bo", 1000, 10), driver(Some(3), "Cy", 2000, 10)]),
    ]);
    let rows = ingest_subsession(&doc).ok().unwrap();
    assert_eq!(rows.subsession.subsession_id, 5001);
    assert_eq!(rows.subsession.start_time, 1614880800);
    assert_eq!(rows.session.series_name, "GT Sprint");
    assert_eq!(rows.session.session_name, None);
    assert_eq!(rows.simsessions.len(), 1);
    let s = &rows.simsessions[0];
    assert_eq!(s.simsession.entries, 2);
    assert_eq!(s.simsession.ratings, vec![1350, 1500]);
    assert_eq!(s.classes.len(), 1);
    assert_eq!(s.classes[0].car_class_id, 10);
    assert_eq!(s.classes[0].entries_in_class, 2);
    assert_eq!(s.drivers.len(), 3);
    assert_eq!(s.drivers[0].cust_id, 1);
    assert_eq!(s.drivers[0].team_id, NO_TEAM);
    assert_eq!(s.drivers[0].team_name, "");
    assert_eq!(s.drivers[0].oldi_rating, -1);
    assert_eq!(s.drivers[0].old_cpi, "12.5");
    assert_eq!(s.drivers[0].reason_out, "Running");
    assert_eq!(s.drivers[1].team_id, 900);
    assert_eq!(s.drivers[1].team_name, "Fast Team");
    assert_eq!(s.drivers[2].display_name, "Cy");
}

#[test]
fn team_without_identity_gets_defaults() {
    let doc = document(vec![team(None, None, 3, vec![driver(Some(8), "Di", 1800, 3)])]);
    let rows = ingest_subsession(&doc).ok().unwrap();
    let d = &rows.simsessions[0].drivers[0];
    assert_eq!(d.team_id, -1);
    assert_eq!(d.team_name, "");
}

#[test]
fn missing_reason_text_is_empty() {
    let mut d = driver(Some(1), "Ann", 1200, 1);
    d.reason_out = None;
    let doc = document(vec![RawParticipant { fields: d, team_id: None, driver_results: None }]);
    let rows = ingest_subsession(&doc).ok().unwrap();
    assert_eq!(rows.simsessions[0].drivers[0].reason_out, "");
}

#[test]
fn missing_required_field_is_malformed() {
    let mut d = driver(Some(1), "Ann", 1200, 1);
    d.laps_complete = None;
    let doc = document(vec![RawParticipant { fields: d, team_id: None, driver_results: None }]);
    let e = ingest_subsession(&doc).err().unwrap();
    assert_eq!(e.field, "laps_complete");
    assert_eq!(e.simsession, Some(0));
    assert_eq!(e.result, Some(0));
    assert_eq!(e.driver, None);
}

#[test]
fn bad_team_driver_is_malformed() {
    let mut d = driver(Some(2), "Bo", 1000, 1);
    d.oldi_rating = None;
    let doc = document(vec![team(Some(1), Some("T"), 1, vec![driver(Some(3), "Cy", 1, 1), d])]);
    let e = ingest_subsession(&doc).err().unwrap();
    assert_eq!(e.field, "oldi_rating");
    assert_eq!(e.driver, Some(1));
}

#[test]
fn bad_start_time_is_malformed() {
    let mut doc = document(vec![]);
    doc.start_time = Some("yesterday".to_string());
    let e = ingest_subsession(&doc).err().unwrap();
    assert_eq!(e.field, "start_time");
}

#[test]
fn same_document_gives_same_rows() {
    let make = || document(vec![team(Some(4), Some("A"), 2, vec![driver(Some(5), "E", 1400, 2)])]);
    let a = ingest_subsession(&make()).ok().unwrap();
    let b = ingest_subsession(&make()).ok().unwrap();
    assert_eq!(a.simsessions[0].simsession.ratings, b.simsessions[0].simsession.ratings);
    assert_eq!(a.simsessions[0].drivers[0].cust_id, b.simsessions[0].drivers[0].cust_id);
}
