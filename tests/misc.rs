use iracing_stats::cache::{get_session_cache_path, session_cache_file_name};
use iracing_stats::category_type::CategoryType;
use iracing_stats::credentials::encode_iracing_pw;
use iracing_stats::customers::{parse_drivers_customer_infos, semi_colon_string_to_i64s, split_pieces};
use iracing_stats::decimal::{format_i64, parse_i64};
use iracing_stats::driverid::DriverId;
use iracing_stats::event_type::EventType;
use iracing_stats::schema::{DriverResult, Simsession, Subsession};
use iracing_stats::simsession_type::SimsessionType;
use iracing_stats::time::{category_at, corrected_license_category, start_time_seconds, CATEGORY_CUTOVER};

#[test]
fn category_before_cutover_is_the_subsessions() {
    assert_eq!(category_at("2020-11-07T23:59:59Z", 1, 2), Some(1));
}

#[test]
fn category_after_cutover_is_the_tracks() {
    assert_eq!(category_at("2020-11-08T00:00:01Z", 1, 2), Some(2));
    assert_eq!(corrected_license_category(CATEGORY_CUTOVER, 1, 2), 2);
    assert_eq!(category_at("not a time", 1, 2), None);
}

#[test]
fn start_times_parse_to_epoch_seconds() {
    assert_eq!(start_time_seconds("2020-11-07T23:59:59Z"), Some(1604793599));
    assert_eq!(start_time_seconds("2020-11-07"), None);
}

#[test]
fn category_codes_round_trip() {
    for i in 1..=6 {
        assert_eq!(CategoryType::from_i32(i).unwrap().to_db_type(), i);
    }
    assert!(CategoryType::from_i32(7).is_err());
    assert_eq!(CategoryType::DirtRoad.to_nice_string(), "Dirt Road");
}

#[test]
fn event_and_simsession_codes() {
    assert_eq!(EventType::from_i32(5).unwrap().to_db_type(), 5);
    assert!(EventType::from_i32(1).is_err());
    assert_eq!(EventType::TimeTrial.to_nice_string(), "Time Trial");
    assert_eq!(SimsessionType::from_i32(6).unwrap().to_db_type(), 6);
    assert!(SimsessionType::from_i32(2).is_err());
}

#[test]
fn driver_id_prefers_customer_id() {
    assert!(matches!(DriverId::from_params(Some("Ann".to_string()), Some(5)), Some(DriverId::CustId(5))));
    assert!(matches!(DriverId::from_params(Some("Ann".to_string()), None), Some(DriverId::Name(n)) if n == "Ann"));
    assert!(DriverId::from_params(None, None).is_none());
}

#[test]
fn schema_identifiers() {
    assert_eq!(DriverResult::Table.ident(), "driver_result");
    assert_eq!(DriverResult::OldiRating.ident(), "oldi_rating");
    assert_eq!(Simsession::SimsesionId.ident(), "simsesion_id");
    assert_eq!(Subsession::LicenseCategoryId.ident(), "license_category_id");
}

#[test]
fn decimal_text_both_ways() {
    assert_eq!(parse_i64("42"), Some(42));
    assert_eq!(parse_i64("-17"), Some(-17));
    assert_eq!(parse_i64("+8"), Some(8));
    assert_eq!(parse_i64("9223372036854775807"), Some(i64::MAX));
    assert_eq!(parse_i64("-9223372036854775808"), Some(i64::MIN));
    assert_eq!(parse_i64("9223372036854775808"), None);
    assert_eq!(parse_i64(""), None);
    assert_eq!(parse_i64("-"), None);
    assert_eq!(parse_i64("1a"), None);
    assert_eq!(format_i64(0), "0");
    assert_eq!(format_i64(-305), "-305");
    assert_eq!(format_i64(i64::MIN), i64::MIN.to_string());
}

#[test]
fn cache_path_is_named_after_the_id() {
    assert_eq!(session_cache_file_name(61486453), "61486453.session.zip");
    assert_eq!(get_session_cache_path("data/sessions", 12), "data/sessions/12.session.zip");
}

#[test]
fn id_lists_skip_non_numbers() {
    assert_eq!(semi_colon_string_to_i64s(&"1;x;;3".to_string()), vec![1, 3]);
    let pieces = split_pieces("a;;b;", ';');
    assert_eq!(pieces, vec!["a", "", "b", ""]);
}

#[test]
fn driver_lists_mix_ids_and_names() {
    let v = parse_drivers_customer_infos(&"$12;Ann Lee;;".to_string()).unwrap();
    assert_eq!(v.len(), 2);
    assert_eq!((v[0].cust_id, v[0].name.as_str()), (12, ""));
    assert_eq!((v[1].cust_id, v[1].name.as_str()), (-1, "Ann Lee"));
    assert!(parse_drivers_customer_infos(&"$x1".to_string()).is_none());
}

#[test]
fn password_token_normalizes_login() {
    assert_eq!(encode_iracing_pw("secret", "  Driver@Example.COM "), "IByY2FNbqEmYC/8WthbE/GyvM/9ZXrHhpEPKQ0+I0B4=");
}
