use iracing_stats::reference::{
    car_class_rows, car_row, season_rows, site_team_rows, RawCar, RawCarClass, RawSeason, RawSiteTeam,
};

fn season(id: i64, year: i64) -> RawSeason {
    RawSeason {
        season_id: Some(id),
        series_id: Some(1),
        season_name: Some("S".to_string()),
        series_name: Some("Series".to_string()),
        official: Some(true),
        season_year: Some(year),
        season_quarter: Some(1),
        license_group: Some(3),
        fixed_setup: Some(false),
        driver_changes: Some(true),
    }
}

#[test]
fn car_rows_need_every_field() {
    let car = RawCar {
        car_id: Some(1),
        car_name: Some("Roadster".to_string()),
        car_name_abbreviated: Some("RD".to_string()),
    };
    let row = car_row(&car).unwrap();
    assert_eq!((row.car_id, row.car_name.as_str(), row.car_name_abbreviated.as_str()), (1, "Roadster", "RD"));
    let partial = RawCar { car_id: Some(1), car_name: None, car_name_abbreviated: Some("RD".to_string()) };
    assert!(car_row(&partial).is_none());
}

#[test]
fn car_class_lists_members() {
    let class = RawCarClass {
        car_class_id: Some(74),
        name: Some("GT3".to_string()),
        short_name: Some("GT3".to_string()),
        cars_in_class: Some(vec![Some(132), Some(133)]),
    };
    let rows = car_class_rows(&class).unwrap();
    assert_eq!(rows.car_ids, vec![132, 133]);
    let broken = RawCarClass { cars_in_class: Some(vec![Some(1), None]), ..class };
    assert!(car_class_rows(&broken).is_none());
}

#[test]
fn seasons_are_read_up_to_the_repeated_entry() {
    let list = vec![season(1, 2022), season(4222, 2023), season(5, 2023)];
    let rows = season_rows(&list).unwrap();
    assert_eq!(rows.len(), 1);
    assert_eq!(rows[0].season_id, 1);
    let all = season_rows(&vec![season(1, 2022), season(4222, 2022)]).unwrap();
    assert_eq!(all.len(), 2);
}

#[test]
fn incomplete_season_rejects_the_list() {
    let mut bad = season(2, 2021);
    bad.official = None;
    assert!(season_rows(&vec![season(1, 2021), bad]).is_none());
    let mut after = season(3, 2021);
    after.official = None;
    assert!(season_rows(&vec![season(4222, 2023), after]).unwrap().is_empty());
}

#[test]
fn site_teams_are_numbered_in_order() {
    let teams = vec![
        RawSiteTeam { name: Some("A".to_string()), discord_hook_url: None, members: Some(vec![Some(1), Some(2)]) },
        RawSiteTeam {
            name: Some("B".to_string()),
            discord_hook_url: Some("https://hook".to_string()),
            members: Some(vec![]),
        },
    ];
    let rows = site_team_rows(&teams).unwrap();
    assert_eq!(rows.len(), 2);
    assert_eq!(rows[1].site_team_id, 1);
    assert_eq!(rows[0].members, vec![1, 2]);
    assert_eq!(rows[1].discord_hook_url.as_deref(), Some("https://hook"));
    let nameless = vec![RawSiteTeam { name: None, discord_hook_url: None, members: Some(vec![]) }];
    assert!(site_team_rows(&nameless).is_none());
}
