//! Reference data of the store: cars, car classes, seasons and the site's
//! teams. As with result documents, every field upstream may leave out is an
//! `Option`, and a record that lacks a required one gives no row.
use vstd::prelude::*;
use crate::discovery::hit_ids;
use crate::ingest::opt_text;

verus! {

pub struct RawCar {
    pub car_id: Option<i64>,
    pub car_name: Option<String>,
    pub car_name_abbreviated: Option<String>,
}

pub struct CarRow {
    pub car_id: i64,
    pub car_name: String,
    pub car_name_abbreviated: String,
}

fn copy_text(s: &Option<String>) -> (r: Option<String>)
    ensures
        opt_text(r) == opt_text(*s),
{
    match s {
        Some(t) => Some(t.clone()),
        None => None,
    }
}

/// The row of a car; `None` where a field is missing.
pub fn car_row(c: &RawCar) -> (r: Option<CarRow>)
    ensures
        r is Some <==> (c.car_id is Some && c.car_name is Some && c.car_name_abbreviated is Some),
        r matches Some(row) ==> {
            &&& Some(row.car_id) == c.car_id
            &&& Some(row.car_name@) == opt_text(c.car_name)
            &&& Some(row.car_name_abbreviated@) == opt_text(c.car_name_abbreviated)
        },
{
    let car_id = c.car_id?;
    let car_name = copy_text(&c.car_name)?;
    let car_name_abbreviated = copy_text(&c.car_name_abbreviated)?;
    Some(CarRow { car_id, car_name, car_name_abbreviated })
}

pub struct RawCarClass {
    pub car_class_id: Option<i64>,
    pub name: Option<String>,
    pub short_name: Option<String>,
    /// The `car_id` of each car of the class.
    pub cars_in_class: Option<Vec<Option<i64>>>,
}

/// A car class, its size and its members.
pub struct CarClassRows {
    pub car_class_id: i64,
    pub name: String,
    pub short_name: String,
    pub car_ids: Vec<i64>,
}

pub open spec fn members_of(c: RawCarClass) -> Seq<Option<i64>> {
    match c.cars_in_class {
        Some(v) => v@,
        None => Seq::empty(),
    }
}

/// The rows of a car class; `None` where a field or a member's id is
/// missing.
pub fn car_class_rows(c: &RawCarClass) -> (r: Option<CarClassRows>)
    ensures
        r is Some <==> {
            &&& c.car_class_id is Some
            &&& c.name is Some
            &&& c.short_name is Some
            &&& c.cars_in_class is Some
            &&& forall|k: int| 0 <= k < members_of(*c).len() ==> (#[trigger] members_of(*c)[k]) is Some
        },
        r matches Some(rows) ==> {
            &&& Some(rows.car_class_id) == c.car_class_id
            &&& Some(rows.name@) == opt_text(c.name)
            &&& Some(rows.short_name@) == opt_text(c.short_name)
            &&& rows.car_ids@.len() == members_of(*c).len()
            &&& forall|k: int| 0 <= k < rows.car_ids@.len() ==> Some(#[trigger] rows.car_ids@[k]) == members_of(*c)[k]
        },
{
    let car_class_id = c.car_class_id?;
    let name = copy_text(&c.name)?;
    let short_name = copy_text(&c.short_name)?;
    let cars = match &c.cars_in_class {
        Some(cars) => cars,
        None => return None,
    };
    let car_ids = hit_ids(cars)?;
    Some(CarClassRows { car_class_id, name, short_name, car_ids })
}

pub struct RawSeason {
    pub season_id: Option<i64>,
    pub series_id: Option<i64>,
    pub season_name: Option<String>,
    pub series_name: Option<String>,
    pub official: Option<bool>,
    pub season_year: Option<i64>,
    pub season_quarter: Option<i64>,
    pub license_group: Option<i64>,
    pub fixed_setup: Option<bool>,
    pub driver_changes: Option<bool>,
}

pub struct SeasonRow {
    pub season_id: i64,
    pub series_id: i64,
    pub season_name: String,
    pub series_name: String,
    pub official: bool,
    pub season_year: i64,
    pub season_quarter: i64,
    pub license_group_id: i64,
    pub fixed_setup: bool,
    pub driver_changes: bool,
}

pub open spec fn season_complete(s: RawSeason) -> bool {
    &&& s.season_id is Some
    &&& s.series_id is Some
    &&& s.season_name is Some
    &&& s.series_name is Some
    &&& s.official is Some
    &&& s.season_year is Some
    &&& s.season_quarter is Some
    &&& s.license_group is Some
    &&& s.fixed_setup is Some
    &&& s.driver_changes is Some
}

pub open spec fn season_row_of(row: SeasonRow, s: RawSeason) -> bool {
    &&& Some(row.season_id) == s.season_id
    &&& Some(row.series_id) == s.series_id
    &&& Some(row.season_name@) == opt_text(s.season_name)
    &&& Some(row.series_name@) == opt_text(s.series_name)
    &&& Some(row.official) == s.official
    &&& Some(row.season_year) == s.season_year
    &&& Some(row.season_quarter) == s.season_quarter
    &&& Some(row.license_group_id) == s.license_group
    &&& Some(row.fixed_setup) == s.fixed_setup
    &&& Some(row.driver_changes) == s.driver_changes
}

fn season_row(s: &RawSeason) -> (r: Option<SeasonRow>)
    ensures
        r is Some <==> season_complete(*s),
        r matches Some(row) ==> season_row_of(row, *s),
{
    Some(SeasonRow {
        season_id: s.season_id?,
        series_id: s.series_id?,
        season_name: copy_text(&s.season_name)?,
        series_name: copy_text(&s.series_name)?,
        official: s.official?,
        season_year: s.season_year?,
        season_quarter: s.season_quarter?,
        license_group_id: s.license_group?,
        fixed_setup: s.fixed_setup?,
        driver_changes: s.driver_changes?,
    })
}

/// Upstream lists this season a second time, under the same id, as the
/// first season of 2023; the list is read up to it.
pub open spec fn is_repeated_season(s: RawSeason) -> bool {
    s.season_id == Some(4222i64) && s.season_year == Some(2023i64)
}

/// How many of the seasons are read: all of them up to the repeated
/// entry, or all where there is none.
pub open spec fn seasons_read(ss: Seq<RawSeason>) -> int
    decreases ss.len(),
{
    if ss.len() == 0 {
        0
    } else {
        let f = seasons_read(ss.drop_last());
        if f < ss.len() - 1 {
            f
        } else if is_repeated_season(ss.last()) {
            ss.len() - 1
        } else {
            ss.len() as int
        }
    }
}

proof fn lemma_seasons_read_prefix(ss: Seq<RawSeason>, j: int)
    requires
        0 <= j <= ss.len(),
    ensures
        0 <= seasons_read(ss.subrange(0, j)) <= j,
        seasons_read(ss.subrange(0, j)) < j ==> seasons_read(ss) == seasons_read(ss.subrange(0, j)),
        seasons_read(ss.subrange(0, j)) == j ==> seasons_read(ss) >= j,
        0 <= seasons_read(ss) <= ss.len(),
    decreases ss.len() - j,
{
    if j < ss.len() {
        lemma_seasons_read_prefix(ss, j + 1);
        assert(ss.subrange(0, j + 1).drop_last() == ss.subrange(0, j));
    } else {
        assert(ss.subrange(0, j) == ss);
        lemma_seasons_read_bounds(ss);
    }
}

proof fn lemma_seasons_read_bounds(ss: Seq<RawSeason>)
    ensures
        0 <= seasons_read(ss) <= ss.len(),
    decreases ss.len(),
{
    if ss.len() > 0 {
        lemma_seasons_read_bounds(ss.drop_last());
    }
}

/// The rows of the season list, up to the repeated entry; `None` where a
/// season before it lacks a field.
pub fn season_rows(seasons: &Vec<RawSeason>) -> (r: Option<Vec<SeasonRow>>)
    ensures
        r is Some <==> forall|k: int| 0 <= k < seasons_read(seasons@) ==> season_complete(#[trigger] seasons@[k]),
        r matches Some(rows) ==> {
            &&& rows@.len() == seasons_read(seasons@)
            &&& forall|k: int| 0 <= k < rows@.len() ==> season_row_of(#[trigger] rows@[k], seasons@[k])
        },
{
    let ghost ss = seasons@;
    let mut rows: Vec<SeasonRow> = Vec::new();
    let mut i: usize = 0;
    assert(ss.subrange(0, 0).len() == 0);
    while i < seasons.len()
        invariant
            ss == seasons@,
            i <= ss.len(),
            rows@.len() == i,
            seasons_read(ss.subrange(0, i as int)) == i,
            forall|k: int| 0 <= k < i ==> season_complete(#[trigger] ss[k]),
            forall|k: int| 0 <= k < i ==> season_row_of(#[trigger] rows@[k], ss[k]),
        decreases ss.len() - i,
    {
        let s = &seasons[i];
        proof {
            assert(ss.subrange(0, i + 1).drop_last() == ss.subrange(0, i as int));
            assert(ss.subrange(0, i + 1).last() == ss[i as int]);
        }
        if s.season_id == Some(4222) && s.season_year == Some(2023) {
            proof {
                assert(is_repeated_season(ss[i as int]));
                lemma_seasons_read_prefix(ss, i + 1);
            }
            return Some(rows);
        }
        proof {
            lemma_seasons_read_prefix(ss, i + 1);
        }
        let row = match season_row(s) {
            Some(row) => row,
            None => return None,
        };
        rows.push(row);
        assert(rows@[i as int] == row);
        i = i + 1;
    }
    proof {
        lemma_seasons_read_prefix(ss, i as int);
        assert(ss.subrange(0, i as int) == ss);
    }
    Some(rows)
}


/// A team of the site, with the customer ids of its members.
pub struct RawSiteTeam {
    pub name: Option<String>,
    pub discord_hook_url: Option<String>,
    pub members: Option<Vec<Option<i64>>>,
}

/// A team of the site and its members; the team's id is its position in
/// the list.
pub struct SiteTeamRows {
    pub site_team_id: usize,
    pub name: String,
    pub discord_hook_url: Option<String>,
    pub members: Vec<i64>,
}

pub open spec fn team_members(t: RawSiteTeam) -> Seq<Option<i64>> {
    match t.members {
        Some(v) => v@,
        None => Seq::empty(),
    }
}

pub open spec fn site_team_complete(t: RawSiteTeam) -> bool {
    &&& t.name is Some
    &&& t.members is Some
    &&& forall|k: int| 0 <= k < team_members(t).len() ==> (#[trigger] team_members(t)[k]) is Some
}

pub open spec fn site_team_rows_of(r: SiteTeamRows, id: int, t: RawSiteTeam) -> bool {
    &&& r.site_team_id == id
    &&& Some(r.name@) == opt_text(t.name)
    &&& opt_text(r.discord_hook_url) == opt_text(t.discord_hook_url)
    &&& r.members@.len() == team_members(t).len()
    &&& forall|k: int| 0 <= k < r.members@.len() ==> Some(#[trigger] r.members@[k]) == team_members(t)[k]
}

fn site_team(id: usize, t: &RawSiteTeam) -> (r: Option<SiteTeamRows>)
    ensures
        r is Some <==> site_team_complete(*t),
        r matches Some(rows) ==> site_team_rows_of(rows, id as int, *t),
{
    let name = copy_text(&t.name)?;
    let members = match &t.members {
        Some(m) => m,
        None => return None,
    };
    let members = hit_ids(members)?;
    Some(SiteTeamRows { site_team_id: id, name, discord_hook_url: copy_text(&t.discord_hook_url), members })
}

/// The rows of the site's teams, numbered in list order; `None` where a
/// team lacks its name, its member list or a member's id.
pub fn site_team_rows(teams: &Vec<RawSiteTeam>) -> (r: Option<Vec<SiteTeamRows>>)
    ensures
        r is Some <==> forall|k: int| 0 <= k < teams@.len() ==> site_team_complete(#[trigger] teams@[k]),
        r matches Some(rows) ==> {
            &&& rows@.len() == teams@.len()
            &&& forall|k: int| 0 <= k < rows@.len() ==> site_team_rows_of(#[trigger] rows@[k], k, teams@[k])
        },
{
    let mut rows: Vec<SiteTeamRows> = Vec::new();
    let mut i: usize = 0;
    while i < teams.len()
        invariant
            i <= teams@.len(),
            rows@.len() == i,
            forall|k: int| 0 <= k < i ==> site_team_complete(#[trigger] teams@[k]),
            forall|k: int| 0 <= k < i ==> site_team_rows_of(#[trigger] rows@[k], k, teams@[k]),
        decreases teams@.len() - i,
    {
        let row = match site_team(i, &teams[i]) {
            Some(row) => row,
            None => return None,
        };
        rows.push(row);
        assert(rows@[i as int] == row);
        i = i + 1;
    }
    Some(rows)
}

} // verus!
