//! The tables and columns of the relational store, by the names the store
//! gives them: a table is named after its entity, a column after its field,
//! both in snake case.
use vstd::prelude::*;

verus! {

/// The `driver` table (`Table`) and its columns.
#[derive(Copy, Clone, Debug, PartialEq, Eq, Structural)]
pub enum Driver {
    Table,
    CustId,
    DisplayName,
}

pub open spec fn driver_ident(c: Driver) -> Seq<char> {
    match c {
        Driver::Table => "driver"@,
        Driver::CustId => "cust_id"@,
        Driver::DisplayName => "display_name"@,
    }
}

impl Driver {
    /// The identifier of the table or column in the store.
    pub fn ident(&self) -> (r: &'static str)
        ensures
            r@ == driver_ident(*self),
    {
        match self {
            Driver::Table => "driver",
            Driver::CustId => "cust_id",
            Driver::DisplayName => "display_name",
        }
    }
}

/// The `season` table (`Table`) and its columns.
#[derive(Copy, Clone, Debug, PartialEq, Eq, Structural)]
pub enum Season {
    Table,
    SeasonId,
    SeriesId,
    SeasonName,
    SeriesName,
    Official,
    SeasonYear,
    SeasonQuarter,
    LicenseGroupId,
    FixedSetup,
    DriverChanges,
}

pub open spec fn season_ident(c: Season) -> Seq<char> {
    match c {
        Season::Table => "season"@,
        Season::SeasonId => "season_id"@,
        Season::SeriesId => "series_id"@,
        Season::SeasonName => "season_name"@,
        Season::SeriesName => "series_name"@,
        Season::Official => "official"@,
        Season::SeasonYear => "season_year"@,
        Season::SeasonQuarter => "season_quarter"@,
        Season::LicenseGroupId => "license_group_id"@,
        Season::FixedSetup => "fixed_setup"@,
        Season::DriverChanges => "driver_changes"@,
    }
}

impl Season {
    /// The identifier of the table or column in the store.
    pub fn ident(&self) -> (r: &'static str)
        ensures
            r@ == season_ident(*self),
    {
        match self {
            Season::Table => "season",
            Season::SeasonId => "season_id",
            Season::SeriesId => "series_id",
            Season::SeasonName => "season_name",
            Season::SeriesName => "series_name",
            Season::Official => "official",
            Season::SeasonYear => "season_year",
            Season::SeasonQuarter => "season_quarter",
            Season::LicenseGroupId => "license_group_id",
            Season::FixedSetup => "fixed_setup",
            Season::DriverChanges => "driver_changes",
        }
    }
}

/// The `session` table (`Table`) and its columns.
#[derive(Copy, Clone, Debug, PartialEq, Eq, Structural)]
pub enum Session {
    Table,
    SessionId,
    SeriesName,
    SessionName,
}

pub open spec fn session_ident(c: Session) -> Seq<char> {
    match c {
        Session::Table => "session"@,
        Session::SessionId => "session_id"@,
        Session::SeriesName => "series_name"@,
        Session::SessionName => "session_name"@,
    }
}

impl Session {
    /// The identifier of the table or column in the store.
    pub fn ident(&self) -> (r: &'static str)
        ensures
            r@ == session_ident(*self),
    {
        match self {
            Session::Table => "session",
            Session::SessionId => "session_id",
            Session::SeriesName => "series_name",
            Session::SessionName => "session_name",
        }
    }
}

/// The `subsession` table (`Table`) and its columns.
#[derive(Copy, Clone, Debug, PartialEq, Eq, Structural)]
pub enum Subsession {
    Table,
    SubsessionId,
    SessionId,
    StartTime,
    LicenseCategoryId,
    EventType,
    TrackId,
    OfficialSession,
}

pub open spec fn subsession_ident(c: Subsession) -> Seq<char> {
    match c {
        Subsession::Table => "subsession"@,
        Subsession::SubsessionId => "subsession_id"@,
        Subsession::SessionId => "session_id"@,
        Subsession::StartTime => "start_time"@,
        Subsession::LicenseCategoryId => "license_category_id"@,
        Subsession::EventType => "event_type"@,
        Subsession::TrackId => "track_id"@,
        Subsession::OfficialSession => "official_session"@,
    }
}

impl Subsession {
    /// The identifier of the table or column in the store.
    pub fn ident(&self) -> (r: &'static str)
        ensures
            r@ == subsession_ident(*self),
    {
        match self {
            Subsession::Table => "subsession",
            Subsession::SubsessionId => "subsession_id",
            Subsession::SessionId => "session_id",
            Subsession::StartTime => "start_time",
            Subsession::LicenseCategoryId => "license_category_id",
            Subsession::EventType => "event_type",
            Subsession::TrackId => "track_id",
            Subsession::OfficialSession => "official_session",
        }
    }
}

/// The `driver_result` table (`Table`) and its columns.
#[derive(Copy, Clone, Debug, PartialEq, Eq, Structural)]
pub enum DriverResult {
    Table,
    CustId,
    TeamId,
    TeamName,
    SubsessionId,
    SimsessionNumber,
    OldiRating,
    NewiRating,
    OldCpi,
    NewCpi,
    Incidents,
    LapsComplete,
    AverageLap,
    CarId,
    CarClassId,
    FinishPosition,
    FinishPositionInClass,
    ReasonOutId,
}

pub open spec fn driver_result_ident(c: DriverResult) -> Seq<char> {
    match c {
        DriverResult::Table => "driver_result"@,
        DriverResult::CustId => "cust_id"@,
        DriverResult::TeamId => "team_id"@,
        DriverResult::TeamName => "team_name"@,
        DriverResult::SubsessionId => "subsession_id"@,
        DriverResult::SimsessionNumber => "simsession_number"@,
        DriverResult::OldiRating => "oldi_rating"@,
        DriverResult::NewiRating => "newi_rating"@,
        DriverResult::OldCpi => "old_cpi"@,
        DriverResult::NewCpi => "new_cpi"@,
        DriverResult::Incidents => "incidents"@,
        DriverResult::LapsComplete => "laps_complete"@,
        DriverResult::AverageLap => "average_lap"@,
        DriverResult::CarId => "car_id"@,
        DriverResult::CarClassId => "car_class_id"@,
        DriverResult::FinishPosition => "finish_position"@,
        DriverResult::FinishPositionInClass => "finish_position_in_class"@,
        DriverResult::ReasonOutId => "reason_out_id"@,
    }
}

impl DriverResult {
    /// The identifier of the table or column in the store.
    pub fn ident(&self) -> (r: &'static str)
        ensures
            r@ == driver_result_ident(*self),
    {
        match self {
            DriverResult::Table => "driver_result",
            DriverResult::CustId => "cust_id",
            DriverResult::TeamId => "team_id",
            DriverResult::TeamName => "team_name",
            DriverResult::SubsessionId => "subsession_id",
            DriverResult::SimsessionNumber => "simsession_number",
            DriverResult::OldiRating => "oldi_rating",
            DriverResult::NewiRating => "newi_rating",
            DriverResult::OldCpi => "old_cpi",
            DriverResult::NewCpi => "new_cpi",
            DriverResult::Incidents => "incidents",
            DriverResult::LapsComplete => "laps_complete",
            DriverResult::AverageLap => "average_lap",
            DriverResult::CarId => "car_id",
            DriverResult::CarClassId => "car_class_id",
            DriverResult::FinishPosition => "finish_position",
            DriverResult::FinishPositionInClass => "finish_position_in_class",
            DriverResult::ReasonOutId => "reason_out_id",
        }
    }
}

/// The `car_class` table (`Table`) and its columns.
#[derive(Copy, Clone, Debug, PartialEq, Eq, Structural)]
pub enum CarClass {
    Table,
    CarClassId,
    CarClassName,
    CarClassShortName,
    CarClassSize,
}

pub open spec fn car_class_ident(c: CarClass) -> Seq<char> {
    match c {
        CarClass::Table => "car_class"@,
        CarClass::CarClassId => "car_class_id"@,
        CarClass::CarClassName => "car_class_name"@,
        CarClass::CarClassShortName => "car_class_short_name"@,
        CarClass::CarClassSize => "car_class_size"@,
    }
}

impl CarClass {
    /// The identifier of the table or column in the store.
    pub fn ident(&self) -> (r: &'static str)
        ensures
            r@ == car_class_ident(*self),
    {
        match self {
            CarClass::Table => "car_class",
            CarClass::CarClassId => "car_class_id",
            CarClass::CarClassName => "car_class_name",
            CarClass::CarClassShortName => "car_class_short_name",
            CarClass::CarClassSize => "car_class_size",
        }
    }
}

/// The `car_class_member` table (`Table`) and its columns.
#[derive(Copy, Clone, Debug, PartialEq, Eq, Structural)]
pub enum CarClassMember {
    Table,
    CarClassId,
    CarId,
}

pub open spec fn car_class_member_ident(c: CarClassMember) -> Seq<char> {
    match c {
        CarClassMember::Table => "car_class_member"@,
        CarClassMember::CarClassId => "car_class_id"@,
        CarClassMember::CarId => "car_id"@,
    }
}

impl CarClassMember {
    /// The identifier of the table or column in the store.
    pub fn ident(&self) -> (r: &'static str)
        ensures
            r@ == car_class_member_ident(*self),
    {
        match self {
            CarClassMember::Table => "car_class_member",
            CarClassMember::CarClassId => "car_class_id",
            CarClassMember::CarId => "car_id",
        }
    }
}

/// The `car_class_result` table (`Table`) and its columns.
#[derive(Copy, Clone, Debug, PartialEq, Eq, Structural)]
pub enum CarClassResult {
    Table,
    CarClassId,
    SubsessionId,
    SimsessionNumber,
    EntriesInClass,
    ClassSof,
}

pub open spec fn car_class_result_ident(c: CarClassResult) -> Seq<char> {
    match c {
        CarClassResult::Table => "car_class_result"@,
        CarClassResult::CarClassId => "car_class_id"@,
        CarClassResult::SubsessionId => "subsession_id"@,
        CarClassResult::SimsessionNumber => "simsession_number"@,
        CarClassResult::EntriesInClass => "entries_in_class"@,
        CarClassResult::ClassSof => "class_sof"@,
    }
}

impl CarClassResult {
    /// The identifier of the table or column in the store.
    pub fn ident(&self) -> (r: &'static str)
        ensures
            r@ == car_class_result_ident(*self),
    {
        match self {
            CarClassResult::Table => "car_class_result",
            CarClassResult::CarClassId => "car_class_id",
            CarClassResult::SubsessionId => "subsession_id",
            CarClassResult::SimsessionNumber => "simsession_number",
            CarClassResult::EntriesInClass => "entries_in_class",
            CarClassResult::ClassSof => "class_sof",
        }
    }
}

/// The `simsession` table (`Table`) and its columns.
#[derive(Copy, Clone, Debug, PartialEq, Eq, Structural)]
pub enum Simsession {
    Table,
    SubsessionId,
    SimsesionId,
    SimsessionNumber,
    SimsessionType,
    Entries,
    Sof,
}

pub open spec fn simsession_ident(c: Simsession) -> Seq<char> {
    match c {
        Simsession::Table => "simsession"@,
        Simsession::SubsessionId => "subsession_id"@,
        Simsession::SimsesionId => "simsesion_id"@,
        Simsession::SimsessionNumber => "simsession_number"@,
        Simsession::SimsessionType => "simsession_type"@,
        Simsession::Entries => "entries"@,
        Simsession::Sof => "sof"@,
    }
}

impl Simsession {
    /// The identifier of the table or column in the store.
    pub fn ident(&self) -> (r: &'static str)
        ensures
            r@ == simsession_ident(*self),
    {
        match self {
            Simsession::Table => "simsession",
            Simsession::SubsessionId => "subsession_id",
            Simsession::SimsesionId => "simsesion_id",
            Simsession::SimsessionNumber => "simsession_number",
            Simsession::SimsessionType => "simsession_type",
            Simsession::Entries => "entries",
            Simsession::Sof => "sof",
        }
    }
}

/// The `reason_out` table (`Table`) and its columns.
#[derive(Copy, Clone, Debug, PartialEq, Eq, Structural)]
pub enum ReasonOut {
    Table,
    ReasonOutId,
    ReasonOut,
}

pub open spec fn reason_out_ident(c: ReasonOut) -> Seq<char> {
    match c {
        ReasonOut::Table => "reason_out"@,
        ReasonOut::ReasonOutId => "reason_out_id"@,
        ReasonOut::ReasonOut => "reason_out"@,
    }
}

impl ReasonOut {
    /// The identifier of the table or column in the store.
    pub fn ident(&self) -> (r: &'static str)
        ensures
            r@ == reason_out_ident(*self),
    {
        match self {
            ReasonOut::Table => "reason_out",
            ReasonOut::ReasonOutId => "reason_out_id",
            ReasonOut::ReasonOut => "reason_out",
        }
    }
}

/// The `track_config` table (`Table`) and its columns.
#[derive(Copy, Clone, Debug, PartialEq, Eq, Structural)]
pub enum TrackConfig {
    Table,
    TrackId,
    PackageId,
    TrackName,
    ConfigName,
    TrackConfigLength,
    CornersPerLap,
    CategoryId,
    GridStalls,
    PitRoadSpeedLimit,
    NumberPitstalls,
}

pub open spec fn track_config_ident(c: TrackConfig) -> Seq<char> {
    match c {
        TrackConfig::Table => "track_config"@,
        TrackConfig::TrackId => "track_id"@,
        TrackConfig::PackageId => "package_id"@,
        TrackConfig::TrackName => "track_name"@,
        TrackConfig::ConfigName => "config_name"@,
        TrackConfig::TrackConfigLength => "track_config_length"@,
        TrackConfig::CornersPerLap => "corners_per_lap"@,
        TrackConfig::CategoryId => "category_id"@,
        TrackConfig::GridStalls => "grid_stalls"@,
        TrackConfig::PitRoadSpeedLimit => "pit_road_speed_limit"@,
        TrackConfig::NumberPitstalls => "number_pitstalls"@,
    }
}

impl TrackConfig {
    /// The identifier of the table or column in the store.
    pub fn ident(&self) -> (r: &'static str)
        ensures
            r@ == track_config_ident(*self),
    {
        match self {
            TrackConfig::Table => "track_config",
            TrackConfig::TrackId => "track_id",
            TrackConfig::PackageId => "package_id",
            TrackConfig::TrackName => "track_name",
            TrackConfig::ConfigName => "config_name",
            TrackConfig::TrackConfigLength => "track_config_length",
            TrackConfig::CornersPerLap => "corners_per_lap",
            TrackConfig::CategoryId => "category_id",
            TrackConfig::GridStalls => "grid_stalls",
            TrackConfig::PitRoadSpeedLimit => "pit_road_speed_limit",
            TrackConfig::NumberPitstalls => "number_pitstalls",
        }
    }
}

/// The `track` table (`Table`) and its columns.
#[derive(Copy, Clone, Debug, PartialEq, Eq, Structural)]
pub enum Track {
    Table,
    PackageId,
    TrackName,
}

pub open spec fn track_ident(c: Track) -> Seq<char> {
    match c {
        Track::Table => "track"@,
        Track::PackageId => "package_id"@,
        Track::TrackName => "track_name"@,
    }
}

impl Track {
    /// The identifier of the table or column in the store.
    pub fn ident(&self) -> (r: &'static str)
        ensures
            r@ == track_ident(*self),
    {
        match self {
            Track::Table => "track",
            Track::PackageId => "package_id",
            Track::TrackName => "track_name",
        }
    }
}

/// The `car` table (`Table`) and its columns.
#[derive(Copy, Clone, Debug, PartialEq, Eq, Structural)]
pub enum Car {
    Table,
    CarId,
    CarName,
    CarNameAbbreviated,
}

pub open spec fn car_ident(c: Car) -> Seq<char> {
    match c {
        Car::Table => "car"@,
        Car::CarId => "car_id"@,
        Car::CarName => "car_name"@,
        Car::CarNameAbbreviated => "car_name_abbreviated"@,
    }
}

impl Car {
    /// The identifier of the table or column in the store.
    pub fn ident(&self) -> (r: &'static str)
        ensures
            r@ == car_ident(*self),
    {
        match self {
            Car::Table => "car",
            Car::CarId => "car_id",
            Car::CarName => "car_name",
            Car::CarNameAbbreviated => "car_name_abbreviated",
        }
    }
}

/// The `site_team` table (`Table`) and its columns.
#[derive(Copy, Clone, Debug, PartialEq, Eq, Structural)]
pub enum SiteTeam {
    Table,
    SiteTeamId,
    SiteTeamName,
    DiscordHookUrl,
    TeamReportDiscordHookUrl,
}

pub open spec fn site_team_ident(c: SiteTeam) -> Seq<char> {
    match c {
        SiteTeam::Table => "site_team"@,
        SiteTeam::SiteTeamId => "site_team_id"@,
        SiteTeam::SiteTeamName => "site_team_name"@,
        SiteTeam::DiscordHookUrl => "discord_hook_url"@,
        SiteTeam::TeamReportDiscordHookUrl => "team_report_discord_hook_url"@,
    }
}

impl SiteTeam {
    /// The identifier of the table or column in the store.
    pub fn ident(&self) -> (r: &'static str)
        ensures
            r@ == site_team_ident(*self),
    {
        match self {
            SiteTeam::Table => "site_team",
            SiteTeam::SiteTeamId => "site_team_id",
            SiteTeam::SiteTeamName => "site_team_name",
            SiteTeam::DiscordHookUrl => "discord_hook_url",
            SiteTeam::TeamReportDiscordHookUrl => "team_report_discord_hook_url",
        }
    }
}

/// The `site_team_member` table (`Table`) and its columns.
#[derive(Copy, Clone, Debug, PartialEq, Eq, Structural)]
pub enum SiteTeamMember {
    Table,
    SiteTeamId,
    CustId,
}

pub open spec fn site_team_member_ident(c: SiteTeamMember) -> Seq<char> {
    match c {
        SiteTeamMember::Table => "site_team_member"@,
        SiteTeamMember::SiteTeamId => "site_team_id"@,
        SiteTeamMember::CustId => "cust_id"@,
    }
}

impl SiteTeamMember {
    /// The identifier of the table or column in the store.
    pub fn ident(&self) -> (r: &'static str)
        ensures
            r@ == site_team_member_ident(*self),
    {
        match self {
            SiteTeamMember::Table => "site_team_member",
            SiteTeamMember::SiteTeamId => "site_team_id",
            SiteTeamMember::CustId => "cust_id",
        }
    }
}

/// The `site_team_team` table (`Table`) and its columns.
#[derive(Copy, Clone, Debug, PartialEq, Eq, Structural)]
pub enum SiteTeamTeam {
    Table,
    SiteTeamId,
    TeamId,
}

pub open spec fn site_team_team_ident(c: SiteTeamTeam) -> Seq<char> {
    match c {
        SiteTeamTeam::Table => "site_team_team"@,
        SiteTeamTeam::SiteTeamId => "site_team_id"@,
        SiteTeamTeam::TeamId => "team_id"@,
    }
}

impl SiteTeamTeam {
    /// The identifier of the table or column in the store.
    pub fn ident(&self) -> (r: &'static str)
        ensures
            r@ == site_team_team_ident(*self),
    {
        match self {
            SiteTeamTeam::Table => "site_team_team",
            SiteTeamTeam::SiteTeamId => "site_team_id",
            SiteTeamTeam::TeamId => "team_id",
        }
    }
}

} // verus!
