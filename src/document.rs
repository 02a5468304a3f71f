//! The upstream result document, as read from the cache: every field that
//! upstream may leave out is an `Option`, so that a missing field is reported
//! by the ingest and never taken for granted.
use vstd::prelude::*;

verus! {

/// One driver's result, as a solo entry or nested in a team entry. A team
/// entry has the same shape: its `display_name` is the team's name and its
/// `car_class_id` the team's class.
pub struct RawDriverResult {
    pub cust_id: Option<i64>,
    pub display_name: Option<String>,
    pub oldi_rating: Option<i64>,
    pub newi_rating: Option<i64>,
    /// Corrected performance index before the race, as the decimal text of
    /// the document.
    pub old_cpi: Option<String>,
    /// Corrected performance index after the race, as the decimal text of
    /// the document.
    pub new_cpi: Option<String>,
    pub incidents: Option<i64>,
    pub laps_complete: Option<i64>,
    pub average_lap: Option<i64>,
    pub car_id: Option<i64>,
    pub car_class_id: Option<i64>,
    pub finish_position: Option<i64>,
    pub finish_position_in_class: Option<i64>,
    pub reason_out_id: Option<i64>,
    pub reason_out: Option<String>,
}

/// One entry of a simsession's results: a solo driver when `fields` carries
/// a driver identity (`cust_id`), else a team.
pub struct RawParticipant {
    pub fields: RawDriverResult,
    pub team_id: Option<i64>,
    pub driver_results: Option<Vec<RawDriverResult>>,
}

/// One phase of a race: practice, qualifying or the race itself.
pub struct RawSimsession {
    pub simsession_number: Option<i64>,
    pub simsession_type: Option<i64>,
    pub results: Option<Vec<RawParticipant>>,
}

/// The result document of one subsession.
pub struct RawSubsession {
    pub subsession_id: Option<i64>,
    pub session_id: Option<i64>,
    /// Start time as upstream writes it, `YYYY-MM-DDTHH:MM:SSZ`.
    pub start_time: Option<String>,
    pub license_category_id: Option<i64>,
    pub event_type: Option<i64>,
    /// The id of the subsession's track (`track.track_id`).
    pub track_id: Option<i64>,
    pub official_session: Option<bool>,
    pub series_name: Option<String>,
    pub session_name: Option<String>,
    pub session_results: Option<Vec<RawSimsession>>,
}

impl RawParticipant {
    /// Solo entries carry a driver identity; team entries do not.
    pub open spec fn is_solo(&self) -> bool {
        self.fields.cust_id is Some
    }
}

} // verus!
