//! From one result document to the rows of the relational store.
//!
//! Every field that a row needs is checked for presence; a document that
//! lacks one is rejected as a whole with [`MalformedDocument`], and nothing
//! of it is written. The team identity is the one exception: where a team
//! entry has no id or no name, the id defaults to -1 and the name to "".
use vstd::prelude::*;
use crate::document::{RawDriverResult, RawParticipant, RawSimsession, RawSubsession};
use crate::sof_calculator::{
    nothing_is_partitioned, partitioned, solo_driver_keeps_partition, team_begun_keeps_partition,
    team_driver_keeps_partition, team_ended_keeps_partition, team_in_class, SofCalculators,
    SofCalculatorsState, SofState,
};
use crate::time::{start_time_seconds, utc_seconds_of};

verus! {

/// The team id of a solo driver's result, and of a team that upstream left
/// without an id.
pub const NO_TEAM: i64 = -1;

/// A required field is missing from a document. `field` names it; the
/// indices locate the simsession, the entry of its results and the driver
/// of a team entry where it was looked for.
pub struct MalformedDocument {
    pub field: &'static str,
    pub simsession: Option<usize>,
    pub result: Option<usize>,
    pub driver: Option<usize>,
}

/// The row of one driver in one simsession, with what the store keeps of
/// the driver and of the reason the driver's run ended.
pub struct DriverResultRow {
    pub cust_id: i64,
    pub display_name: String,
    pub team_id: i64,
    pub team_name: String,
    pub subsession_id: i64,
    pub simsession_number: i64,
    pub oldi_rating: i64,
    pub newi_rating: i64,
    pub old_cpi: String,
    pub new_cpi: String,
    pub incidents: i64,
    pub laps_complete: i64,
    pub average_lap: i64,
    pub car_id: i64,
    pub car_class_id: i64,
    pub finish_position: i64,
    pub finish_position_in_class: i64,
    pub reason_out_id: i64,
    /// Empty where upstream gave no text for the reason.
    pub reason_out: String,
}

/// Where one driver row comes from: a driver's result and the team it was
/// driven for.
pub struct DriverSource {
    pub driver: RawDriverResult,
    pub team_id: i64,
    pub team_name: Seq<char>,
}

pub open spec fn opt_text(o: Option<String>) -> Option<Seq<char>> {
    match o {
        Some(s) => Some(s@),
        None => None,
    }
}

pub open spec fn text_or_empty(o: Option<String>) -> Seq<char> {
    match o {
        Some(s) => s@,
        None => Seq::empty(),
    }
}

/// Every field that a driver row needs is present.
pub open spec fn driver_complete(d: RawDriverResult) -> bool {
    &&& d.cust_id is Some
    &&& d.display_name is Some
    &&& d.oldi_rating is Some
    &&& d.newi_rating is Some
    &&& d.old_cpi is Some
    &&& d.new_cpi is Some
    &&& d.incidents is Some
    &&& d.laps_complete is Some
    &&& d.average_lap is Some
    &&& d.car_id is Some
    &&& d.car_class_id is Some
    &&& d.finish_position is Some
    &&& d.finish_position_in_class is Some
    &&& d.reason_out_id is Some
}

/// `row` is the row of `src` in the given simsession.
pub open spec fn row_of(row: DriverResultRow, src: DriverSource, subsession_id: i64, simsession_number: i64) -> bool {
    let d = src.driver;
    &&& Some(row.cust_id) == d.cust_id
    &&& Some(row.display_name@) == opt_text(d.display_name)
    &&& row.team_id == src.team_id
    &&& row.team_name@ == src.team_name
    &&& row.subsession_id == subsession_id
    &&& row.simsession_number == simsession_number
    &&& Some(row.oldi_rating) == d.oldi_rating
    &&& Some(row.newi_rating) == d.newi_rating
    &&& Some(row.old_cpi@) == opt_text(d.old_cpi)
    &&& Some(row.new_cpi@) == opt_text(d.new_cpi)
    &&& Some(row.incidents) == d.incidents
    &&& Some(row.laps_complete) == d.laps_complete
    &&& Some(row.average_lap) == d.average_lap
    &&& Some(row.car_id) == d.car_id
    &&& Some(row.car_class_id) == d.car_class_id
    &&& Some(row.finish_position) == d.finish_position
    &&& Some(row.finish_position_in_class) == d.finish_position_in_class
    &&& Some(row.reason_out_id) == d.reason_out_id
    &&& row.reason_out@ == text_or_empty(d.reason_out)
}

pub open spec fn rows_of(rows: Seq<DriverResultRow>, srcs: Seq<DriverSource>, subsession_id: i64, simsession_number: i64) -> bool {
    &&& rows.len() == srcs.len()
    &&& forall|k: int| 0 <= k < rows.len() ==> row_of(#[trigger] rows[k], srcs[k], subsession_id, simsession_number)
}

pub open spec fn team_id_of(p: RawParticipant) -> i64 {
    match p.team_id {
        Some(t) => t,
        None => NO_TEAM,
    }
}

pub open spec fn team_drivers(p: RawParticipant) -> Seq<RawDriverResult> {
    match p.driver_results {
        Some(ds) => ds@,
        None => Seq::empty(),
    }
}

/// The driver rows an entry gives: itself when solo, else one per driver of
/// the team, in the document's order, all with the team's identity.
pub open spec fn participant_sources(p: RawParticipant) -> Seq<DriverSource> {
    if p.is_solo() {
        seq![DriverSource { driver: p.fields, team_id: NO_TEAM, team_name: Seq::empty() }]
    } else {
        team_drivers(p).map_values(|d: RawDriverResult| DriverSource {
            driver: d,
            team_id: team_id_of(p),
            team_name: text_or_empty(p.fields.display_name),
        })
    }
}

pub open spec fn participant_complete(p: RawParticipant) -> bool {
    if p.is_solo() {
        driver_complete(p.fields)
    } else {
        &&& p.fields.car_class_id is Some
        &&& p.driver_results is Some
        &&& forall|k: int| 0 <= k < team_drivers(p).len() ==> driver_complete(#[trigger] team_drivers(p)[k])
    }
}

pub open spec fn sources_of(ps: Seq<RawParticipant>) -> Seq<DriverSource>
    decreases ps.len(),
{
    if ps.len() == 0 {
        Seq::empty()
    } else {
        sources_of(ps.drop_last()) + participant_sources(ps.last())
    }
}

pub open spec fn all_complete(ps: Seq<RawParticipant>) -> bool {
    forall|k: int| 0 <= k < ps.len() ==> participant_complete(#[trigger] ps[k])
}

pub open spec fn no_participants() -> SofCalculatorsState {
    SofCalculatorsState { total: SofState::empty(), classes: Seq::empty(), team_class: -1i64 }
}

pub open spec fn team_drivers_fed(st: SofCalculatorsState, ds: Seq<RawDriverResult>) -> SofCalculatorsState
    decreases ds.len(),
{
    if ds.len() == 0 {
        st
    } else {
        team_drivers_fed(st, ds.drop_last()).with_team_driver(ds.last().oldi_rating.unwrap())
    }
}

/// The accumulators after one more entry: a solo driver with its rating, or
/// a team with each of its drivers' ratings, counted as one participant.
pub open spec fn participant_fed(st: SofCalculatorsState, p: RawParticipant) -> SofCalculatorsState {
    if p.is_solo() {
        st.with_solo_driver(p.fields.car_class_id.unwrap(), p.fields.oldi_rating.unwrap())
    } else {
        team_drivers_fed(st.with_team_begun(p.fields.car_class_id.unwrap()), team_drivers(p)).with_team_ended()
    }
}

pub open spec fn participants_fed(ps: Seq<RawParticipant>) -> SofCalculatorsState
    decreases ps.len(),
{
    if ps.len() == 0 {
        no_participants()
    } else {
        participant_fed(participants_fed(ps.drop_last()), ps.last())
    }
}

proof fn lemma_team_drivers_partition(st: SofCalculatorsState, ds: Seq<RawDriverResult>)
    requires
        partitioned(st),
        team_in_class(st),
    ensures
        partitioned(team_drivers_fed(st, ds)),
        team_in_class(team_drivers_fed(st, ds)),
    decreases ds.len(),
{
    if ds.len() > 0 {
        lemma_team_drivers_partition(st, ds.drop_last());
        team_driver_keeps_partition(team_drivers_fed(st, ds.drop_last()), ds.last().oldi_rating.unwrap());
    }
}

/// Whatever the entries of a simsession, the accumulator of the whole
/// simsession counts exactly the participants, and holds exactly the
/// ratings, that its class accumulators count and hold together.
pub proof fn classes_partition_the_total(ps: Seq<RawParticipant>)
    ensures
        partitioned(participants_fed(ps)),
    decreases ps.len(),
{
    if ps.len() == 0 {
        nothing_is_partitioned();
    } else {
        classes_partition_the_total(ps.drop_last());
        let st = participants_fed(ps.drop_last());
        let p = ps.last();
        if p.is_solo() {
            solo_driver_keeps_partition(st, p.fields.car_class_id.unwrap(), p.fields.oldi_rating.unwrap());
        } else {
            let begun = st.with_team_begun(p.fields.car_class_id.unwrap());
            team_begun_keeps_partition(st, p.fields.car_class_id.unwrap());
            lemma_team_drivers_partition(begun, team_drivers(p));
            team_ended_keeps_partition(team_drivers_fed(begun, team_drivers(p)));
        }
    }
}

fn copy_text(s: &String) -> (r: String)
    ensures
        r@ == s@,
{
    s.clone()
}

/// The row of one driver, or the name of a field it lacks.
fn driver_row(
    d: &RawDriverResult,
    team_id: i64,
    team_name: &String,
    subsession_id: i64,
    simsession_number: i64,
) -> (r: Result<DriverResultRow, &'static str>)
    ensures
        r is Ok <==> driver_complete(*d),
        r matches Ok(row) ==> row_of(
            row,
            DriverSource { driver: *d, team_id, team_name: team_name@ },
            subsession_id,
            simsession_number,
        ),
{
    let cust_id = match d.cust_id { Some(v) => v, None => return Err("cust_id") };
    let display_name = match &d.display_name { Some(v) => copy_text(v), None => return Err("display_name") };
    let oldi_rating = match d.oldi_rating { Some(v) => v, None => return Err("oldi_rating") };
    let newi_rating = match d.newi_rating { Some(v) => v, None => return Err("newi_rating") };
    let old_cpi = match &d.old_cpi { Some(v) => copy_text(v), None => return Err("old_cpi") };
    let new_cpi = match &d.new_cpi { Some(v) => copy_text(v), None => return Err("new_cpi") };
    let incidents = match d.incidents { Some(v) => v, None => return Err("incidents") };
    let laps_complete = match d.laps_complete { Some(v) => v, None => return Err("laps_complete") };
    let average_lap = match d.average_lap { Some(v) => v, None => return Err("average_lap") };
    let car_id = match d.car_id { Some(v) => v, None => return Err("car_id") };
    let car_class_id = match d.car_class_id { Some(v) => v, None => return Err("car_class_id") };
    let finish_position = match d.finish_position { Some(v) => v, None => return Err("finish_position") };
    let finish_position_in_class = match d.finish_position_in_class {
        Some(v) => v,
        None => return Err("finish_position_in_class"),
    };
    let reason_out_id = match d.reason_out_id { Some(v) => v, None => return Err("reason_out_id") };
    let reason_out = match &d.reason_out { Some(v) => copy_text(v), None => String::new() };
    Ok(DriverResultRow {
        cust_id,
        display_name,
        team_id,
        team_name: copy_text(team_name),
        subsession_id,
        simsession_number,
        oldi_rating,
        newi_rating,
        old_cpi,
        new_cpi,
        incidents,
        laps_complete,
        average_lap,
        car_id,
        car_class_id,
        finish_position,
        finish_position_in_class,
        reason_out_id,
        reason_out,
    })
}


/// The aggregate of one class in one simsession: its entries and the
/// ratings its strength of field is computed over.
pub struct CarClassResultRow {
    pub car_class_id: i64,
    pub subsession_id: i64,
    pub simsession_number: i64,
    pub entries_in_class: usize,
    pub ratings: Vec<i64>,
}

/// The row of one simsession: its entries and the ratings its strength of
/// field is computed over.
pub struct SimsessionRow {
    pub subsession_id: i64,
    pub simsession_number: i64,
    pub simsession_type: i64,
    pub entries: usize,
    pub ratings: Vec<i64>,
}

/// Everything one simsession adds to the store.
pub struct SimsessionRows {
    pub simsession: SimsessionRow,
    /// One row per class, in the order the classes first appear.
    pub classes: Vec<CarClassResultRow>,
    /// One row per driver, in the order of the document.
    pub drivers: Vec<DriverResultRow>,
}

pub open spec fn class_rows_of(
    rows: Seq<CarClassResultRow>,
    classes: Seq<(i64, SofState)>,
    subsession_id: i64,
    simsession_number: i64,
) -> bool {
    &&& rows.len() == classes.len()
    &&& forall|k: int| 0 <= k < rows.len() ==> {
        &&& (#[trigger] rows[k]).car_class_id == classes[k].0
        &&& rows[k].subsession_id == subsession_id
        &&& rows[k].simsession_number == simsession_number
        &&& rows[k].entries_in_class == classes[k].1.entries
        &&& rows[k].ratings@ == classes[k].1.ratings
    }
}

pub open spec fn results_of(s: RawSimsession) -> Seq<RawParticipant> {
    match s.results {
        Some(ps) => ps@,
        None => Seq::empty(),
    }
}

pub open spec fn simsession_complete(s: RawSimsession) -> bool {
    &&& s.simsession_number is Some
    &&& s.simsession_type is Some
    &&& s.results is Some
    &&& all_complete(results_of(s))
}

/// `r` holds exactly the rows of simsession `s`.
pub open spec fn simsession_rows_of(r: SimsessionRows, subsession_id: i64, s: RawSimsession) -> bool {
    let fed = participants_fed(results_of(s));
    let number = s.simsession_number.unwrap();
    &&& r.simsession.subsession_id == subsession_id
    &&& Some(r.simsession.simsession_number) == s.simsession_number
    &&& Some(r.simsession.simsession_type) == s.simsession_type
    &&& r.simsession.entries == fed.total.entries
    &&& r.simsession.ratings@ == fed.total.ratings
    &&& class_rows_of(r.classes@, fed.classes, subsession_id, number)
    &&& rows_of(r.drivers@, sources_of(results_of(s)), subsession_id, number)
}

fn malformed(field: &'static str, simsession: usize, result: Option<usize>, driver: Option<usize>) -> (r: MalformedDocument)
    ensures
        r.field == field,
        r.simsession == Some(simsession),
        r.result == result,
        r.driver == driver,
{
    MalformedDocument { field, simsession: Some(simsession), result, driver }
}

/// The rows of the class aggregates that `calc` holds.
fn class_rows(calc: &SofCalculators, subsession_id: i64, simsession_number: i64) -> (r: Vec<CarClassResultRow>)
    ensures
        class_rows_of(r@, calc@.classes, subsession_id, simsession_number),
{
    let n = calc.class_count();
    let mut rows: Vec<CarClassResultRow> = Vec::new();
    let mut k: usize = 0;
    while k < n
        invariant
            n == calc@.classes.len(),
            k <= n,
            rows@.len() == k,
            forall|m: int| 0 <= m < k ==> {
                &&& (#[trigger] rows@[m]).car_class_id == calc@.classes[m].0
                &&& rows@[m].subsession_id == subsession_id
                &&& rows@[m].simsession_number == simsession_number
                &&& rows@[m].entries_in_class == calc@.classes[m].1.entries
                &&& rows@[m].ratings@ == calc@.classes[m].1.ratings
            },
        decreases n - k,
    {
        let (class_id, c) = calc.class_at(k);
        rows.push(CarClassResultRow {
            car_class_id: class_id,
            subsession_id,
            simsession_number,
            entries_in_class: c.get_team_count(),
            ratings: c.ratings(),
        });
        k = k + 1;
    }
    rows
}

proof fn lemma_prefix_step<T>(s: Seq<T>, i: int)
    requires
        0 <= i < s.len(),
    ensures
        s.subrange(0, i + 1).drop_last() == s.subrange(0, i),
        s.subrange(0, i + 1).last() == s[i],
        s.subrange(0, i + 1).len() > 0,
{
    assert(s.subrange(0, i + 1).drop_last() =~= s.subrange(0, i));
}

/// The rows of one simsession of subsession `subsession_id`; `index` is its
/// position in the document, for the error.
fn simsession_rows(subsession_id: i64, s: &RawSimsession, index: usize) -> (r: Result<SimsessionRows, MalformedDocument>)
    ensures
        r is Ok <==> simsession_complete(*s),
        r matches Ok(rows) ==> simsession_rows_of(rows, subsession_id, *s),
        r matches Err(e) ==> e.simsession == Some(index) && (e.result matches Some(i) ==> (i < results_of(*s).len()
            && !participant_complete(results_of(*s)[i as int]))),
{
    let number = match s.simsession_number { Some(v) => v, None => return Err(malformed("simsession_number", index, None, None)) };
    let kind = match s.simsession_type { Some(v) => v, None => return Err(malformed("simsession_type", index, None, None)) };
    let ps = match &s.results { Some(ps) => ps, None => return Err(malformed("results", index, None, None)) };
    let ghost pseq = ps@;
    assert(pseq == results_of(*s));
    let mut calc = SofCalculators::new();
    let mut drivers: Vec<DriverResultRow> = Vec::new();
    let no_name = String::new();
    let mut i: usize = 0;
    assert(pseq.subrange(0, 0) =~= Seq::<RawParticipant>::empty());
    while i < ps.len()
        invariant
            pseq == ps@,
            pseq == results_of(*s),
            no_name@ == Seq::<char>::empty(),
            i <= pseq.len(),
            calc.wf(),
            calc@ == participants_fed(pseq.subrange(0, i as int)),
            calc@.total.entries == i,
            rows_of(drivers@, sources_of(pseq.subrange(0, i as int)), subsession_id, number),
            all_complete(pseq.subrange(0, i as int)),
        decreases pseq.len() - i,
    {
        let p = &ps[i];
        let ghost prefix = pseq.subrange(0, i as int);
        let ghost next = pseq.subrange(0, i + 1);
        proof {
            lemma_prefix_step(pseq, i as int);
        }
        let ghost base = drivers@;
        match p.fields.cust_id {
            Some(_) => {
                let row = match driver_row(&p.fields, NO_TEAM, &no_name, subsession_id, number) {
                    Ok(row) => row,
                    Err(f) => {
                        assert(!participant_complete(pseq[i as int]));
                        return Err(malformed(f, index, Some(i), None));
                    },
                };
                let class_id = p.fields.car_class_id.unwrap();
                let rating = p.fields.oldi_rating.unwrap();
                calc.add_solo_driver(class_id, rating);
                drivers.push(row);
                proof {
                    let srcs = sources_of(next);
                    assert(srcs == sources_of(prefix) + participant_sources(pseq[i as int]));
                    assert forall|k: int| 0 <= k < drivers@.len() implies row_of(
                        #[trigger] drivers@[k],
                        srcs[k],
                        subsession_id,
                        number,
                    ) by {
                        if k < base.len() {
                            assert(drivers@[k] == base[k]);
                        }
                    }
                }
            },
            None => {
                let class_id = match p.fields.car_class_id {
                    Some(c) => c,
                    None => {
                        assert(!participant_complete(pseq[i as int]));
                        return Err(malformed("car_class_id", index, Some(i), None));
                    },
                };
                let ds = match &p.driver_results {
                    Some(ds) => ds,
                    None => {
                        assert(!participant_complete(pseq[i as int]));
                        return Err(malformed("driver_results", index, Some(i), None));
                    },
                };
                let team_id = match p.team_id { Some(t) => t, None => NO_TEAM };
                let team_name = match &p.fields.display_name { Some(n) => copy_text(n), None => String::new() };
                assert(ds@ == team_drivers(*p));
                calc.begin_team(class_id);
                let ghost begun = calc@;
                let ghost tsrcs = participant_sources(*p);
                let mut j: usize = 0;
                assert(ds@.subrange(0, 0) =~= Seq::<RawDriverResult>::empty());
                while j < ds.len()
                    invariant
                        pseq == ps@,
                        pseq == results_of(*s),
                        i < pseq.len(),
                        *p == pseq[i as int],
                        !p.is_solo(),
                        ds@ == team_drivers(*p),
                        tsrcs == participant_sources(*p),
                        team_id == team_id_of(*p),
                        team_name@ == text_or_empty(p.fields.display_name),
                        j <= ds@.len(),
                        calc.wf(),
                        calc@ == team_drivers_fed(begun, ds@.subrange(0, j as int)),
                        calc@.total.entries == i,
                        drivers@.len() == base.len() + j,
                        forall|k: int| 0 <= k < base.len() ==> #[trigger] drivers@[k] == base[k],
                        forall|k: int| 0 <= k < j ==> row_of(
                            #[trigger] drivers@[base.len() + k],
                            tsrcs[k],
                            subsession_id,
                            number,
                        ),
                        forall|k: int| 0 <= k < j ==> driver_complete(#[trigger] ds@[k]),
                    decreases ds@.len() - j,
                {
                    proof {
                        lemma_prefix_step(ds@, j as int);
                    }
                    let row = match driver_row(&ds[j], team_id, &team_name, subsession_id, number) {
                        Ok(row) => row,
                        Err(f) => {
                            assert(!driver_complete(team_drivers(*p)[j as int]));
                            assert(!participant_complete(pseq[i as int]));
                            return Err(malformed(f, index, Some(i), Some(j)));
                        },
                    };
                    calc.add_team_driver(ds[j].oldi_rating.unwrap());
                    drivers.push(row);
                    assert(drivers@[base.len() + j] == row);
                    j = j + 1;
                }
                assert(ds@.subrange(0, ds@.len() as int) == ds@);
                calc.end_team();
                proof {
                    assert(participant_complete(pseq[i as int]));
                    let srcs = sources_of(next);
                    assert(srcs == sources_of(prefix) + tsrcs);
                    assert forall|k: int| 0 <= k < drivers@.len() implies row_of(
                        #[trigger] drivers@[k],
                        srcs[k],
                        subsession_id,
                        number,
                    ) by {
                        if k >= base.len() {
                            let m = k - base.len();
                            assert(drivers@[base.len() + m] == drivers@[k]);
                        }
                    }
                }
            },
        }
        proof {
            assert forall|k: int| 0 <= k < next.len() implies participant_complete(#[trigger] next[k]) by {
                if k < i {
                    assert(next[k] == prefix[k]);
                }
            }
        }
        i = i + 1;
    }
    assert(pseq.subrange(0, pseq.len() as int) == pseq);
    let classes = class_rows(&calc, subsession_id, number);
    let total = calc.total();
    Ok(SimsessionRows {
        simsession: SimsessionRow {
            subsession_id,
            simsession_number: number,
            simsession_type: kind,
            entries: total.get_team_count(),
            ratings: total.ratings(),
        },
        classes,
        drivers,
    })
}


/// The row of a subsession; `start_time` is in seconds since the epoch.
pub struct SubsessionRow {
    pub subsession_id: i64,
    pub session_id: i64,
    pub start_time: i64,
    pub license_category_id: i64,
    pub event_type: i64,
    pub track_id: i64,
    pub official_session: bool,
}

/// The row of the session a subsession belongs to; sessions recur across
/// subsessions, so the store keeps the first one it is given.
pub struct SessionRow {
    pub session_id: i64,
    pub series_name: String,
    pub session_name: Option<String>,
}

/// Everything one result document adds to the store.
pub struct SubsessionRows {
    pub subsession: SubsessionRow,
    pub session: SessionRow,
    /// One entry per simsession, in the document's order.
    pub simsessions: Vec<SimsessionRows>,
}

pub open spec fn simsessions_of(doc: RawSubsession) -> Seq<RawSimsession> {
    match doc.session_results {
        Some(ss) => ss@,
        None => Seq::empty(),
    }
}

pub open spec fn start_time_of(doc: RawSubsession) -> Option<i64> {
    match doc.start_time {
        Some(t) => utc_seconds_of(t@),
        None => None,
    }
}

/// Every field that the rows of the document need is present.
pub open spec fn subsession_complete(doc: RawSubsession) -> bool {
    &&& doc.subsession_id is Some
    &&& doc.session_id is Some
    &&& start_time_of(doc) is Some
    &&& doc.license_category_id is Some
    &&& doc.event_type is Some
    &&& doc.track_id is Some
    &&& doc.official_session is Some
    &&& doc.series_name is Some
    &&& doc.session_results is Some
    &&& forall|k: int| 0 <= k < simsessions_of(doc).len() ==> simsession_complete(#[trigger] simsessions_of(doc)[k])
}

/// `r` holds exactly the rows of the document.
pub open spec fn subsession_rows_of(r: SubsessionRows, doc: RawSubsession) -> bool {
    let id = doc.subsession_id.unwrap();
    let sims = simsessions_of(doc);
    &&& Some(r.subsession.subsession_id) == doc.subsession_id
    &&& Some(r.subsession.session_id) == doc.session_id
    &&& Some(r.subsession.start_time) == start_time_of(doc)
    &&& Some(r.subsession.license_category_id) == doc.license_category_id
    &&& Some(r.subsession.event_type) == doc.event_type
    &&& Some(r.subsession.track_id) == doc.track_id
    &&& Some(r.subsession.official_session) == doc.official_session
    &&& Some(r.session.session_id) == doc.session_id
    &&& Some(r.session.series_name@) == opt_text(doc.series_name)
    &&& opt_text(r.session.session_name) == opt_text(doc.session_name)
    &&& r.simsessions@.len() == sims.len()
    &&& forall|k: int| 0 <= k < sims.len() ==> simsession_rows_of(#[trigger] r.simsessions@[k], id, sims[k])
}

fn top_level(field: &'static str) -> (r: MalformedDocument)
    ensures
        r.field == field,
        r.simsession is None,
        r.result is None,
        r.driver is None,
{
    MalformedDocument { field, simsession: None, result: None, driver: None }
}

/// The rows of one result document, or the first required field it lacks.
pub fn ingest_subsession(doc: &RawSubsession) -> (r: Result<SubsessionRows, MalformedDocument>)
    ensures
        r is Ok <==> subsession_complete(*doc),
        r matches Ok(rows) ==> subsession_rows_of(rows, *doc),
        r matches Err(e) ==> (e.simsession matches Some(k) ==> (k < simsessions_of(*doc).len()
            && !simsession_complete(simsessions_of(*doc)[k as int]))),
{
    let subsession_id = match doc.subsession_id { Some(v) => v, None => return Err(top_level("subsession_id")) };
    let session_id = match doc.session_id { Some(v) => v, None => return Err(top_level("session_id")) };
    let start_time = match &doc.start_time {
        Some(t) => match start_time_seconds(t.as_str()) {
            Some(v) => v,
            None => return Err(top_level("start_time")),
        },
        None => return Err(top_level("start_time")),
    };
    let license_category_id = match doc.license_category_id {
        Some(v) => v,
        None => return Err(top_level("license_category_id")),
    };
    let event_type = match doc.event_type { Some(v) => v, None => return Err(top_level("event_type")) };
    let track_id = match doc.track_id { Some(v) => v, None => return Err(top_level("track_id")) };
    let official_session = match doc.official_session {
        Some(v) => v,
        None => return Err(top_level("official_session")),
    };
    let series_name = match &doc.series_name { Some(v) => copy_text(v), None => return Err(top_level("series_name")) };
    let session_name = match &doc.session_name { Some(v) => Some(copy_text(v)), None => None };
    let sims = match &doc.session_results { Some(v) => v, None => return Err(top_level("session_results")) };
    let ghost sseq = sims@;
    assert(sseq == simsessions_of(*doc));
    let mut out: Vec<SimsessionRows> = Vec::new();
    let mut k: usize = 0;
    while k < sims.len()
        invariant
            sseq == sims@,
            sseq == simsessions_of(*doc),
            k <= sseq.len(),
            out@.len() == k,
            forall|m: int| 0 <= m < k ==> simsession_complete(#[trigger] sseq[m]),
            forall|m: int| 0 <= m < k ==> simsession_rows_of(#[trigger] out@[m], subsession_id, sseq[m]),
        decreases sseq.len() - k,
    {
        let rows = match simsession_rows(subsession_id, &sims[k], k) {
            Ok(rows) => rows,
            Err(e) => {
                assert(!simsession_complete(sseq[k as int]));
                return Err(e);
            },
        };
        out.push(rows);
        assert(out@[k as int] == rows);
        k = k + 1;
    }
    Ok(SubsessionRows {
        subsession: SubsessionRow {
            subsession_id,
            session_id,
            start_time,
            license_category_id,
            event_type,
            track_id,
            official_session,
        },
        session: SessionRow { session_id, series_name, session_name },
        simsessions: out,
    })
}

} // verus!
