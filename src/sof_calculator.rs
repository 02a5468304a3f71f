//! Accumulation of the inputs of the strength-of-field metric.
//!
//! The metric itself is `round((1600 / ln 2) * ln(N / sum))` over the
//! accumulated ratings, `sum` being the sum of `2^(-rating / 1600)`. It is a
//! floating-point formula, evaluated by the caller over [`SofCalculator::ratings`].
//! What is decided here is exactly which ratings it is evaluated over: unrated
//! drivers count at the baseline rating, a team counts once with the mean of
//! its drivers' ratings, and every class keeps its own accumulator beside the
//! one for the whole simsession. Over no ratings at all the metric is
//! undefined, and the caller records no value for it.
use vstd::prelude::*;
use vstd::multiset::Multiset;
use vstd::arithmetic::div_mod::{
    lemma_fundamental_div_mod,
    lemma_fundamental_div_mod_converse_div,
};

verus! {

/// The rating upstream reports for a driver who has none yet.
pub const UNRATED: i64 = -1;

/// The rating an unrated driver counts with.
pub const UNRATED_BASELINE: i64 = 1350;

/// A rating as it enters the metric: unrated becomes the baseline.
pub open spec fn normalized(r: i64) -> i64 {
    if r == UNRATED {
        UNRATED_BASELINE
    } else {
        r
    }
}

pub open spec fn sum_of(s: Seq<i64>) -> int
    decreases s.len(),
{
    if s.len() == 0 {
        0
    } else {
        sum_of(s.drop_last()) + s.last()
    }
}

/// The mean of a non-empty list of ratings, rounded down.
pub open spec fn floor_mean(s: Seq<i64>) -> int
    recommends
        s.len() > 0,
{
    sum_of(s) / (s.len() as int)
}

pub fn normalize_rating(r: i64) -> (n: i64)
    ensures
        n == normalized(r),
{
    if r == UNRATED {
        UNRATED_BASELINE
    } else {
        r
    }
}

proof fn lemma_sum_bounds(s: Seq<i64>)
    ensures
        -0x8000_0000_0000_0000 * s.len() <= sum_of(s) <= 0x7fff_ffff_ffff_ffff * s.len(),
    decreases s.len(),
{
    if s.len() > 0 {
        lemma_sum_bounds(s.drop_last());
    }
}

/// The mean of the ratings, rounded down.
pub fn mean_rating(v: &Vec<i64>) -> (m: i64)
    requires
        v@.len() > 0,
    ensures
        m == floor_mean(v@),
{
    let n: usize = v.len();
    let mut sum: i128 = 0;
    let mut i: usize = 0;
    while i < n
        invariant
            n == v@.len(),
            i <= n,
            sum == sum_of(v@.subrange(0, i as int)),
            -0x8000_0000_0000_0000 * i <= sum <= 0x7fff_ffff_ffff_ffff * i,
        decreases n - i,
    {
        assert(v@.subrange(0, i as int + 1).drop_last() == v@.subrange(0, i as int));
        sum = sum + v[i] as i128;
        i = i + 1;
    }
    assert(v@.subrange(0, n as int) == v@);
    let ghost s: int = sum as int;
    let ghost d: int = n as int;
    let q: i128;
    if sum >= 0 {
        let u: u128 = (sum as u128) / (n as u128);
        q = u as i128;
        proof {
            assert(u <= sum) by {
                lemma_fundamental_div_mod(s, d);
                assert(s == d * (s / d) + s % d);
                assert((s / d) * d <= s * d) by (nonlinear_arith)
                    requires s >= 0, d >= 1, 0 <= s % d, s == d * (s / d) + s % d;
            }
        }
    } else {
        let m: u128 = (-sum) as u128;
        let u: u128 = (m + (n as u128) - 1) / (n as u128);
        proof {
            let x: int = m + d - 1;
            lemma_fundamental_div_mod(x, d);
            let r: int = x % d;
            assert(x == d * u + r);
            assert(s == d * (-(u as int)) + (d - 1 - r)) by (nonlinear_arith)
                requires x == d * u + r, x == m + d - 1, s == -(m as int);
            lemma_fundamental_div_mod_converse_div(s, d, -(u as int), d - 1 - r);
            assert(s / d == -(u as int));
            assert(u <= m) by (nonlinear_arith)
                requires x == d * u + r, 0 <= r, d >= 1, x == m + d - 1, u >= 0;
        }
        q = -(u as i128);
    }
    proof {
        lemma_sum_bounds(v@);
        assert(-0x8000_0000_0000_0000 <= s / d <= 0x7fff_ffff_ffff_ffff) by {
            lemma_fundamental_div_mod(s, d);
            assert(-0x8000_0000_0000_0000 * d <= s <= 0x7fff_ffff_ffff_ffff * d);
            assert(-0x8000_0000_0000_0000 <= s / d <= 0x7fff_ffff_ffff_ffff) by (nonlinear_arith)
                requires
                    -0x8000_0000_0000_0000 * d <= s <= 0x7fff_ffff_ffff_ffff * d,
                    s == d * (s / d) + s % d,
                    0 <= s % d < d,
                    d >= 1;
        }
    }
    q as i64
}


/// What a [`SofCalculator`] has accumulated.
pub struct SofState {
    /// Participants counted: solo drivers and teams, rated or not.
    pub entries: nat,
    /// The ratings that the metric is evaluated over, in the order they came.
    pub ratings: Seq<i64>,
    /// The normalized ratings of the drivers of the team being read.
    pub team: Seq<i64>,
}

impl SofState {
    pub open spec fn empty() -> SofState {
        SofState { entries: 0, ratings: seq![], team: seq![] }
    }

    pub open spec fn with_solo_driver(self, r: i64) -> SofState {
        SofState { entries: self.entries + 1, ratings: self.ratings.push(normalized(r)), team: self.team }
    }

    pub open spec fn with_team_begun(self) -> SofState {
        SofState { team: seq![], ..self }
    }

    pub open spec fn with_team_driver(self, r: i64) -> SofState {
        SofState { team: self.team.push(normalized(r)), ..self }
    }

    /// A team counts once, with the mean of its drivers' ratings; a team
    /// without drivers counts as an entry and adds no rating.
    pub open spec fn with_team_ended(self) -> SofState {
        SofState {
            entries: self.entries + 1,
            ratings: if self.team.len() > 0 {
                self.ratings.push(floor_mean(self.team) as i64)
            } else {
                self.ratings
            },
            team: seq![],
        }
    }
}

/// The state after the given ratings joined the team being read, in order.
pub open spec fn with_team_drivers(s: SofState, rs: Seq<i64>) -> SofState
    decreases rs.len(),
{
    if rs.len() == 0 {
        s
    } else {
        with_team_drivers(s, rs.drop_last()).with_team_driver(rs.last())
    }
}

proof fn lemma_team_drivers(s: SofState, rs: Seq<i64>)
    ensures
        with_team_drivers(s, rs).entries == s.entries,
        with_team_drivers(s, rs).ratings == s.ratings,
        with_team_drivers(s, rs).team == s.team + rs.map_values(|r: i64| normalized(r)),
    decreases rs.len(),
{
    if rs.len() > 0 {
        lemma_team_drivers(s, rs.drop_last());
        assert(rs.map_values(|r: i64| normalized(r)) =~= rs.drop_last().map_values(|r: i64| normalized(r)).push(
            normalized(rs.last()),
        ));
        assert(s.team + rs.map_values(|r: i64| normalized(r)) =~= (s.team + rs.drop_last().map_values(
            |r: i64| normalized(r),
        )).push(normalized(rs.last())));
    } else {
        assert(s.team + rs.map_values(|r: i64| normalized(r)) =~= s.team);
    }
}

/// An unrated driver enters the metric at the baseline rating: alone, as a
/// member of a team, and as the only member of a team.
pub proof fn unrated_counts_at_baseline(s: SofState)
    ensures
        s.with_solo_driver(UNRATED).ratings.last() == UNRATED_BASELINE,
        s.with_team_driver(UNRATED).team.last() == UNRATED_BASELINE,
        s.with_team_begun().with_team_driver(UNRATED).with_team_ended().ratings.last() == UNRATED_BASELINE,
{
    let t = s.with_team_begun().with_team_driver(UNRATED).team;
    assert(t == seq![UNRATED_BASELINE]);
    assert(t.drop_last() =~= Seq::<i64>::empty());
    assert(sum_of(t.drop_last()) == 0);
    assert(t.last() == UNRATED_BASELINE);
    assert(sum_of(t) == sum_of(t.drop_last()) + t.last());
    assert(sum_of(t) == UNRATED_BASELINE);
}

/// A team enters the metric as one participant, rated with the mean
/// (rounded down) of its drivers' normalized ratings, in place of one
/// participant per driver.
pub proof fn team_counts_once(s: SofState, rs: Seq<i64>)
    requires
        rs.len() > 0,
    ensures
        with_team_drivers(s.with_team_begun(), rs).with_team_ended().entries == s.entries + 1,
        with_team_drivers(s.with_team_begun(), rs).with_team_ended().ratings == s.ratings.push(
            floor_mean(rs.map_values(|r: i64| normalized(r))) as i64,
        ),
{
    let b = s.with_team_begun();
    lemma_team_drivers(b, rs);
    assert(b.team + rs.map_values(|r: i64| normalized(r)) =~= rs.map_values(|r: i64| normalized(r)));
}

/// Accumulates the participants of one simsession, or of one class in it.
pub struct SofCalculator {
    ratings: Vec<i64>,
    team: Vec<i64>,
    team_count: usize,
}

impl View for SofCalculator {
    type V = SofState;

    closed spec fn view(&self) -> SofState {
        SofState { entries: self.team_count as nat, ratings: self.ratings@, team: self.team@ }
    }
}

impl SofCalculator {
    pub fn new() -> (r: SofCalculator)
        ensures
            r@ == SofState::empty(),
    {
        SofCalculator { ratings: Vec::new(), team: Vec::new(), team_count: 0 }
    }

    /// Starts reading a team: the drivers added from now on form it.
    pub fn begin_team(&mut self)
        ensures
            final(self)@ == old(self)@.with_team_begun(),
    {
        self.team = Vec::new();
    }

    pub fn add_team_driver(&mut self, irating: i64)
        ensures
            final(self)@ == old(self)@.with_team_driver(irating),
    {
        let n = normalize_rating(irating);
        self.team.push(n);
    }

    pub fn end_team(&mut self)
        requires
            old(self)@.entries < usize::MAX,
        ensures
            final(self)@ == old(self)@.with_team_ended(),
    {
        if self.team.len() > 0 {
            let m = mean_rating(&self.team);
            self.ratings.push(m);
        }
        self.team = Vec::new();
        self.team_count = self.team_count + 1;
    }

    pub fn add_solo_driver(&mut self, irating: i64)
        requires
            old(self)@.entries < usize::MAX,
        ensures
            final(self)@ == old(self)@.with_solo_driver(irating),
    {
        let n = normalize_rating(irating);
        self.ratings.push(n);
        self.team_count = self.team_count + 1;
    }

    /// Participants counted, unrated drivers and teams included.
    pub fn get_team_count(&self) -> (r: usize)
        ensures
            r == self@.entries,
    {
        self.team_count
    }

    /// The ratings that the metric is evaluated over.
    pub fn ratings(&self) -> (r: Vec<i64>)
        ensures
            r@ == self@.ratings,
    {
        let r = self.ratings.clone();
        assert(r@ =~= self.ratings@);
        r
    }
}


/// The index of the class's accumulator, or -1 where the class has none.
pub open spec fn find_class(cs: Seq<(i64, SofState)>, class_id: i64) -> int
    decreases cs.len(),
{
    if cs.len() == 0 {
        -1
    } else if cs.last().0 == class_id {
        cs.len() - 1
    } else {
        find_class(cs.drop_last(), class_id)
    }
}

/// Applies `f` to the class's accumulator; a class seen for the first time
/// gets an empty one, placed after the classes seen before.
pub open spec fn update_class(
    cs: Seq<(i64, SofState)>,
    class_id: i64,
    f: spec_fn(SofState) -> SofState,
) -> Seq<(i64, SofState)> {
    let i = find_class(cs, class_id);
    if i >= 0 {
        cs.update(i, (class_id, f(cs[i].1)))
    } else {
        cs.push((class_id, f(SofState::empty())))
    }
}

pub open spec fn class_ids_unique(cs: Seq<(i64, SofState)>) -> bool {
    forall|i: int, j: int| 0 <= i < j < cs.len() ==> cs[i].0 != cs[j].0
}

proof fn lemma_find_class(cs: Seq<(i64, SofState)>, class_id: i64)
    ensures
        -1 <= find_class(cs, class_id) < cs.len(),
        find_class(cs, class_id) >= 0 ==> cs[find_class(cs, class_id)].0 == class_id,
        find_class(cs, class_id) == -1 ==> forall|k: int| 0 <= k < cs.len() ==> cs[k].0 != class_id,
    decreases cs.len(),
{
    if cs.len() > 0 {
        let d = cs.drop_last();
        lemma_find_class(d, class_id);
        if find_class(cs, class_id) == -1 {
            assert forall|k: int| 0 <= k < cs.len() implies cs[k].0 != class_id by {
                if k < cs.len() - 1 {
                    assert(d[k] == cs[k]);
                }
            }
        }
    }
}

/// What a [`SofCalculators`] has accumulated.
pub struct SofCalculatorsState {
    pub total: SofState,
    /// One accumulator per class, in the order the classes were first seen.
    pub classes: Seq<(i64, SofState)>,
    /// The class of the team being read.
    pub team_class: i64,
}

impl SofCalculatorsState {
    pub open spec fn with_team_begun(self, class_id: i64) -> SofCalculatorsState {
        SofCalculatorsState {
            total: self.total.with_team_begun(),
            classes: update_class(self.classes, class_id, |s: SofState| s.with_team_begun()),
            team_class: class_id,
        }
    }

    pub open spec fn with_team_driver(self, r: i64) -> SofCalculatorsState {
        SofCalculatorsState {
            total: self.total.with_team_driver(r),
            classes: update_class(self.classes, self.team_class, |s: SofState| s.with_team_driver(r)),
            ..self
        }
    }

    pub open spec fn with_team_ended(self) -> SofCalculatorsState {
        SofCalculatorsState {
            total: self.total.with_team_ended(),
            classes: update_class(self.classes, self.team_class, |s: SofState| s.with_team_ended()),
            ..self
        }
    }

    pub open spec fn with_solo_driver(self, class_id: i64, r: i64) -> SofCalculatorsState {
        SofCalculatorsState {
            total: self.total.with_solo_driver(r),
            classes: update_class(self.classes, class_id, |s: SofState| s.with_solo_driver(r)),
            ..self
        }
    }
}

/// Entries counted by the class accumulators together.
pub open spec fn class_entries(cs: Seq<(i64, SofState)>) -> int
    decreases cs.len(),
{
    if cs.len() == 0 {
        0
    } else {
        class_entries(cs.drop_last()) + cs.last().1.entries
    }
}

/// Ratings held by the class accumulators together.
pub open spec fn class_ratings(cs: Seq<(i64, SofState)>) -> Multiset<i64>
    decreases cs.len(),
{
    if cs.len() == 0 {
        Multiset::empty()
    } else {
        class_ratings(cs.drop_last()).add(cs.last().1.ratings.to_multiset())
    }
}

/// The whole-simsession accumulator holds exactly what the class
/// accumulators hold together.
pub open spec fn partitioned(st: SofCalculatorsState) -> bool {
    &&& st.total.entries == class_entries(st.classes)
    &&& st.total.ratings.to_multiset() == class_ratings(st.classes)
}

/// The team being read is the same in its class and in the total.
pub open spec fn team_in_class(st: SofCalculatorsState) -> bool {
    let i = find_class(st.classes, st.team_class);
    i >= 0 && st.classes[i].1.team == st.total.team
}

proof fn lemma_class_sums_update(cs: Seq<(i64, SofState)>, i: int, x: (i64, SofState))
    requires
        0 <= i < cs.len(),
    ensures
        class_entries(cs.update(i, x)) == class_entries(cs) - cs[i].1.entries + x.1.entries,
        class_ratings(cs.update(i, x)).add(cs[i].1.ratings.to_multiset()) =~= class_ratings(cs).add(
            x.1.ratings.to_multiset(),
        ),
    decreases cs.len(),
{
    broadcast use vstd::multiset::group_multiset_axioms;

    let u = cs.update(i, x);
    let d = cs.drop_last();
    assert(class_ratings(cs) == class_ratings(d).add(cs.last().1.ratings.to_multiset()));
    assert(class_ratings(u) == class_ratings(u.drop_last()).add(u.last().1.ratings.to_multiset()));
    let ci = cs[i].1.ratings.to_multiset();
    let xi = x.1.ratings.to_multiset();
    if i == cs.len() - 1 {
        assert(u.drop_last() =~= d);
        assert(u.last() == x);
    } else {
        assert(u.drop_last() =~= d.update(i, x));
        assert(u.last() == cs.last());
        lemma_class_sums_update(d, i, x);
        assert(d[i] == cs[i]);
        assert forall|v: i64| #[trigger] class_ratings(u).add(ci).count(v) == class_ratings(cs).add(xi).count(v) by {
            assert(class_ratings(d.update(i, x)).add(ci).count(v) == class_ratings(d).add(xi).count(v));
        }
    }
}

proof fn lemma_find_after_update(cs: Seq<(i64, SofState)>, id: i64, y: SofState)
    requires
        find_class(cs, id) >= 0,
    ensures
        find_class(cs.update(find_class(cs, id), (id, y)), id) == find_class(cs, id),
    decreases cs.len(),
{
    let i = find_class(cs, id);
    let u = cs.update(i, (id, y));
    lemma_find_class(cs, id);
    if cs.last().0 == id {
        assert(u.last() == (id, y));
    } else {
        lemma_find_class(cs.drop_last(), id);
        lemma_find_after_update(cs.drop_last(), id, y);
        assert(u.drop_last() =~= cs.drop_last().update(i, (id, y)));
        assert(u.last() == cs.last());
    }
}

proof fn lemma_empty_ratings()
    ensures
        SofState::empty().ratings.to_multiset() =~= Multiset::<i64>::empty(),
{
    broadcast use vstd::multiset::group_multiset_axioms;

    Seq::<i64>::empty().to_multiset_ensures();
    assert forall|v: i64| #[trigger] Seq::<i64>::empty().to_multiset().count(v) == 0 by {
        assert(!Seq::<i64>::empty().contains(v));
    }
}

/// Before any participant, the total and the classes hold nothing.
pub proof fn nothing_is_partitioned()
    ensures
        partitioned(SofCalculatorsState { total: SofState::empty(), classes: Seq::empty(), team_class: -1i64 }),
{
    lemma_empty_ratings();
}

/// The class accumulator that `update_class` changes, before and after.
pub open spec fn class_before(cs: Seq<(i64, SofState)>, id: i64) -> SofState {
    let i = find_class(cs, id);
    if i >= 0 {
        cs[i].1
    } else {
        SofState::empty()
    }
}

proof fn lemma_update_class_sums(
    cs: Seq<(i64, SofState)>,
    id: i64,
    f: spec_fn(SofState) -> SofState,
)
    ensures
        ({
            let before = class_before(cs, id);
            let after = f(before);
            let n = update_class(cs, id, f);
            &&& class_entries(n) == class_entries(cs) - before.entries + after.entries
            &&& forall|v: i64| #[trigger] class_ratings(n).count(v) + before.ratings.to_multiset().count(v)
                == class_ratings(cs).count(v) + after.ratings.to_multiset().count(v)
            &&& find_class(n, id) >= 0
            &&& n[find_class(n, id)].1 == after
        }),
{
    broadcast use vstd::multiset::group_multiset_axioms;

    lemma_find_class(cs, id);
    let i = find_class(cs, id);
    let n = update_class(cs, id, f);
    let before = class_before(cs, id);
    let after = f(before);
    if i >= 0 {
        lemma_class_sums_update(cs, i, (id, after));
        lemma_find_after_update(cs, id, after);
        assert forall|v: i64| #[trigger] class_ratings(n).count(v) + before.ratings.to_multiset().count(v)
            == class_ratings(cs).count(v) + after.ratings.to_multiset().count(v) by {
            assert(class_ratings(n).add(before.ratings.to_multiset()).count(v)
                == class_ratings(cs).add(after.ratings.to_multiset()).count(v));
        }
    } else {
        assert(n.drop_last() =~= cs);
        assert(n.last() == (id, after));
        lemma_empty_ratings();
        assert(class_ratings(n) == class_ratings(cs).add(after.ratings.to_multiset()));
    }
}

/// A solo driver enters its class and the total alike.
pub proof fn solo_driver_keeps_partition(st: SofCalculatorsState, class_id: i64, r: i64)
    requires
        partitioned(st),
    ensures
        partitioned(st.with_solo_driver(class_id, r)),
{
    broadcast use vstd::multiset::group_multiset_axioms;
    broadcast use vstd::seq_lib::group_to_multiset_ensures;

    let f = |s: SofState| s.with_solo_driver(r);
    lemma_update_class_sums(st.classes, class_id, f);
    let after = st.with_solo_driver(class_id, r);
    let before = class_before(st.classes, class_id);
    assert(after.total.ratings == st.total.ratings.push(normalized(r)));
    assert(f(before).ratings == before.ratings.push(normalized(r)));
    assert forall|v: i64| #[trigger] after.total.ratings.to_multiset().count(v) == class_ratings(after.classes).count(v) by {
        assert(class_ratings(after.classes).count(v) + before.ratings.to_multiset().count(v)
            == class_ratings(st.classes).count(v) + f(before).ratings.to_multiset().count(v));
    }
    assert(after.total.ratings.to_multiset() =~= class_ratings(after.classes));
}

/// Starting a team changes no count and no rating, and starts the same
/// empty team in its class and in the total.
pub proof fn team_begun_keeps_partition(st: SofCalculatorsState, class_id: i64)
    requires
        partitioned(st),
    ensures
        partitioned(st.with_team_begun(class_id)),
        team_in_class(st.with_team_begun(class_id)),
{
    broadcast use vstd::multiset::group_multiset_axioms;

    let f = |s: SofState| s.with_team_begun();
    lemma_update_class_sums(st.classes, class_id, f);
    let after = st.with_team_begun(class_id);
    let before = class_before(st.classes, class_id);
    assert(f(before).ratings == before.ratings);
    assert forall|v: i64| #[trigger] after.total.ratings.to_multiset().count(v) == class_ratings(after.classes).count(v) by {
        assert(class_ratings(after.classes).count(v) + before.ratings.to_multiset().count(v)
            == class_ratings(st.classes).count(v) + f(before).ratings.to_multiset().count(v));
    }
    assert(after.total.ratings.to_multiset() =~= class_ratings(after.classes));
}

/// A team's driver joins the same team in its class and in the total.
pub proof fn team_driver_keeps_partition(st: SofCalculatorsState, r: i64)
    requires
        partitioned(st),
        team_in_class(st),
    ensures
        partitioned(st.with_team_driver(r)),
        team_in_class(st.with_team_driver(r)),
{
    broadcast use vstd::multiset::group_multiset_axioms;

    let f = |s: SofState| s.with_team_driver(r);
    lemma_update_class_sums(st.classes, st.team_class, f);
    let after = st.with_team_driver(r);
    let before = class_before(st.classes, st.team_class);
    assert(f(before).ratings == before.ratings);
    assert forall|v: i64| #[trigger] after.total.ratings.to_multiset().count(v) == class_ratings(after.classes).count(v) by {
        assert(class_ratings(after.classes).count(v) + before.ratings.to_multiset().count(v)
            == class_ratings(st.classes).count(v) + f(before).ratings.to_multiset().count(v));
    }
    assert(after.total.ratings.to_multiset() =~= class_ratings(after.classes));
}

/// A team ends as one participant, with one and the same rating, in its
/// class and in the total.
pub proof fn team_ended_keeps_partition(st: SofCalculatorsState)
    requires
        partitioned(st),
        team_in_class(st),
    ensures
        partitioned(st.with_team_ended()),
{
    broadcast use vstd::multiset::group_multiset_axioms;
    broadcast use vstd::seq_lib::group_to_multiset_ensures;

    let f = |s: SofState| s.with_team_ended();
    lemma_update_class_sums(st.classes, st.team_class, f);
    let after = st.with_team_ended();
    let before = class_before(st.classes, st.team_class);
    assert(before.team == st.total.team);
    assert forall|v: i64| #[trigger] after.total.ratings.to_multiset().count(v) == class_ratings(after.classes).count(v) by {
        assert(class_ratings(after.classes).count(v) + before.ratings.to_multiset().count(v)
            == class_ratings(st.classes).count(v) + f(before).ratings.to_multiset().count(v));
        if st.total.team.len() > 0 {
            let m = floor_mean(st.total.team) as i64;
            assert(after.total.ratings == st.total.ratings.push(m));
            assert(f(before).ratings == before.ratings.push(m));
        }
    }
    assert(after.total.ratings.to_multiset() =~= class_ratings(after.classes));
}

enum SofStep {
    BeginTeam,
    TeamDriver(i64),
    EndTeam,
    SoloDriver(i64),
}

impl SofStep {
    spec fn counts_entry(self) -> bool {
        self is EndTeam || self is SoloDriver
    }

    spec fn apply(self, s: SofState) -> SofState {
        match self {
            SofStep::BeginTeam => s.with_team_begun(),
            SofStep::TeamDriver(r) => s.with_team_driver(r),
            SofStep::EndTeam => s.with_team_ended(),
            SofStep::SoloDriver(r) => s.with_solo_driver(r),
        }
    }

    fn feed_one(&self, c: &mut SofCalculator)
        requires
            self.counts_entry() ==> old(c)@.entries < usize::MAX,
        ensures
            final(c)@ == self.apply(old(c)@),
    {
        match self {
            SofStep::BeginTeam => c.begin_team(),
            SofStep::TeamDriver(r) => c.add_team_driver(*r),
            SofStep::EndTeam => c.end_team(),
            SofStep::SoloDriver(r) => c.add_solo_driver(*r),
        }
    }
}

/// The accumulators of one simsession: one over all participants and one per
/// class, each fed the same participants.
pub struct SofCalculators {
    total_sof_calculator: SofCalculator,
    class_sof_calculators: Vec<(i64, SofCalculator)>,
    current_team_class_id: i64,
}

impl View for SofCalculators {
    type V = SofCalculatorsState;

    closed spec fn view(&self) -> SofCalculatorsState {
        SofCalculatorsState {
            total: self.total_sof_calculator@,
            classes: self.class_sof_calculators@.map_values(|c: (i64, SofCalculator)| (c.0, c.1@)),
            team_class: self.current_team_class_id,
        }
    }
}

impl SofCalculators {
    /// Well-formed: every class has one accumulator, and no accumulator has
    /// counted more entries than the one over the whole simsession.
    pub open spec fn wf(&self) -> bool {
        &&& class_ids_unique(self@.classes)
        &&& forall|k: int| 0 <= k < self@.classes.len() ==> #[trigger] self@.classes[k].1.entries <= self@.total.entries
    }

    pub fn new() -> (r: SofCalculators)
        ensures
            r.wf(),
            r@.total == SofState::empty(),
            r@.classes == Seq::<(i64, SofState)>::empty(),
            r@.team_class == -1,
    {
        let r = SofCalculators {
            total_sof_calculator: SofCalculator::new(),
            class_sof_calculators: Vec::new(),
            current_team_class_id: -1,
        };
        assert(r@.classes =~= Seq::<(i64, SofState)>::empty());
        r
    }

    /// The position of the class's accumulator, added empty where missing.
    fn class_position(&mut self, class_id: i64) -> (i: usize)
        requires
            old(self).wf(),
        ensures
            final(self)@.total == old(self)@.total,
            final(self)@.team_class == old(self)@.team_class,
            final(self).wf(),
            find_class(old(self)@.classes, class_id) >= 0 ==> {
                &&& final(self)@.classes == old(self)@.classes
                &&& i == find_class(old(self)@.classes, class_id)
            },
            find_class(old(self)@.classes, class_id) < 0 ==> {
                &&& final(self)@.classes == old(self)@.classes.push((class_id, SofState::empty()))
                &&& i == old(self)@.classes.len()
            },
            i < final(self)@.classes.len(),
    {
        let ghost cs = self@.classes;
        proof {
            lemma_find_class(cs, class_id);
        }
        let mut j: usize = self.class_sof_calculators.len();
        assert(cs.subrange(0, j as int) == cs);
        while j > 0
            invariant
                *self == *old(self),
                self.wf(),
                j <= self.class_sof_calculators@.len(),
                self@.classes == cs,
                find_class(cs, class_id) == find_class(cs.subrange(0, j as int), class_id),
            decreases j,
        {
            if self.class_sof_calculators[j - 1].0 == class_id {
                assert(self@.classes[j - 1].0 == class_id);
                assert(cs.subrange(0, j as int).last() == cs[j - 1]);
                return j - 1;
            }
            assert(self@.classes[j - 1].0 != class_id);
            assert(cs.subrange(0, j as int).drop_last() == cs.subrange(0, j - 1));
            j = j - 1;
        }
        assert(find_class(cs.subrange(0, 0), class_id) == -1);
        self.class_sof_calculators.push((class_id, SofCalculator::new()));
        let ghost ncs = self@.classes;
        assert(ncs =~= cs.push((class_id, SofState::empty())));
        assert(class_ids_unique(ncs)) by {
            assert forall|a: int, b: int| 0 <= a < b < ncs.len() implies ncs[a].0 != ncs[b].0 by {
                if b < cs.len() {
                    assert(ncs[a] == cs[a] && ncs[b] == cs[b]);
                } else {
                    assert(ncs[a] == cs[a]);
                }
            }
        }
        assert forall|k: int| 0 <= k < ncs.len() implies #[trigger] ncs[k].1.entries <= self@.total.entries by {
            if k < cs.len() {
                assert(ncs[k] == cs[k]);
            }
        }
        let n = self.class_sof_calculators.len() - 1;
        n
    }

    proof fn lemma_updated(
        old_cs: Seq<(i64, SofState)>,
        new_cs: Seq<(i64, SofState)>,
        class_id: i64,
        i: int,
        f: spec_fn(SofState) -> SofState,
    )
        requires
            class_ids_unique(old_cs),
            find_class(old_cs, class_id) >= 0 ==> i == find_class(old_cs, class_id)
                && new_cs == old_cs.update(i, (class_id, f(old_cs[i].1))),
            find_class(old_cs, class_id) < 0 ==> i == old_cs.len()
                && new_cs == old_cs.push((class_id, f(SofState::empty()))),
        ensures
            new_cs == update_class(old_cs, class_id, f),
            class_ids_unique(new_cs),
    {
        lemma_find_class(old_cs, class_id);
        if find_class(old_cs, class_id) >= 0 {
            assert forall|a: int, b: int| 0 <= a < b < new_cs.len() implies new_cs[a].0 != new_cs[b].0 by {
                assert(new_cs[a].0 == old_cs[a].0 && new_cs[b].0 == old_cs[b].0);
            }
        } else {
            assert forall|a: int, b: int| 0 <= a < b < new_cs.len() implies new_cs[a].0 != new_cs[b].0 by {
                assert(new_cs[a] == old_cs[a]);
                if b < old_cs.len() {
                    assert(new_cs[b] == old_cs[b]);
                }
            }
        }
    }

    /// Feeds one step to the class's accumulator and to the total one.
    fn feed(&mut self, class_id: i64, step: SofStep)
        requires
            old(self).wf(),
            step.counts_entry() ==> old(self)@.total.entries < usize::MAX,
        ensures
            final(self).wf(),
            final(self)@.team_class == old(self)@.team_class,
            final(self)@.total == step.apply(old(self)@.total),
            final(self)@.classes == update_class(old(self)@.classes, class_id, |s: SofState| step.apply(s)),
    {
        let ghost old_cs = self@.classes;
        let ghost total = self@.total;
        let i = self.class_position(class_id);
        proof {
            lemma_find_class(old_cs, class_id);
        }
        let ghost mid = self@.classes;
        assert(mid[i as int].1 == self.class_sof_calculators@[i as int].1@);
        assert(mid[i as int].1.entries <= self@.total.entries);
        step.feed_one(&mut self.class_sof_calculators[i].1);
        step.feed_one(&mut self.total_sof_calculator);
        proof {
            let f = |s: SofState| step.apply(s);
            let ncs = self@.classes;
            assert(ncs =~= mid.update(i as int, (class_id, f(mid[i as int].1))));
            if find_class(old_cs, class_id) < 0 {
                assert(ncs =~= old_cs.push((class_id, f(SofState::empty()))));
            }
            Self::lemma_updated(old_cs, ncs, class_id, i as int, f);
            assert forall|k: int| 0 <= k < ncs.len() implies #[trigger] ncs[k].1.entries <= self@.total.entries by {
                if k != i {
                    assert(ncs[k] == mid[k]);
                }
            }
        }
    }

    /// Starts reading a team of the given class.
    pub fn begin_team(&mut self, class_id: i64)
        requires
            old(self).wf(),
        ensures
            final(self).wf(),
            final(self)@ == old(self)@.with_team_begun(class_id),
    {
        self.current_team_class_id = class_id;
        self.feed(class_id, SofStep::BeginTeam);
        assert(self@.classes =~= old(self)@.with_team_begun(class_id).classes);
    }

    /// Adds a driver to the team being read.
    pub fn add_team_driver(&mut self, irating: i64)
        requires
            old(self).wf(),
        ensures
            final(self).wf(),
            final(self)@ == old(self)@.with_team_driver(irating),
    {
        self.feed(self.current_team_class_id, SofStep::TeamDriver(irating));
        assert(self@.classes =~= old(self)@.with_team_driver(irating).classes);
    }

    /// Ends the team being read: it counts as one participant.
    pub fn end_team(&mut self)
        requires
            old(self).wf(),
            old(self)@.total.entries < usize::MAX,
        ensures
            final(self).wf(),
            final(self)@ == old(self)@.with_team_ended(),
    {
        self.feed(self.current_team_class_id, SofStep::EndTeam);
        assert(self@.classes =~= old(self)@.with_team_ended().classes);
    }

    pub fn add_solo_driver(&mut self, class_id: i64, irating: i64)
        requires
            old(self).wf(),
            old(self)@.total.entries < usize::MAX,
        ensures
            final(self).wf(),
            final(self)@ == old(self)@.with_solo_driver(class_id, irating),
    {
        self.feed(class_id, SofStep::SoloDriver(irating));
        assert(self@.classes =~= old(self)@.with_solo_driver(class_id, irating).classes);
    }

    /// The accumulator over the whole simsession.
    pub fn total(&self) -> (r: &SofCalculator)
        ensures
            r@ == self@.total,
    {
        &self.total_sof_calculator
    }

    /// The number of classes seen.
    pub fn class_count(&self) -> (r: usize)
        ensures
            r == self@.classes.len(),
    {
        self.class_sof_calculators.len()
    }

    /// The `i`-th class seen, with its accumulator.
    pub fn class_at(&self, i: usize) -> (r: (i64, &SofCalculator))
        requires
            i < self@.classes.len(),
        ensures
            r.0 == self@.classes[i as int].0,
            r.1@ == self@.classes[i as int].1,
    {
        (self.class_sof_calculators[i].0, &self.class_sof_calculators[i].1)
    }
}

} // verus!
