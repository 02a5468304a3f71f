//! Which race identifiers a sync run asks upstream for, and how the answers
//! are put together.
use vstd::prelude::*;
use vstd::arithmetic::div_mod::lemma_fundamental_div_mod_converse;
use crate::time::{join_date, join_date_of};

verus! {

/// The last season quarter upstream is searched through.
pub const CURRENT_YEAR: i32 = 2023;
pub const CURRENT_QUARTER: i32 = 2;

pub const SECONDS_PER_DAY: i64 = 86400;

/// Upstream caps a search over hosted sessions at 90 days; each window is
/// one day shorter, to be safe.
pub const HOSTED_WINDOW_DAYS: i64 = 89;

/// One hosted search window, in seconds.
pub const HOSTED_WINDOW: i64 = HOSTED_WINDOW_DAYS * SECONDS_PER_DAY;

/// The items of the chunks, chunk after chunk, each chunk in its own order.
pub open spec fn concat_all(cs: Seq<Seq<i64>>) -> Seq<i64>
    decreases cs.len(),
{
    if cs.len() == 0 {
        Seq::empty()
    } else {
        concat_all(cs.drop_last()) + cs.last()
    }
}

pub open spec fn total_len(cs: Seq<Seq<i64>>) -> nat
    decreases cs.len(),
{
    if cs.len() == 0 {
        0
    } else {
        total_len(cs.drop_last()) + cs.last().len()
    }
}

pub open spec fn chunk_views(chunks: Seq<Vec<i64>>) -> Seq<Seq<i64>> {
    chunks.map_values(|c: Vec<i64>| c@)
}

/// The items of a chunked answer, in the order of its chunk list.
pub fn concat_chunks(chunks: &Vec<Vec<i64>>) -> (r: Vec<i64>)
    ensures
        r@ == concat_all(chunk_views(chunks@)),
{
    let mut out: Vec<i64> = Vec::new();
    let mut i: usize = 0;
    while i < chunks.len()
        invariant
            i <= chunks@.len(),
            out@ == concat_all(chunk_views(chunks@).subrange(0, i as int)),
        decreases chunks@.len() - i,
    {
        let ghost before = out@;
        let c = &chunks[i];
        let mut j: usize = 0;
        while j < c.len()
            invariant
                j <= c@.len(),
                out@ == before + c@.subrange(0, j as int),
            decreases c@.len() - j,
        {
            out.push(c[j]);
            assert(c@.subrange(0, j + 1) == c@.subrange(0, j as int).push(c@[j as int]));
            j = j + 1;
        }
        proof {
            let cv = chunk_views(chunks@);
            assert(c@.subrange(0, c@.len() as int) == c@);
            assert(cv.subrange(0, i + 1).drop_last() == cv.subrange(0, i as int));
            assert(cv.subrange(0, i + 1).last() == c@);
        }
        i = i + 1;
    }
    assert(chunk_views(chunks@).subrange(0, chunks@.len() as int) == chunk_views(chunks@));
    out
}

proof fn lemma_concat_len(cs: Seq<Seq<i64>>)
    ensures
        concat_all(cs).len() == total_len(cs),
    decreases cs.len(),
{
    if cs.len() > 0 {
        lemma_concat_len(cs.drop_last());
    }
}

/// Putting chunks together keeps each chunk whole and in place: the result
/// holds exactly as many items as the chunks together, the first chunk
/// first, and after it the concatenation of the others.
pub proof fn chunks_concatenate_in_order(cs: Seq<Seq<i64>>)
    ensures
        concat_all(cs).len() == total_len(cs),
        cs.len() > 0 ==> concat_all(cs) == cs[0] + concat_all(cs.subrange(1, cs.len() as int)),
    decreases cs.len(),
{
    lemma_concat_len(cs);
    if cs.len() > 1 {
        let d = cs.drop_last();
        chunks_concatenate_in_order(d);
        assert(d[0] == cs[0]);
        assert(d.subrange(1, d.len() as int) == cs.subrange(1, cs.len() as int).drop_last());
        assert(cs.subrange(1, cs.len() as int).last() == cs.last());
        assert(concat_all(cs) =~= cs[0] + concat_all(cs.subrange(1, cs.len() as int)));
    } else if cs.len() == 1 {
        assert(cs.drop_last() =~= Seq::<Seq<i64>>::empty());
        assert(cs.subrange(1, 1) =~= Seq::<Seq<i64>>::empty());
        assert(concat_all(cs) =~= cs[0] + concat_all(cs.subrange(1, cs.len() as int)));
    }
}

/// The ids of the search hits, in order; `None` where a hit has no id.
pub fn hit_ids(hits: &Vec<Option<i64>>) -> (r: Option<Vec<i64>>)
    ensures
        r is Some <==> forall|k: int| 0 <= k < hits@.len() ==> (#[trigger] hits@[k]) is Some,
        r matches Some(ids) ==> ids@.len() == hits@.len()
            && forall|k: int| 0 <= k < hits@.len() ==> Some(#[trigger] ids@[k]) == hits@[k],
{
    let mut ids: Vec<i64> = Vec::new();
    let mut i: usize = 0;
    while i < hits.len()
        invariant
            i <= hits@.len(),
            ids@.len() == i,
            forall|k: int| 0 <= k < i ==> Some(#[trigger] ids@[k]) == hits@[k],
        decreases hits@.len() - i,
    {
        match hits[i] {
            Some(id) => ids.push(id),
            None => return None,
        }
        i = i + 1;
    }
    assert forall|k: int| 0 <= k < hits@.len() implies (#[trigger] hits@[k]) is Some by {
        assert(Some(ids@[k]) == hits@[k]);
    }
    Some(ids)
}


/// The `k`-th quarter counted from the first quarter of `first_year`.
pub open spec fn nth_quarter(first_year: i32, k: int) -> (i32, i32) {
    ((first_year + k / 4) as i32, (k % 4 + 1) as i32)
}

proof fn lemma_quarter_index(first_year: i32, y: int, q: int)
    requires
        1 <= q <= 4,
        y >= first_year,
    ensures
        (4 * (y - first_year) + q - 1) / 4 == y - first_year,
        (4 * (y - first_year) + q - 1) % 4 == q - 1,
{
    lemma_fundamental_div_mod_converse(4 * (y - first_year) + q - 1, 4, y - first_year, q - 1);
}

/// Every season quarter from the first quarter of `first_year` through
/// quarter `last_quarter` of `last_year`, in order.
pub fn season_quarters(first_year: i32, last_year: i32, last_quarter: i32) -> (r: Vec<(i32, i32)>)
    requires
        1 <= last_quarter <= 4,
    ensures
        first_year > last_year ==> r@.len() == 0,
        first_year <= last_year ==> r@.len() == 4 * (last_year - first_year) + last_quarter,
        forall|k: int| 0 <= k < r@.len() ==> #[trigger] r@[k] == nth_quarter(first_year, k),
{
    let mut out: Vec<(i32, i32)> = Vec::new();
    let mut year: i64 = first_year as i64;
    while year <= last_year as i64
        invariant
            1 <= last_quarter <= 4,
            first_year <= last_year ==> first_year <= year <= last_year,
            first_year > last_year ==> year == first_year,
            out@.len() == 4 * (year - first_year),
            forall|k: int| 0 <= k < out@.len() ==> #[trigger] out@[k] == nth_quarter(first_year, k),
        decreases last_year as int + 1 - year,
    {
        let last: i32 = if year == last_year as i64 { last_quarter } else { 4 };
        let mut q: i32 = 1;
        while q <= last
            invariant
                first_year <= year <= last_year,
                1 <= last <= 4,
                year == last_year ==> last == last_quarter,
                year < last_year ==> last == 4,
                1 <= q <= last + 1,
                out@.len() == 4 * (year - first_year) + q - 1,
                forall|k: int| 0 <= k < out@.len() ==> #[trigger] out@[k] == nth_quarter(first_year, k),
            decreases last + 1 - q,
        {
            proof {
                lemma_quarter_index(first_year, year as int, q as int);
            }
            out.push((year as i32, q));
            q = q + 1;
        }
        if year == last_year as i64 {
            return out;
        }
        year = year + 1;
    }
    out
}

/// The start of the `k`-th hosted search window from `start`.
pub open spec fn window_start(start: i64, k: int) -> int {
    start + k * HOSTED_WINDOW
}

/// Back-to-back windows of [`HOSTED_WINDOW_DAYS`] days from `start`, as
/// `(begin, end)` in seconds, until they cover the day after `now`.
pub fn hosted_windows(start: i64, now: i64) -> (r: Vec<(i64, i64)>)
    requires
        now <= i64::MAX - SECONDS_PER_DAY - HOSTED_WINDOW,
    ensures
        forall|k: int| 0 <= k < r@.len() ==> #[trigger] r@[k] == (
            window_start(start, k) as i64,
            window_start(start, k + 1) as i64,
        ),
        forall|k: int| 0 <= k < r@.len() ==> #[trigger] window_start(start, k) < now + SECONDS_PER_DAY,
        window_start(start, r@.len() as int) >= now + SECONDS_PER_DAY,
{
    let last: i64 = now + SECONDS_PER_DAY;
    let mut out: Vec<(i64, i64)> = Vec::new();
    let mut current: i64 = start;
    while current < last
        invariant
            last == now + SECONDS_PER_DAY,
            last <= i64::MAX - HOSTED_WINDOW,
            current == window_start(start, out@.len() as int),
            forall|k: int| 0 <= k < out@.len() ==> #[trigger] out@[k] == (
                window_start(start, k) as i64,
                window_start(start, k + 1) as i64,
            ),
            forall|k: int| 0 <= k < out@.len() ==> #[trigger] window_start(start, k) < last,
        decreases last + HOSTED_WINDOW - current,
    {
        let next: i64 = current + HOSTED_WINDOW;
        assert(next > current);
        proof {
            let n = out@.len() as int;
            assert(window_start(start, n + 1) == window_start(start, n) + HOSTED_WINDOW) by (nonlinear_arith);
        }
        out.push((current, next));
        current = next;
    }
    out
}

/// One search of a driver's races: the season quarters of official races
/// and the windows of hosted ones.
pub struct DriverSearch {
    pub seasons: Vec<(i32, i32)>,
    pub hosted: Vec<(i64, i64)>,
}

/// Days back that a partial search of hosted races covers.
pub const PARTIAL_DAYS: i64 = 10;

/// `r` searches the given quarters, and hosted windows from `start` until
/// they cover the day after `now`.
pub open spec fn searches(r: DriverSearch, seasons: Seq<(i32, i32)>, start: i64, now: i64) -> bool {
    &&& r.seasons@ == seasons
    &&& forall|k: int| 0 <= k < r.hosted@.len() ==> #[trigger] r.hosted@[k] == (
        window_start(start, k) as i64,
        window_start(start, k + 1) as i64,
    )
    &&& forall|k: int| 0 <= k < r.hosted@.len() ==> #[trigger] window_start(start, k) < now + SECONDS_PER_DAY
    &&& window_start(start, r.hosted@.len() as int) >= now + SECONDS_PER_DAY
}

/// The searches for a driver who joined in `join_year`, at `joined_at`:
/// every quarter from that year on and hosted races from that day on; or,
/// when `partial`, the current quarter and the last [`PARTIAL_DAYS`] days.
pub fn driver_search(join_year: i32, joined_at: i64, now: i64, partial: bool) -> (r: DriverSearch)
    requires
        now <= i64::MAX - SECONDS_PER_DAY - HOSTED_WINDOW,
        now >= i64::MIN + PARTIAL_DAYS * SECONDS_PER_DAY,
    ensures
        partial ==> searches(r, seq![(CURRENT_YEAR, CURRENT_QUARTER)], (now - PARTIAL_DAYS * SECONDS_PER_DAY) as i64, now),
        !partial ==> searches(r, season_quarters_spec(join_year, CURRENT_YEAR, CURRENT_QUARTER), joined_at, now),
{
    if partial {
        let mut seasons: Vec<(i32, i32)> = Vec::new();
        seasons.push((CURRENT_YEAR, CURRENT_QUARTER));
        assert(seasons@ =~= seq![(CURRENT_YEAR, CURRENT_QUARTER)]);
        let hosted = hosted_windows(now - PARTIAL_DAYS * SECONDS_PER_DAY, now);
        DriverSearch { seasons, hosted }
    } else {
        let seasons = season_quarters(join_year, CURRENT_YEAR, CURRENT_QUARTER);
        assert(seasons@ =~= season_quarters_spec(join_year, CURRENT_YEAR, CURRENT_QUARTER));
        let hosted = hosted_windows(joined_at, now);
        DriverSearch { seasons, hosted }
    }
}

/// The full search for a driver from the `member_since` date upstream gives;
/// `None` where that is not a date.
pub fn driver_search_since(member_since: &str, now: i64) -> (r: Option<DriverSearch>)
    requires
        now <= i64::MAX - SECONDS_PER_DAY - HOSTED_WINDOW,
        now >= i64::MIN + PARTIAL_DAYS * SECONDS_PER_DAY,
    ensures
        r is Some <==> join_date_of(member_since@) is Some,
        r matches Some(s) ==> searches(
            s,
            season_quarters_spec(join_date_of(member_since@).unwrap().0, CURRENT_YEAR, CURRENT_QUARTER),
            join_date_of(member_since@).unwrap().1,
            now,
        ),
{
    match join_date(member_since) {
        Some((year, at)) => Some(driver_search(year, at, now, false)),
        None => None,
    }
}

/// The quarters [`season_quarters`] gives.
pub open spec fn season_quarters_spec(first_year: i32, last_year: i32, last_quarter: i32) -> Seq<(i32, i32)> {
    let n = if first_year > last_year { 0 } else { 4 * (last_year - first_year) + last_quarter };
    Seq::new(n as nat, |k: int| nth_quarter(first_year, k))
}

proof fn lemma_push_contains(s: Seq<i64>, v: i64)
    ensures
        forall|x: i64| #[trigger] s.push(v).contains(x) <==> s.contains(x) || x == v,
{
    assert forall|x: i64| #[trigger] s.push(v).contains(x) <==> s.contains(x) || x == v by {
        let t = s.push(v);
        if t.contains(x) && x != v {
            let k = choose|k: int| 0 <= k < t.len() && #[trigger] t[k] == x;
            assert(s[k] == x);
        }
        if s.contains(x) {
            let k = choose|k: int| 0 <= k < s.len() && #[trigger] s[k] == x;
            assert(t[k] == x);
        }
        if x == v {
            assert(t[s.len() as int] == v);
        }
    }
}

/// The identifiers of `ids`, each once.
pub fn unique_ids(ids: &Vec<i64>) -> (r: Vec<i64>)
    ensures
        r@.no_duplicates(),
        forall|x: i64| r@.contains(x) <==> ids@.contains(x),
{
    let mut out: Vec<i64> = Vec::new();
    let mut i: usize = 0;
    while i < ids.len()
        invariant
            i <= ids@.len(),
            out@.no_duplicates(),
            forall|x: i64| out@.contains(x) <==> ids@.subrange(0, i as int).contains(x),
        decreases ids@.len() - i,
    {
        let id = ids[i];
        let ghost before = out@;
        let ghost pre = ids@.subrange(0, i as int);
        proof {
            assert(ids@.subrange(0, i + 1) == pre.push(id));
            lemma_push_contains(pre, id);
            lemma_push_contains(before, id);
        }
        let mut seen = false;
        let mut j: usize = 0;
        while j < out.len()
            invariant
                j <= out@.len(),
                seen <==> exists|k: int| 0 <= k < j && #[trigger] out@[k] == id,
            decreases out@.len() - j,
        {
            if out[j] == id {
                seen = true;
            }
            j = j + 1;
        }
        if !seen {
            out.push(id);
            proof {
                assert(out@ == before.push(id));
                assert forall|a: int, b: int| 0 <= a < b < out@.len() implies out@[a] != out@[b] by {
                    if b == out@.len() - 1 {
                        assert(out@[a] == before[a]);
                    } else {
                        assert(out@[a] == before[a] && out@[b] == before[b]);
                    }
                }
            }
        } else {
            proof {
                assert(before.contains(id));
            }
        }
        i = i + 1;
    }
    assert(ids@.subrange(0, ids@.len() as int) == ids@);
    out
}

/// `ids` without those in `present`, in order.
pub open spec fn without(ids: Seq<i64>, present: Seq<i64>) -> Seq<i64>
    decreases ids.len(),
{
    if ids.len() == 0 {
        Seq::empty()
    } else if present.contains(ids.last()) {
        without(ids.drop_last(), present)
    } else {
        without(ids.drop_last(), present).push(ids.last())
    }
}

/// The cached identifiers that the store does not hold yet, in order: the
/// ones an incremental ingest adds, so that none is ingested twice.
pub fn not_yet_ingested(cached: &Vec<i64>, in_store: &Vec<i64>) -> (r: Vec<i64>)
    ensures
        r@ == without(cached@, in_store@),
{
    let mut out: Vec<i64> = Vec::new();
    let mut i: usize = 0;
    while i < cached.len()
        invariant
            i <= cached@.len(),
            out@ == without(cached@.subrange(0, i as int), in_store@),
        decreases cached@.len() - i,
    {
        let id = cached[i];
        proof {
            assert(cached@.subrange(0, i + 1).drop_last() == cached@.subrange(0, i as int));
            assert(cached@.subrange(0, i + 1).last() == id);
        }
        let mut found = false;
        let mut j: usize = 0;
        while j < in_store.len()
            invariant
                j <= in_store@.len(),
                found <==> exists|k: int| 0 <= k < j && in_store@[k] == id,
            decreases in_store@.len() - j,
        {
            if in_store[j] == id {
                found = true;
            }
            j = j + 1;
        }
        if !found {
            out.push(id);
        }
        i = i + 1;
    }
    assert(cached@.subrange(0, cached@.len() as int) == cached@);
    out
}

/// No identifier that an incremental ingest adds is held by the store
/// already.
pub proof fn ingest_skips_stored(cached: Seq<i64>, in_store: Seq<i64>)
    ensures
        forall|x: i64| without(cached, in_store).contains(x) ==> cached.contains(x) && !in_store.contains(x),
    decreases cached.len(),
{
    if cached.len() > 0 {
        let d = cached.drop_last();
        ingest_skips_stored(d, in_store);
        let wd = without(d, in_store);
        let w = without(cached, in_store);
        lemma_push_contains(d, cached.last());
        assert(d.push(cached.last()) == cached);
        if !in_store.contains(cached.last()) {
            lemma_push_contains(wd, cached.last());
            assert(w == wd.push(cached.last()));
        }
    }
}

} // verus!
