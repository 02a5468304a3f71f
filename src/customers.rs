//! Lists of drivers and of ids as the query parameters of the statistics
//! API give them: items separated by `;`.
use vstd::prelude::*;
use vstd::string::*;
use crate::decimal::{decimal_value, parse_i64};

verus! {

/// A driver, by customer id and display name; -1 and "" stand for the part
/// that is not known.
pub struct CustomerName {
    pub cust_id: i64,
    pub name: String,
}

/// The pieces of `s` between occurrences of `sep`, as `str::split` gives
/// them: one more piece than separators, empty pieces included.
pub open spec fn split_on(s: Seq<char>, sep: char) -> Seq<Seq<char>>
    decreases s.len(),
{
    if s.len() == 0 {
        seq![Seq::empty()]
    } else {
        let p = split_on(s.drop_last(), sep);
        if s.last() == sep {
            p.push(Seq::empty())
        } else {
            p.update(p.len() - 1, p.last().push(s.last()))
        }
    }
}

proof fn lemma_split_nonempty(s: Seq<char>, sep: char)
    ensures
        split_on(s, sep).len() >= 1,
    decreases s.len(),
{
    if s.len() > 0 {
        lemma_split_nonempty(s.drop_last(), sep);
    }
}

pub open spec fn piece_views(v: Seq<&str>) -> Seq<Seq<char>> {
    v.map_values(|p: &str| p@)
}

/// The pieces of `s` between occurrences of `sep`.
pub fn split_pieces<'a>(s: &'a str, sep: char) -> (r: Vec<&'a str>)
    ensures
        piece_views(r@) == split_on(s@, sep),
{
    let n = s.unicode_len();
    let mut pieces: Vec<&'a str> = Vec::new();
    let mut start: usize = 0;
    let mut i: usize = 0;
    assert(s@.subrange(0, 0) =~= Seq::<char>::empty());
    assert(piece_views(pieces@).push(s@.subrange(0, 0)) =~= split_on(s@.subrange(0, 0), sep));
    while i < n
        invariant
            n == s@.len(),
            start <= i <= n,
            split_on(s@.subrange(0, i as int), sep) == piece_views(pieces@).push(s@.subrange(start as int, i as int)),
        decreases n - i,
    {
        let c = s.get_char(i);
        let ghost before = piece_views(pieces@);
        proof {
            assert(s@.subrange(0, i + 1).drop_last() == s@.subrange(0, i as int));
            assert(s@.subrange(0, i + 1).last() == c);
            lemma_split_nonempty(s@.subrange(0, i as int), sep);
        }
        if c == sep {
            let ghost old_start = start;
            pieces.push(s.substring_char(start, i));
            start = i + 1;
            proof {
                assert(piece_views(pieces@) =~= before.push(s@.subrange(old_start as int, i as int)));
                assert(s@.subrange(start as int, i + 1) =~= Seq::<char>::empty());
            }
        } else {
            proof {
                assert(s@.subrange(start as int, i + 1) =~= s@.subrange(start as int, i as int).push(c));
            }
        }
        i = i + 1;
    }
    pieces.push(s.substring_char(start, n));
    assert(s@.subrange(0, n as int) == s@);
    assert(piece_views(pieces@) =~= split_on(s@, sep));
    pieces
}


/// The numbers among the pieces, in order; pieces that are no number are
/// left out.
pub open spec fn parsed_ids(pieces: Seq<Seq<char>>) -> Seq<i64>
    decreases pieces.len(),
{
    if pieces.len() == 0 {
        Seq::empty()
    } else {
        let p = parsed_ids(pieces.drop_last());
        match decimal_value(pieces.last()) {
            Some(v) => p.push(v),
            None => p,
        }
    }
}

/// The ids of a `;`-separated list; items that are no number are skipped.
pub fn semi_colon_string_to_i64s(ids: &String) -> (r: Vec<i64>)
    ensures
        r@ == parsed_ids(split_on(ids@, ';')),
{
    let pieces = split_pieces(ids.as_str(), ';');
    let ghost pv = piece_views(pieces@);
    let mut out: Vec<i64> = Vec::new();
    let mut i: usize = 0;
    while i < pieces.len()
        invariant
            pv == piece_views(pieces@),
            i <= pieces@.len(),
            out@ == parsed_ids(pv.subrange(0, i as int)),
        decreases pieces@.len() - i,
    {
        proof {
            assert(pv.subrange(0, i + 1).drop_last() == pv.subrange(0, i as int));
            assert(pv.subrange(0, i + 1).last() == pieces@[i as int]@);
        }
        match parse_i64(pieces[i]) {
            Some(v) => out.push(v),
            None => {},
        }
        i = i + 1;
    }
    assert(pv.subrange(0, pv.len() as int) == pv);
    out
}

/// One item of a driver list: `$` and a customer id, or a display name.
/// `None` where the id is no number.
pub open spec fn customer_of(piece: Seq<char>) -> Option<(i64, Seq<char>)> {
    if piece[0] == '$' {
        match decimal_value(piece.subrange(1, piece.len() as int)) {
            Some(id) => Some((id, Seq::empty())),
            None => None,
        }
    } else {
        Some((-1i64, piece))
    }
}

/// The drivers of a list, empty items skipped; `None` where an id is no
/// number.
pub open spec fn customers_of(pieces: Seq<Seq<char>>) -> Option<Seq<(i64, Seq<char>)>>
    decreases pieces.len(),
{
    if pieces.len() == 0 {
        Some(Seq::empty())
    } else {
        match customers_of(pieces.drop_last()) {
            None => None,
            Some(cs) => if pieces.last().len() == 0 {
                Some(cs)
            } else {
                match customer_of(pieces.last()) {
                    Some(c) => Some(cs.push(c)),
                    None => None,
                }
            },
        }
    }
}

proof fn lemma_customers_fail(pieces: Seq<Seq<char>>, i: int)
    requires
        0 <= i <= pieces.len(),
        customers_of(pieces.subrange(0, i)) is None,
    ensures
        customers_of(pieces) is None,
    decreases pieces.len() - i,
{
    if i < pieces.len() {
        assert(pieces.subrange(0, i + 1).drop_last() == pieces.subrange(0, i));
        lemma_customers_fail(pieces, i + 1);
    } else {
        assert(pieces.subrange(0, i) == pieces);
    }
}

pub open spec fn customer_views(v: Seq<CustomerName>) -> Seq<(i64, Seq<char>)> {
    v.map_values(|c: CustomerName| (c.cust_id, c.name@))
}

/// The drivers of a `;`-separated list; `None` where an id is no number.
pub fn parse_drivers_customer_infos(drivers: &String) -> (r: Option<Vec<CustomerName>>)
    ensures
        match customers_of(split_on(drivers@, ';')) {
            None => r is None,
            Some(cs) => r matches Some(v) && customer_views(v@) == cs,
        },
{
    let pieces = split_pieces(drivers.as_str(), ';');
    let ghost pv = piece_views(pieces@);
    let mut out: Vec<CustomerName> = Vec::new();
    let mut i: usize = 0;
    assert(pv.subrange(0, 0) =~= Seq::<Seq<char>>::empty());
    assert(customer_views(out@) =~= Seq::<(i64, Seq<char>)>::empty());
    while i < pieces.len()
        invariant
            pv == piece_views(pieces@),
            pv == split_on(drivers@, ';'),
            i <= pieces@.len(),
            customers_of(pv.subrange(0, i as int)) == Some(customer_views(out@)),
        decreases pieces@.len() - i,
    {
        let piece = pieces[i];
        proof {
            assert(pv.subrange(0, i + 1).drop_last() == pv.subrange(0, i as int));
            assert(pv.subrange(0, i + 1).last() == piece@);
        }
        let n = piece.unicode_len();
        if n > 0 {
            if piece.get_char(0) == '$' {
                match parse_i64(piece.substring_char(1, n)) {
                    Some(cust_id) => {
                        out.push(CustomerName { cust_id, name: String::new() });
                        assert(customer_views(out@) =~= customers_of(pv.subrange(0, i + 1)).unwrap());
                    },
                    None => {
                        proof {
                            lemma_customers_fail(pv, i + 1);
                        }
                        return None;
                    },
                }
            } else {
                out.push(CustomerName { cust_id: -1, name: String::from_str(piece) });
                assert(customer_views(out@) =~= customers_of(pv.subrange(0, i + 1)).unwrap());
            }
        }
        i = i + 1;
    }
    assert(pv.subrange(0, pv.len() as int) == pv);
    Some(out)
}

} // verus!
