//! Where the result cache keeps a race's document: one archive per race
//! identifier, named after it, so that membership needs no network.
use vstd::prelude::*;
use vstd::string::*;
use crate::decimal::{decimal_text_is_injective, format_i64, int_text};

verus! {

pub open spec fn cache_file_name(subsession_id: i64) -> Seq<char> {
    int_text(subsession_id as int) + ".session.zip"@
}

/// The name of the archive that holds the document of `subsession_id`.
pub fn session_cache_file_name(subsession_id: i64) -> (r: String)
    ensures
        r@ == cache_file_name(subsession_id),
{
    format_i64(subsession_id).concat(".session.zip")
}

/// The path of the archive that holds the document of `subsession_id`,
/// under the cache directory `sessions_dir`.
pub fn get_session_cache_path(sessions_dir: &str, subsession_id: i64) -> (r: String)
    ensures
        r@ == sessions_dir@ + "/"@ + cache_file_name(subsession_id),
{
    let name = session_cache_file_name(subsession_id);
    let r = String::from_str(sessions_dir).concat("/").concat(name.as_str());
    assert(r@ =~= sessions_dir@ + "/"@ + cache_file_name(subsession_id));
    r
}


/// The cache key is a function of the identifier alone, and distinct
/// identifiers have distinct archives: one race's document never stands
/// for another's.
pub proof fn cache_names_are_distinct(a: i64, b: i64)
    requires
        a != b,
    ensures
        cache_file_name(a) != cache_file_name(b),
{
    decimal_text_is_injective(a, b);
    let x = int_text(a as int);
    let y = int_text(b as int);
    let s = ".session.zip"@;
    if x + s == y + s {
        assert((x + s).len() == x.len() + s.len());
        assert((y + s).len() == y.len() + s.len());
        assert(x.len() == y.len());
        assert((x + s).subrange(0, x.len() as int) =~= x);
        assert((y + s).subrange(0, y.len() as int) =~= y);
    }
}

} // verus!
