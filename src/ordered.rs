use vstd::prelude::*;
use crate::quotes::{QuoteMonth, QuoteYear};
use ordermap::OrderMap;

verus! {

#[verifier::external_type_specification]
#[verifier::external_body]
#[verifier::reject_recursive_types(K)]
#[verifier::reject_recursive_types(V)]
#[verifier::reject_recursive_types(S)]
pub struct ExOrderMap<K, V, S>(OrderMap<K, V, S>);

/// The keys of a sequence of entries.
pub open spec fn keys_of<V>(s: Seq<(Seq<char>, V)>) -> Seq<Seq<char>> {
    s.map_values(|e: (Seq<char>, V)| e.0)
}

/// Inserting into an insertion-ordered map: a key already present keeps its
/// place and takes the new value; a new key goes last.
pub open spec fn insert_entry<V>(s: Seq<(Seq<char>, V)>, k: Seq<char>, v: V) -> Seq<(Seq<char>, V)> {
    if keys_of(s).contains(k) {
        s.update(keys_of(s).index_of(k), (k, v))
    } else {
        s.push((k, v))
    }
}

/// The entries of a map of months, in the map's order.
pub uninterp spec fn month_entries(m: OrderMap<String, QuoteMonth>) -> Seq<(Seq<char>, QuoteMonth)>;

/// The entries of a map of years, in the map's order.
pub uninterp spec fn year_entries(m: OrderMap<String, QuoteYear>) -> Seq<(Seq<char>, QuoteYear)>;

/// Relies on `OrderMap::new`: the new map holds no entry.
#[verifier::external_body]
pub(crate) fn new_months() -> (r: OrderMap<String, QuoteMonth>)
    ensures
        month_entries(r) == Seq::<(Seq<char>, QuoteMonth)>::empty(),
{
    OrderMap::new()
}

/// Relies on `OrderMap::insert`: an equal key keeps its place and takes the
/// new value, a new key is appended.
#[verifier::external_body]
pub(crate) fn insert_month(m: &mut OrderMap<String, QuoteMonth>, k: String, v: QuoteMonth)
    ensures
        month_entries(*final(m)) == insert_entry(month_entries(*old(m)), k@, v),
{
    m.insert(k, v);
}

/// Relies on `OrderMap::len`: the number of entries.
#[verifier::external_body]
pub(crate) fn months_len(m: &OrderMap<String, QuoteMonth>) -> (r: usize)
    ensures
        r == month_entries(*m).len(),
{
    m.len()
}

/// Relies on `OrderMap::get_index`: the entry at a position in the map's order.
#[verifier::external_body]
pub(crate) fn month_at(m: &OrderMap<String, QuoteMonth>, i: usize) -> (r: Option<(&String, &QuoteMonth)>)
    ensures
        match r {
            Some(e) => i < month_entries(*m).len() && e.0@ == month_entries(*m)[i as int].0
                && *e.1 == month_entries(*m)[i as int].1,
            None => i >= month_entries(*m).len(),
        },
{
    m.get_index(i)
}

/// Relies on `OrderMap::new`: the new map holds no entry.
#[verifier::external_body]
pub(crate) fn new_years() -> (r: OrderMap<String, QuoteYear>)
    ensures
        year_entries(r) == Seq::<(Seq<char>, QuoteYear)>::empty(),
{
    OrderMap::new()
}

/// Relies on `OrderMap::insert`: an equal key keeps its place and takes the
/// new value, a new key is appended.
#[verifier::external_body]
pub(crate) fn insert_year(m: &mut OrderMap<String, QuoteYear>, k: String, v: QuoteYear)
    ensures
        year_entries(*final(m)) == insert_entry(year_entries(*old(m)), k@, v),
{
    m.insert(k, v);
}

/// Relies on `OrderMap::len`: the number of entries.
#[verifier::external_body]
pub(crate) fn years_len(m: &OrderMap<String, QuoteYear>) -> (r: usize)
    ensures
        r == year_entries(*m).len(),
{
    m.len()
}

/// Relies on `OrderMap::get_index`: the entry at a position in the map's order.
#[verifier::external_body]
pub(crate) fn year_at(m: &OrderMap<String, QuoteYear>, i: usize) -> (r: Option<(&String, &QuoteYear)>)
    ensures
        match r {
            Some(e) => i < year_entries(*m).len() && e.0@ == year_entries(*m)[i as int].0
                && *e.1 == year_entries(*m)[i as int].1,
            None => i >= year_entries(*m).len(),
        },
{
    m.get_index(i)
}

} // verus!
