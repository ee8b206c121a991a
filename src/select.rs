use vstd::prelude::*;
use crate::quotes::{
    flat_months, flat_years, flatten, months_labelled, quotes_labelled, MonthsView, Quote, QuoteCollection,
    QuoteView, YearsView,
};

verus! {

/// Relies on rand's `thread_rng` and `Rng::gen_range`: an index below `n`,
/// drawn uniformly. `gen_range` panics on an empty range, hence `n > 0`.
#[verifier::external_body]
fn random_index(n: usize) -> (r: usize)
    requires
        n > 0,
    ensures
        r < n,
{
    rand::Rng::gen_range(&mut rand::thread_rng(), 0..n)
}

/// The quote at a position of the flattened collection, year after year and
/// month after month; nothing past the last quote.
pub fn select_at(c: &QuoteCollection, index: usize) -> (r: Option<&Quote>)
    ensures
        match r {
            Some(q) => index < flat_years(c@).len() && q@ == flat_years(c@)[index as int],
            None => index >= flat_years(c@).len(),
        },
{
    let flat = flatten(&c.years);
    assert(flat@.map_values(|q: &Quote| q@).len() == flat@.len());
    if index < flat.len() {
        Some(flat[index])
    } else {
        None
    }
}

/// A quote drawn uniformly over every quote of the collection, so that each
/// has the same chance whatever its year or month; nothing when it is empty.
pub fn select_random(c: &QuoteCollection) -> (r: Option<&Quote>)
    requires
        c.wf(),
    ensures
        r is None <==> flat_years(c@).len() == 0,
        match r {
            Some(q) => exists|i: int| 0 <= i < flat_years(c@).len() && q@ == flat_years(c@)[i],
            None => true,
        },
{
    if c.size == 0 {
        return None;
    }
    let index = random_index(c.size);
    select_at(c, index)
}

/// Whether an invocation asks for a random quote: it does when it carries no
/// query or an empty one. A non-empty query asks for a search, which is not
/// offered, and is answered with nothing.
pub fn wants_random_quote(query: &Option<String>) -> (r: bool)
    ensures
        r == match query {
            Some(q) => q@.len() == 0,
            None => true,
        },
{
    match query {
        Some(q) => q.as_str().unicode_len() == 0,
        None => true,
    }
}

/// The quote that answers an invocation: one drawn at random when it asks
/// for one, nothing otherwise or when the collection is empty.
pub fn quote_for_command<'a>(c: &'a QuoteCollection, query: &Option<String>) -> (r: Option<&'a Quote>)
    requires
        c.wf(),
    ensures
        r is Some <==> (match query {
            Some(q) => q@.len() == 0,
            None => true,
        }) && flat_years(c@).len() > 0,
        match r {
            Some(q) => exists|i: int, j: int, k: int| #![trigger held_at(c@, i, j, k, q@)]
                held_at(c@, i, j, k, q@) && c@[i].0 == q@.0 && c@[i].1[j].0 == q@.1,
            None => true,
        },
{
    if wants_random_quote(query) {
        let r = select_random(c);
        proof {
            if r is Some {
                let p = choose|i: int| 0 <= i < flat_years(c@).len() && r->Some_0@ == flat_years(c@)[i];
                drawn_quote_is_under_its_labels(*c, p);
            }
        }
        r
    } else {
        None
    }
}

proof fn lemma_month_quote_is_flat(ms: MonthsView, j: int, k: int)
    requires
        0 <= j < ms.len(),
        0 <= k < ms[j].1.len(),
    ensures
        exists|p: int| 0 <= p < flat_months(ms).len() && flat_months(ms)[p] == ms[j].1[k],
    decreases ms.len(),
{
    let prev = ms.drop_last();
    if j == ms.len() - 1 {
        let p = flat_months(prev).len() + k;
        assert(flat_months(ms)[p] == ms[j].1[k]);
    } else {
        lemma_month_quote_is_flat(prev, j, k);
        let p = choose|p: int| 0 <= p < flat_months(prev).len() && flat_months(prev)[p] == prev[j].1[k];
        assert(flat_months(ms)[p] == ms[j].1[k]);
    }
}

proof fn lemma_year_quote_is_flat(ys: YearsView, i: int, j: int, k: int)
    requires
        0 <= i < ys.len(),
        0 <= j < ys[i].1.len(),
        0 <= k < ys[i].1[j].1.len(),
    ensures
        exists|p: int| 0 <= p < flat_years(ys).len() && flat_years(ys)[p] == ys[i].1[j].1[k],
    decreases ys.len(),
{
    let prev = ys.drop_last();
    if i == ys.len() - 1 {
        lemma_month_quote_is_flat(ys[i].1, j, k);
        let q = choose|q: int| 0 <= q < flat_months(ys[i].1).len() && flat_months(ys[i].1)[q] == ys[i].1[j].1[k];
        let p = flat_years(prev).len() + q;
        assert(flat_years(ys)[p] == ys[i].1[j].1[k]);
    } else {
        lemma_year_quote_is_flat(prev, i, j, k);
        let p = choose|p: int| 0 <= p < flat_years(prev).len() && flat_years(prev)[p] == prev[i].1[j].1[k];
        assert(flat_years(ys)[p] == ys[i].1[j].1[k]);
    }
}

/// Every quote of every month of every year has its own position in the
/// population that a draw ranges over, and that population counts each quote
/// once: its length is the collection's count. A draw of one index, uniform
/// below that count, thus weighs no year or month above its quotes.
pub proof fn every_quote_can_be_drawn(c: QuoteCollection, i: int, j: int, k: int)
    requires
        c.wf(),
        0 <= i < c@.len(),
        0 <= j < c@[i].1.len(),
        0 <= k < c@[i].1[j].1.len(),
    ensures
        flat_years(c@).len() == c.size,
        exists|p: int| 0 <= p < c.size && flat_years(c@)[p] == c@[i].1[j].1[k],
{
    lemma_year_quote_is_flat(c@, i, j, k);
}

/// The quote at `(i, j, k)`: year `i`, its month `j`, that month's quote `k`.
pub open spec fn held_at(ys: YearsView, i: int, j: int, k: int, q: QuoteView) -> bool {
    &&& 0 <= i < ys.len()
    &&& 0 <= j < ys[i].1.len()
    &&& 0 <= k < ys[i].1[j].1.len()
    &&& ys[i].1[j].1[k] == q
}

proof fn lemma_flat_month_located(ms: MonthsView, p: int)
    requires
        0 <= p < flat_months(ms).len(),
    ensures
        exists|j: int, k: int| 0 <= j < ms.len() && 0 <= k < ms[j].1.len() && ms[j].1[k] == flat_months(ms)[p],
    decreases ms.len(),
{
    let prev = ms.drop_last();
    if p < flat_months(prev).len() {
        lemma_flat_month_located(prev, p);
        let (j, k) = choose|j: int, k: int| 0 <= j < prev.len() && 0 <= k < prev[j].1.len() && prev[j].1[k] == flat_months(prev)[p];
        assert(ms[j] == prev[j]);
    } else {
        let j = ms.len() - 1;
        let k = p - flat_months(prev).len();
        assert(ms[j].1[k] == flat_months(ms)[p]);
    }
}

proof fn lemma_flat_year_located(ys: YearsView, p: int)
    requires
        0 <= p < flat_years(ys).len(),
    ensures
        exists|i: int, j: int, k: int| held_at(ys, i, j, k, flat_years(ys)[p]),
    decreases ys.len(),
{
    let prev = ys.drop_last();
    if p < flat_years(prev).len() {
        lemma_flat_year_located(prev, p);
        let (i, j, k) = choose|i: int, j: int, k: int| held_at(prev, i, j, k, flat_years(prev)[p]);
        assert(ys[i] == prev[i]);
        assert(held_at(ys, i, j, k, flat_years(ys)[p]));
    } else {
        let i = ys.len() - 1;
        let q = p - flat_years(prev).len();
        lemma_flat_month_located(ys[i].1, q);
        let (j, k) = choose|j: int, k: int| 0 <= j < ys[i].1.len() && 0 <= k < ys[i].1[j].1.len() && ys[i].1[j].1[k] == flat_months(ys[i].1)[q];
        assert(held_at(ys, i, j, k, flat_years(ys)[p]));
    }
}

/// Every quote that a draw can give is held in the collection under its own
/// year and month.
pub proof fn drawn_quote_is_under_its_labels(c: QuoteCollection, p: int)
    requires
        c.wf(),
        0 <= p < flat_years(c@).len(),
    ensures
        exists|i: int, j: int, k: int| #![trigger held_at(c@, i, j, k, flat_years(c@)[p])]
            held_at(c@, i, j, k, flat_years(c@)[p]) && c@[i].0 == flat_years(c@)[p].0
                && c@[i].1[j].0 == flat_years(c@)[p].1,
{
    lemma_flat_year_located(c@, p);
    let (i, j, k) = choose|i: int, j: int, k: int| held_at(c@, i, j, k, flat_years(c@)[p]);
    assert(months_labelled(c@[i].0, c@[i].1));
    assert(quotes_labelled(c@[i].0, c@[i].1[j].0, c@[i].1[j].1));
}

} // verus!
