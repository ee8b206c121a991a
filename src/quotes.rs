use vstd::prelude::*;
use crate::json::Json;
use crate::ordered::{
    insert_entry, insert_month, insert_year, keys_of, month_at, month_entries, months_len,
    new_months, new_years, year_at, year_entries, years_len,
};
use ordermap::OrderMap;

verus! {

/// A quote as the contracts see it: its year, its month and its text.
pub type QuoteView = (Seq<char>, Seq<char>, Seq<char>);

/// The months of a year, each with its quotes, in the year's order.
pub type MonthsView = Seq<(Seq<char>, Seq<QuoteView>)>;

/// The years of a collection, each with its months, in the collection's order.
pub type YearsView = Seq<(Seq<char>, MonthsView)>;

#[derive(Debug)]
pub struct Quote {
    pub year: String,
    pub month: String,
    pub text: String,
}

impl View for Quote {
    type V = QuoteView;

    open spec fn view(&self) -> QuoteView {
        (self.year@, self.month@, self.text@)
    }
}

pub struct QuoteMonth {
    pub quotes: Vec<Quote>,
}

impl View for QuoteMonth {
    type V = Seq<QuoteView>;

    open spec fn view(&self) -> Seq<QuoteView> {
        self.quotes@.map_values(|q: Quote| q@)
    }
}

pub struct QuoteYear {
    pub months: OrderMap<String, QuoteMonth>,
}

pub open spec fn months_view(m: OrderMap<String, QuoteMonth>) -> MonthsView {
    month_entries(m).map_values(|e: (Seq<char>, QuoteMonth)| (e.0, e.1@))
}

impl View for QuoteYear {
    type V = MonthsView;

    open spec fn view(&self) -> MonthsView {
        months_view(self.months)
    }
}

pub open spec fn years_view(m: OrderMap<String, QuoteYear>) -> YearsView {
    year_entries(m).map_values(|e: (Seq<char>, QuoteYear)| (e.0, e.1@))
}

/// A parsed collection: its years and the number of quotes it holds.
pub struct QuoteCollection {
    pub years: OrderMap<String, QuoteYear>,
    pub size: usize,
}

impl View for QuoteCollection {
    type V = YearsView;

    open spec fn view(&self) -> YearsView {
        years_view(self.years)
    }
}

/// Every quote of a sequence of months, month after month.
pub open spec fn flat_months(ms: MonthsView) -> Seq<QuoteView>
    decreases ms.len(),
{
    if ms.len() == 0 {
        Seq::empty()
    } else {
        flat_months(ms.drop_last()) + ms.last().1
    }
}

/// Every quote of a sequence of years, year after year.
pub open spec fn flat_years(ys: YearsView) -> Seq<QuoteView>
    decreases ys.len(),
{
    if ys.len() == 0 {
        Seq::empty()
    } else {
        flat_years(ys.drop_last()) + flat_months(ys.last().1)
    }
}

/// Every quote carries the given year and month.
pub open spec fn quotes_labelled(year: Seq<char>, month: Seq<char>, qs: Seq<QuoteView>) -> bool {
    forall|k: int| 0 <= k < qs.len() ==> (#[trigger] qs[k]).0 == year && qs[k].1 == month
}

/// Every quote of every month carries the given year and its month's key.
pub open spec fn months_labelled(year: Seq<char>, ms: MonthsView) -> bool {
    forall|j: int| 0 <= j < ms.len() ==> quotes_labelled(year, (#[trigger] ms[j]).0, ms[j].1)
}

/// Every quote is found under its own year and month.
pub open spec fn years_labelled(ys: YearsView) -> bool {
    forall|i: int| 0 <= i < ys.len() ==> months_labelled((#[trigger] ys[i]).0, ys[i].1)
}

impl QuoteCollection {
    /// The count is the number of quotes held, over every month of every
    /// year, and every quote is held under its own year and month.
    pub open spec fn wf(&self) -> bool {
        &&& self.size == flat_years(self@).len()
        &&& years_labelled(self@)
    }
}

/// The quotes of one month: the strings among its items, in order.
pub open spec fn quotes_of(year: Seq<char>, month: Seq<char>, items: Seq<Json>) -> Seq<QuoteView>
    decreases items.len(),
{
    if items.len() == 0 {
        Seq::empty()
    } else {
        let prev = quotes_of(year, month, items.drop_last());
        match items.last() {
            Json::Str(s) => prev.push((year, month, s@)),
            _ => prev,
        }
    }
}

/// The months of one year: each entry whose value is an array.
pub open spec fn months_of(year: Seq<char>, entries: Seq<(String, Json)>) -> MonthsView
    decreases entries.len(),
{
    if entries.len() == 0 {
        Seq::empty()
    } else {
        let prev = months_of(year, entries.drop_last());
        let e = entries.last();
        match e.1 {
            Json::Array(items) => insert_entry(prev, e.0@, quotes_of(year, e.0@, items@)),
            _ => prev,
        }
    }
}

/// The years of a document: each entry whose value is an object.
pub open spec fn years_of(entries: Seq<(String, Json)>) -> YearsView
    decreases entries.len(),
{
    if entries.len() == 0 {
        Seq::empty()
    } else {
        let prev = years_of(entries.drop_last());
        let e = entries.last();
        match e.1 {
            Json::Object(months) => insert_entry(prev, e.0@, months_of(e.0@, months@)),
            _ => prev,
        }
    }
}

/// What a document parses to: its years where it is an object, else nothing.
pub open spec fn parsed(doc: Json) -> Option<YearsView> {
    match doc {
        Json::Object(entries) => Some(years_of(entries@)),
        _ => None,
    }
}

/// Why a document could not be parsed.
#[derive(Debug, PartialEq, Eq)]
pub enum ParseError {
    /// The document is not an object at its top level.
    MalformedDocument,
}

proof fn lemma_quotes_labelled(year: Seq<char>, month: Seq<char>, items: Seq<Json>)
    ensures
        quotes_labelled(year, month, quotes_of(year, month, items)),
    decreases items.len(),
{
    if items.len() > 0 {
        lemma_quotes_labelled(year, month, items.drop_last());
    }
}

proof fn lemma_months_labelled(year: Seq<char>, entries: Seq<(String, Json)>)
    ensures
        months_labelled(year, months_of(year, entries)),
    decreases entries.len(),
{
    if entries.len() > 0 {
        let prev = entries.drop_last();
        lemma_months_labelled(year, prev);
        let e = entries.last();
        match e.1 {
            Json::Array(items) => {
                lemma_quotes_labelled(year, e.0@, items@);
                let pv = months_of(year, prev);
                let qs = quotes_of(year, e.0@, items@);
                let r = insert_entry(pv, e.0@, qs);
                assert forall|j: int| 0 <= j < r.len() implies quotes_labelled(year, (#[trigger] r[j]).0, r[j].1) by {
                    if keys_of(pv).contains(e.0@) {
                        let p = keys_of(pv).index_of(e.0@);
                        if j != p {
                            assert(r[j] == pv[j]);
                        }
                    } else {
                        if j < pv.len() {
                            assert(r[j] == pv[j]);
                        }
                    }
                }
            },
            _ => {},
        }
    }
}

proof fn lemma_years_labelled(entries: Seq<(String, Json)>)
    ensures
        years_labelled(years_of(entries)),
    decreases entries.len(),
{
    if entries.len() > 0 {
        let prev = entries.drop_last();
        lemma_years_labelled(prev);
        let e = entries.last();
        match e.1 {
            Json::Object(months) => {
                lemma_months_labelled(e.0@, months@);
                let pv = years_of(prev);
                let ms = months_of(e.0@, months@);
                let r = insert_entry(pv, e.0@, ms);
                assert forall|i: int| 0 <= i < r.len() implies months_labelled((#[trigger] r[i]).0, r[i].1) by {
                    if keys_of(pv).contains(e.0@) {
                        let p = keys_of(pv).index_of(e.0@);
                        if i != p {
                            assert(r[i] == pv[i]);
                        }
                    } else {
                        if i < pv.len() {
                            assert(r[i] == pv[i]);
                        }
                    }
                }
            },
            _ => {},
        }
    }
}

fn parse_month(year: &String, month: &String, items: &Vec<Json>) -> (r: QuoteMonth)
    ensures
        r@ == quotes_of(year@, month@, items@),
{
    let mut quotes: Vec<Quote> = Vec::new();
    let mut i: usize = 0;
    while i < items.len()
        invariant
            i <= items@.len(),
            quotes@.map_values(|q: Quote| q@) == quotes_of(year@, month@, items@.take(i as int)),
        decreases items@.len() - i,
    {
        proof {
            assert(items@.take(i + 1).drop_last() =~= items@.take(i as int));
        }
        match &items[i] {
            Json::Str(s) => {
                quotes.push(Quote { year: year.clone(), month: month.clone(), text: s.clone() });
                assert(quotes@.map_values(|q: Quote| q@) =~= quotes_of(year@, month@, items@.take(i + 1)));
            },
            _ => {},
        }
        i += 1;
    }
    assert(items@.take(items@.len() as int) =~= items@);
    QuoteMonth { quotes }
}

proof fn lemma_insert_months(s: Seq<(Seq<char>, QuoteMonth)>, k: Seq<char>, v: QuoteMonth)
    ensures
        insert_entry(s, k, v).map_values(|e: (Seq<char>, QuoteMonth)| (e.0, e.1@))
            =~= insert_entry(s.map_values(|e: (Seq<char>, QuoteMonth)| (e.0, e.1@)), k, v@),
{
    let f = |e: (Seq<char>, QuoteMonth)| (e.0, e.1@);
    assert(keys_of(s.map_values(f)) =~= keys_of(s));
}

proof fn lemma_insert_years(s: Seq<(Seq<char>, QuoteYear)>, k: Seq<char>, v: QuoteYear)
    ensures
        insert_entry(s, k, v).map_values(|e: (Seq<char>, QuoteYear)| (e.0, e.1@))
            =~= insert_entry(s.map_values(|e: (Seq<char>, QuoteYear)| (e.0, e.1@)), k, v@),
{
    let f = |e: (Seq<char>, QuoteYear)| (e.0, e.1@);
    assert(keys_of(s.map_values(f)) =~= keys_of(s));
}

fn parse_months(year: &String, entries: &Vec<(String, Json)>) -> (r: QuoteYear)
    ensures
        r@ == months_of(year@, entries@),
{
    let mut months = new_months();
    let mut i: usize = 0;
    while i < entries.len()
        invariant
            i <= entries@.len(),
            months_view(months) == months_of(year@, entries@.take(i as int)),
        decreases entries@.len() - i,
    {
        proof {
            assert(entries@.take(i + 1).drop_last() =~= entries@.take(i as int));
        }
        let entry = &entries[i];
        match &entry.1 {
            Json::Array(items) => {
                let month = parse_month(year, &entry.0, items);
                proof {
                    lemma_insert_months(month_entries(months), entry.0@, month);
                }
                insert_month(&mut months, entry.0.clone(), month);
            },
            _ => {},
        }
        i += 1;
    }
    assert(entries@.take(entries@.len() as int) =~= entries@);
    QuoteYear { months }
}

/// Every quote of a map of years, year after year and month after month.
pub fn flatten(years: &OrderMap<String, QuoteYear>) -> (r: Vec<&Quote>)
    ensures
        r@.map_values(|q: &Quote| q@) == flat_years(years_view(*years)),
{
    let mut flat: Vec<&Quote> = Vec::new();
    let n = years_len(years);
    let mut i: usize = 0;
    while i < n
        invariant
            i <= n,
            n == year_entries(*years).len(),
            flat@.map_values(|q: &Quote| q@) == flat_years(years_view(*years).take(i as int)),
        decreases n - i,
    {
        let (_, year) = year_at(years, i).unwrap();
        let ghost before = flat@.map_values(|q: &Quote| q@);
        let m = months_len(&year.months);
        let mut j: usize = 0;
        while j < m
            invariant
                j <= m,
                m == month_entries(year.months).len(),
                flat@.map_values(|q: &Quote| q@) == before + flat_months(year@.take(j as int)),
            decreases m - j,
        {
            let (_, month) = month_at(&year.months, j).unwrap();
            let ghost mid = flat@.map_values(|q: &Quote| q@);
            let mut k: usize = 0;
            while k < month.quotes.len()
                invariant
                    k <= month.quotes@.len(),
                    flat@.map_values(|q: &Quote| q@) == mid + month@.take(k as int),
                decreases month.quotes@.len() - k,
            {
                let ghost old_flat = flat@;
                flat.push(&month.quotes[k]);
                assert(month@.take(k + 1) =~= month@.take(k as int).push(month.quotes@[k as int]@));
                assert(flat@ =~= old_flat.push(&month.quotes@[k as int]));
                assert(flat@.map_values(|q: &Quote| q@) =~= old_flat.map_values(|q: &Quote| q@).push(
                    month.quotes@[k as int]@));
                assert(flat@.map_values(|q: &Quote| q@) =~= mid + month@.take(k + 1));
                k += 1;
            }
            proof {
                assert(month@.take(month@.len() as int) =~= month@);
                assert(year@.take(j + 1).drop_last() =~= year@.take(j as int));
                assert(flat_months(year@.take(j + 1)) == flat_months(year@.take(j as int)) + month@);
                assert(before + flat_months(year@.take(j + 1)) =~= before + flat_months(year@.take(j as int)) + month@);
            }
            j += 1;
        }
        proof {
            assert(year@.take(year@.len() as int) =~= year@);
            assert(years_view(*years).take(i + 1).drop_last() =~= years_view(*years).take(i as int));
        }
        i += 1;
    }
    assert(years_view(*years).take(n as int) =~= years_view(*years));
    flat
}

/// Parses a document of years, months and quotes. Entries of the wrong shape
/// below the top level are left out; a document that is not an object fails.
pub fn parse_quotes(doc: &Json) -> (r: Result<QuoteCollection, ParseError>)
    ensures
        match parsed(*doc) {
            Some(v) => r is Ok && r->Ok_0@ == v && r->Ok_0.wf(),
            None => r is Err && r->Err_0 == ParseError::MalformedDocument,
        },
{
    let entries = match doc {
        Json::Object(entries) => entries,
        _ => { return Err(ParseError::MalformedDocument); },
    };
    let mut years = new_years();
    let mut i: usize = 0;
    while i < entries.len()
        invariant
            i <= entries@.len(),
            years_view(years) == years_of(entries@.take(i as int)),
        decreases entries@.len() - i,
    {
        proof {
            assert(entries@.take(i + 1).drop_last() =~= entries@.take(i as int));
        }
        let entry = &entries[i];
        match &entry.1 {
            Json::Object(months) => {
                let year = parse_months(&entry.0, months);
                proof {
                    lemma_insert_years(year_entries(years), entry.0@, year);
                }
                insert_year(&mut years, entry.0.clone(), year);
            },
            _ => {},
        }
        i += 1;
    }
    assert(entries@.take(entries@.len() as int) =~= entries@);
    let flat = flatten(&years);
    let size = flat.len();
    let c = QuoteCollection { years, size };
    proof {
        lemma_years_labelled(entries@);
    }
    assert(flat@.map_values(|q: &Quote| q@).len() == flat@.len());
    Ok(c)
}

/// No two entries share a key.
pub open spec fn distinct_keys(entries: Seq<(String, Json)>) -> bool {
    forall|i: int, j: int| 0 <= i < j < entries.len() ==> entries[i].0@ != entries[j].0@
}

/// Every item is a string.
pub open spec fn all_strings(items: Seq<Json>) -> bool {
    forall|k: int| 0 <= k < items.len() ==> items[k] is Str
}

/// Months with distinct keys, each an array of `q` strings.
pub open spec fn uniform_months(entries: Seq<(String, Json)>, q: nat) -> bool {
    &&& distinct_keys(entries)
    &&& forall|j: int| 0 <= j < entries.len() ==> {
        &&& entries[j].1 is Array
        &&& entries[j].1->Array_0@.len() == q
        &&& all_strings(entries[j].1->Array_0@)
    }
}

/// Years with distinct keys, each an object of `m` months of `q` quotes.
pub open spec fn uniform_years(entries: Seq<(String, Json)>, m: nat, q: nat) -> bool {
    &&& distinct_keys(entries)
    &&& forall|i: int| 0 <= i < entries.len() ==> {
        &&& entries[i].1 is Object
        &&& entries[i].1->Object_0@.len() == m
        &&& uniform_months(entries[i].1->Object_0@, q)
    }
}

proof fn lemma_quotes_all(year: Seq<char>, month: Seq<char>, items: Seq<Json>)
    requires
        all_strings(items),
    ensures
        quotes_of(year, month, items).len() == items.len(),
        forall|k: int| 0 <= k < items.len() ==> quotes_of(year, month, items)[k] == (year, month, items[k]->Str_0@),
    decreases items.len(),
{
    if items.len() > 0 {
        lemma_quotes_all(year, month, items.drop_last());
    }
}

proof fn lemma_months_uniform(year: Seq<char>, entries: Seq<(String, Json)>, q: nat)
    requires
        uniform_months(entries, q),
    ensures
        months_of(year, entries).len() == entries.len(),
        forall|j: int| 0 <= j < entries.len() ==> months_of(year, entries)[j] == (entries[j].0@,
            quotes_of(year, entries[j].0@, entries[j].1->Array_0@)),
        flat_months(months_of(year, entries)).len() == entries.len() * q,
    decreases entries.len(),
{
    if entries.len() > 0 {
        let prev = entries.drop_last();
        lemma_months_uniform(year, prev, q);
        let pv = months_of(year, prev);
        let e = entries.last();
        assert forall|j: int| 0 <= j < keys_of(pv).len() implies keys_of(pv)[j] != e.0@ by {
            assert(entries[j].0@ != entries[entries.len() - 1].0@);
        }
        assert(!keys_of(pv).contains(e.0@));
        lemma_quotes_all(year, e.0@, e.1->Array_0@);
        let v = months_of(year, entries);
        assert(v.drop_last() =~= pv);
        assert(flat_months(v) == flat_months(pv) + v.last().1);
        let n = entries.len() as int;
        assert((n - 1) * q + q == n * q) by (nonlinear_arith);
    } else {
        assert(0 * q == 0);
    }
}

proof fn lemma_years_uniform(entries: Seq<(String, Json)>, m: nat, q: nat)
    requires
        uniform_years(entries, m, q),
    ensures
        years_of(entries).len() == entries.len(),
        forall|i: int| 0 <= i < entries.len() ==> years_of(entries)[i] == (entries[i].0@,
            months_of(entries[i].0@, entries[i].1->Object_0@)),
        flat_years(years_of(entries)).len() == entries.len() * (m * q),
    decreases entries.len(),
{
    if entries.len() > 0 {
        let prev = entries.drop_last();
        lemma_years_uniform(prev, m, q);
        let pv = years_of(prev);
        let e = entries.last();
        assert forall|i: int| 0 <= i < keys_of(pv).len() implies keys_of(pv)[i] != e.0@ by {
            assert(entries[i].0@ != entries[entries.len() - 1].0@);
        }
        assert(!keys_of(pv).contains(e.0@));
        lemma_months_uniform(e.0@, e.1->Object_0@, q);
        let v = years_of(entries);
        assert(v.drop_last() =~= pv);
        assert(flat_years(v) == flat_years(pv) + flat_months(v.last().1));
        let n = entries.len() as int;
        let mq = (m * q) as int;
        assert((n - 1) * mq + mq == n * mq) by (nonlinear_arith);
    } else {
        assert(0 * (m * q) == 0);
    }
}

/// A well-formed document of `y` years, each of `m` months, each of `q`
/// quotes, with distinct keys at each level, parses to `y * m * q` quotes, and
/// the quote at each place carries that place's year, month and text.
pub proof fn parse_counts_every_quote(doc: Json, y: nat, m: nat, q: nat)
    requires
        doc is Object,
        doc->Object_0@.len() == y,
        uniform_years(doc->Object_0@, m, q),
    ensures
        parsed(doc) is Some,
        flat_years(parsed(doc)->Some_0).len() == y * m * q,
        forall|i: int, j: int, k: int|
            0 <= i < y && 0 <= j < m && 0 <= k < q ==> {
                let year = doc->Object_0@[i];
                let month = year.1->Object_0@[j];
                #[trigger] parsed(doc)->Some_0[i].1[j].1[k] == (year.0@, month.0@,
                    month.1->Array_0@[k]->Str_0@)
            },
{
    let es = doc->Object_0@;
    lemma_years_uniform(es, m, q);
    assert(y * (m * q) == y * m * q) by (nonlinear_arith);
    assert forall|i: int, j: int, k: int|
        0 <= i < y && 0 <= j < m && 0 <= k < q implies {
            let year = es[i];
            let month = year.1->Object_0@[j];
            #[trigger] parsed(doc)->Some_0[i].1[j].1[k] == (year.0@, month.0@,
                month.1->Array_0@[k]->Str_0@)
        } by {
        let ms = es[i].1->Object_0@;
        lemma_months_uniform(es[i].0@, ms, q);
        lemma_quotes_all(es[i].0@, ms[j].0@, ms[j].1->Array_0@);
    }
}

/// An entry of the document whose value is not an object is left out, and
/// nothing else changes: the document parses as it would without that entry.
pub proof fn non_object_year_is_skipped(entries: Seq<(String, Json)>, i: int)
    requires
        0 <= i < entries.len(),
        !(entries[i].1 is Object),
    ensures
        years_of(entries) == years_of(entries.remove(i)),
    decreases entries.len(),
{
    if i == entries.len() - 1 {
        assert(entries.drop_last() =~= entries.remove(i));
    } else {
        let prev = entries.drop_last();
        non_object_year_is_skipped(prev, i);
        assert(prev.remove(i) =~= entries.remove(i).drop_last());
        assert(entries.remove(i).last() == entries.last());
    }
}

/// Months with distinct keys, each an array of strings.
pub open spec fn well_formed_months(entries: Seq<(String, Json)>) -> bool {
    &&& distinct_keys(entries)
    &&& forall|j: int| 0 <= j < entries.len() ==> {
        &&& (#[trigger] entries[j]).1 is Array
        &&& all_strings(entries[j].1->Array_0@)
    }
}

/// Years with distinct keys, each an object of well-formed months.
pub open spec fn well_formed_years(entries: Seq<(String, Json)>) -> bool {
    &&& distinct_keys(entries)
    &&& forall|i: int| 0 <= i < entries.len() ==> {
        &&& (#[trigger] entries[i]).1 is Object
        &&& well_formed_months(entries[i].1->Object_0@)
    }
}

proof fn lemma_months_exact(year: Seq<char>, entries: Seq<(String, Json)>)
    requires
        well_formed_months(entries),
    ensures
        months_of(year, entries).len() == entries.len(),
        forall|j: int| 0 <= j < entries.len() ==> #[trigger] months_of(year, entries)[j] == (entries[j].0@,
            quotes_of(year, entries[j].0@, entries[j].1->Array_0@)),
    decreases entries.len(),
{
    if entries.len() > 0 {
        let prev = entries.drop_last();
        assert forall|j: int| 0 <= j < prev.len() implies #[trigger] prev[j].1 is Array && all_strings(prev[j].1->Array_0@) by {
            assert(prev[j] == entries[j]);
        }
        lemma_months_exact(year, prev);
        let pv = months_of(year, prev);
        let e = entries.last();
        assert forall|j: int| 0 <= j < keys_of(pv).len() implies keys_of(pv)[j] != e.0@ by {
            assert(pv[j].0 == prev[j].0@);
            assert(entries[j].0@ != entries[entries.len() - 1].0@);
        }
        assert(!keys_of(pv).contains(e.0@));
        assert(entries[entries.len() - 1] == e);
    }
}

proof fn lemma_years_exact(entries: Seq<(String, Json)>)
    requires
        well_formed_years(entries),
    ensures
        years_of(entries).len() == entries.len(),
        forall|i: int| 0 <= i < entries.len() ==> #[trigger] years_of(entries)[i] == (entries[i].0@,
            months_of(entries[i].0@, entries[i].1->Object_0@)),
    decreases entries.len(),
{
    if entries.len() > 0 {
        let prev = entries.drop_last();
        assert forall|i: int| 0 <= i < prev.len() implies #[trigger] prev[i].1 is Object && well_formed_months(prev[i].1->Object_0@) by {
            assert(prev[i] == entries[i]);
        }
        lemma_years_exact(prev);
        let pv = years_of(prev);
        let e = entries.last();
        assert forall|i: int| 0 <= i < keys_of(pv).len() implies keys_of(pv)[i] != e.0@ by {
            assert(pv[i].0 == prev[i].0@);
            assert(entries[i].0@ != entries[entries.len() - 1].0@);
        }
        assert(!keys_of(pv).contains(e.0@));
        assert(entries[entries.len() - 1] == e);
    }
}

/// A well-formed document (distinct keys at each level, every year an
/// object, every month an array of strings) parses with nothing lost: its
/// years, months and quotes keep their keys, counts and places, and each
/// quote carries its year, its month and its text.
pub proof fn parse_keeps_every_quote(doc: Json)
    requires
        doc is Object,
        well_formed_years(doc->Object_0@),
    ensures
        parsed(doc) is Some,
        parsed(doc)->Some_0.len() == doc->Object_0@.len(),
        forall|i: int| 0 <= i < doc->Object_0@.len() ==> {
            let year = doc->Object_0@[i];
            let v = #[trigger] parsed(doc)->Some_0[i];
            &&& v.0 == year.0@
            &&& v.1.len() == year.1->Object_0@.len()
            &&& forall|j: int| 0 <= j < year.1->Object_0@.len() ==> {
                let month = year.1->Object_0@[j];
                let mv = #[trigger] v.1[j];
                &&& mv.0 == month.0@
                &&& mv.1.len() == month.1->Array_0@.len()
                &&& forall|k: int| 0 <= k < month.1->Array_0@.len() ==> #[trigger] mv.1[k] == (year.0@,
                    month.0@, month.1->Array_0@[k]->Str_0@)
            }
        },
{
    let es = doc->Object_0@;
    lemma_years_exact(es);
    assert forall|i: int| 0 <= i < es.len() implies {
        let year = es[i];
        let v = #[trigger] parsed(doc)->Some_0[i];
        &&& v.0 == year.0@
        &&& v.1.len() == year.1->Object_0@.len()
        &&& forall|j: int| 0 <= j < year.1->Object_0@.len() ==> {
            let month = year.1->Object_0@[j];
            let mv = #[trigger] v.1[j];
            &&& mv.0 == month.0@
            &&& mv.1.len() == month.1->Array_0@.len()
            &&& forall|k: int| 0 <= k < month.1->Array_0@.len() ==> #[trigger] mv.1[k] == (year.0@,
                month.0@, month.1->Array_0@[k]->Str_0@)
        }
    } by {
        let ms = es[i].1->Object_0@;
        lemma_months_exact(es[i].0@, ms);
        assert forall|j: int| 0 <= j < ms.len() implies {
            let month = ms[j];
            let mv = #[trigger] months_of(es[i].0@, ms)[j];
            &&& mv.0 == month.0@
            &&& mv.1.len() == month.1->Array_0@.len()
            &&& forall|k: int| 0 <= k < month.1->Array_0@.len() ==> #[trigger] mv.1[k] == (es[i].0@,
                month.0@, month.1->Array_0@[k]->Str_0@)
        } by {
            lemma_quotes_all(es[i].0@, ms[j].0@, ms[j].1->Array_0@);
        }
    }
}

/// In a document with distinct year keys whose other years are well-formed,
/// a year that is not an object is the only one left out: every other year
/// is kept, in order and whole, and the count is theirs alone.
pub proof fn non_object_year_leaves_the_rest(doc: Json, b: int)
    requires
        doc is Object,
        0 <= b < doc->Object_0@.len(),
        !(doc->Object_0@[b].1 is Object),
        distinct_keys(doc->Object_0@),
        well_formed_years(doc->Object_0@.remove(b)),
    ensures
        parsed(doc) is Some,
        parsed(doc)->Some_0 == years_of(doc->Object_0@.remove(b)),
        parsed(doc)->Some_0.len() == doc->Object_0@.len() - 1,
        !keys_of(parsed(doc)->Some_0).contains(doc->Object_0@[b].0@),
        forall|i: int| 0 <= i < doc->Object_0@.len() - 1 ==> #[trigger] parsed(doc)->Some_0[i] == (
            doc->Object_0@.remove(b)[i].0@, months_of(doc->Object_0@.remove(b)[i].0@,
            doc->Object_0@.remove(b)[i].1->Object_0@)),
        flat_years(parsed(doc)->Some_0).len() == flat_years(years_of(doc->Object_0@.remove(b))).len(),
{
    let es = doc->Object_0@;
    let rest = es.remove(b);
    non_object_year_is_skipped(es, b);
    lemma_years_exact(rest);
    let v = years_of(rest);
    assert forall|i: int| 0 <= i < keys_of(v).len() implies keys_of(v)[i] != es[b].0@ by {
        if i < b {
            assert(rest[i] == es[i]);
        } else {
            assert(rest[i] == es[i + 1]);
        }
    }
}

} // verus!
