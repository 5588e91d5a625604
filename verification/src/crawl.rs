//! Planning a crawl: which listing pages to fetch, and which posts of a listing page to
//! read, in which batches, before the crawl stops.

use vstd::prelude::*;

use crate::cosplayjav::listing_date;
use crate::error::ScrapeError;
use crate::text::{chars_of, decimal, decimal_chars, push_all, string_of, texts};

verus! {

/// An entry of a listing page: the text of its date, and the address of its post.
#[derive(Debug)]
pub struct ListingEntry {
    pub date: Result<String, ScrapeError>,
    pub url: Result<String, ScrapeError>,
}

/// How reading a listing page ends.
#[derive(Debug, Clone, Copy, PartialEq, Eq, Structural)]
pub enum PageEnd {
    /// Every entry was taken: go on with the next page.
    Continue,
    /// An entry was older than the date limit, or the post limit was reached: stop crawling.
    Stop,
    /// An entry could not be read.
    Fail(ScrapeError),
}

/// Which posts of a listing page to read: batches of addresses, read one batch at a time,
/// how the page ends, and how many posts the crawl has taken in all once these are read.
#[derive(Debug, Clone)]
pub struct PagePlan {
    pub batches: Vec<Vec<String>>,
    pub end: PageEnd,
    pub taken: u64,
}

/// The state of reading a listing page: the batches closed so far, the open batch, and
/// whether reading has ended.
#[verifier::ext_equal]
pub struct PlanState {
    pub batches: Seq<Seq<Seq<char>>>,
    pub current: Seq<Seq<char>>,
    pub end: Option<PageEnd>,
}

/// The state after closing the open batch.
pub open spec fn flush(s: PlanState) -> PlanState {
    PlanState { batches: s.batches.push(s.current), current: seq![], end: s.end }
}

/// The state after the entry at position `i`, counted from 0 over the posts of all listing
/// pages read so far: with a date limit `after`, an entry dated before it closes the open
/// batch and stops; the entry's address joins the open batch, which closes when it holds
/// `thread` addresses; the post at position `recent - 1` closes the open batch and stops.
pub open spec fn plan_step(
    s: PlanState,
    i: int,
    e: ListingEntry,
    thread: u32,
    after: Option<u32>,
    recent: Option<u32>,
) -> PlanState {
    if s.end is Some {
        s
    } else {
        let dated: Result<bool, ScrapeError> = match after {
            None => Ok(false),
            Some(a) => match e.date {
                Err(err) => Err(err),
                Ok(t) => match listing_date(t@) {
                    Err(err) => Err(err),
                    Ok(d) => Ok(a > d),
                },
            },
        };
        match dated {
            Err(err) => PlanState { end: Some(PageEnd::Fail(err)), ..s },
            Ok(true) => PlanState { end: Some(PageEnd::Stop), ..flush(s) },
            Ok(false) => match e.url {
                Err(err) => PlanState { end: Some(PageEnd::Fail(err)), ..s },
                Ok(u) => {
                    let s1 = PlanState { current: s.current.push(u@), ..s };
                    let s2 = if s1.current.len() == thread {
                        flush(s1)
                    } else {
                        s1
                    };
                    if recent matches Some(r) && r == i + 1 {
                        PlanState { end: Some(PageEnd::Stop), ..flush(s2) }
                    } else {
                        s2
                    }
                },
            },
        }
    }
}

/// The state after the entries `es`, read in order.
pub open spec fn plan_run(es: Seq<ListingEntry>, thread: u32, after: Option<u32>, recent: Option<u32>, taken: nat) -> PlanState
    decreases es.len(),
{
    if es.len() == 0 {
        PlanState { batches: seq![], current: seq![], end: None }
    } else {
        plan_step(plan_run(es.drop_last(), thread, after, recent, taken), taken + es.len() - 1, es.last(), thread, after, recent)
    }
}

/// The batches and the end of reading a listing page with entries `es`: when no entry
/// ends the reading, the open batch closes and the crawl continues.
pub open spec fn page_plan(es: Seq<ListingEntry>, thread: u32, after: Option<u32>, recent: Option<u32>, taken: nat) -> (Seq<Seq<Seq<char>>>, PageEnd) {
    let s = plan_run(es, thread, after, recent, taken);
    match s.end {
        None => (s.batches.push(s.current), PageEnd::Continue),
        Some(end) => (s.batches, end),
    }
}

/// The addresses held by a list of batches.
pub open spec fn batch_texts(b: Seq<Vec<String>>) -> Seq<Seq<Seq<char>>> {
    Seq::new(b.len(), |i: int| texts(b[i]@))
}

/// Whether an entry dated `text` is older than `limit`.
fn older_than(text: &String, limit: u32) -> (r: Result<bool, ScrapeError>)
    ensures
        r == match listing_date(text@) {
            Err(err) => Err::<bool, ScrapeError>(err),
            Ok(d) => Ok(limit > d),
        },
{
    match crate::cosplayjav::parse_listing_date(text.as_str()) {
        Err(err) => Err(err),
        Ok(d) => Ok(limit > d),
    }
}

/// Takes the entry `e` at position `pos` (over all pages read) into the batches: what
/// `plan_step` says of a reading that has not ended.
fn take_entry(
    batches: &mut Vec<Vec<String>>,
    current: &mut Vec<String>,
    e: &ListingEntry,
    pos: u64,
    thread: u32,
    after: Option<u32>,
    recent: Option<u32>,
) -> (end: Option<PageEnd>)
    requires
        pos < u64::MAX,
    ensures
        plan_step(
            PlanState { batches: batch_texts(old(batches)@), current: texts(old(current)@), end: None },
            pos as int,
            *e,
            thread,
            after,
            recent,
        ) == (PlanState { batches: batch_texts(final(batches)@), current: texts(final(current)@), end }),
{
    let ghost b0 = batch_texts(batches@);
    let ghost c0 = texts(current@);
    let mut stop = false;
    match after {
        None => {},
        Some(a) => {
            match &e.date {
                Err(err) => {
                    return Some(PageEnd::Fail(*err));
                },
                Ok(t) => {
                    match older_than(t, a) {
                        Err(err) => {
                            return Some(PageEnd::Fail(err));
                        },
                        Ok(old) => {
                            stop = old;
                        },
                    }
                },
            }
        },
    }
    if stop {
        let mut cur: Vec<String> = Vec::new();
        std::mem::swap(&mut cur, current);
        batches.push(cur);
        assert(batch_texts(batches@) =~= b0.push(c0));
        assert(texts(current@) =~= seq![]);
        return Some(PageEnd::Stop);
    }
    match &e.url {
        Err(err) => {
            return Some(PageEnd::Fail(*err));
        },
        Ok(u) => {
            current.push(u.clone());
            assert(texts(current@) =~= c0.push(u@));
        },
    }
    let ghost b1 = batch_texts(batches@);
    let ghost c1 = texts(current@);
    if current.len() as u64 == thread as u64 {
        let mut cur: Vec<String> = Vec::new();
        std::mem::swap(&mut cur, current);
        batches.push(cur);
        assert(batch_texts(batches@) =~= b1.push(c1));
        assert(texts(current@) =~= seq![]);
    }
    let ghost b2 = batch_texts(batches@);
    let ghost c2 = texts(current@);
    match recent {
        Some(m) => {
            if pos + 1 == m as u64 {
                let mut cur: Vec<String> = Vec::new();
                std::mem::swap(&mut cur, current);
                batches.push(cur);
                assert(batch_texts(batches@) =~= b2.push(c2));
                assert(texts(current@) =~= seq![]);
                return Some(PageEnd::Stop);
            }
        },
        None => {},
    }
    None
}

/// The number of addresses in the batches `batches`.
fn count_addresses(batches: &Vec<Vec<String>>) -> (n: u64)
    requires
        flatten(batch_texts(batches@)).len() <= u64::MAX,
    ensures
        n == flatten(batch_texts(batches@)).len(),
{
    let ghost b = batch_texts(batches@);
    let mut n: u64 = 0;
    let mut k: usize = 0;
    assert(b.take(0) =~= seq![]);
    while k < batches.len()
        invariant
            k <= batches@.len(),
            b == batch_texts(batches@),
            flatten(b).len() <= u64::MAX,
            n == flatten(b.take(k as int)).len(),
        decreases batches@.len() - k,
    {
        assert(b.take(k + 1).drop_last() =~= b.take(k as int));
        assert(b.take(k + 1).last() == b[k as int]);
        proof { lemma_flatten_prefix_len(b, k + 1); }
        n = n + batches[k].len() as u64;
        k = k + 1;
    }
    assert(b.take(k as int) =~= b);
    n
}

/// The batches before position `k` hold no more addresses than all of them.
proof fn lemma_flatten_prefix_len(b: Seq<Seq<Seq<char>>>, k: int)
    requires
        0 <= k <= b.len(),
    ensures
        flatten(b.take(k)).len() <= flatten(b).len(),
    decreases b.len() - k,
{
    if k < b.len() {
        assert(b.take(k + 1).drop_last() =~= b.take(k));
        lemma_flatten_prefix_len(b, k + 1);
    } else {
        assert(b.take(k) =~= b);
    }
}

/// Which posts of a listing page with entries `entries` to read, after `taken` posts were
/// taken on earlier pages: reading `thread` at a time, with an optional date limit `after`
/// and an optional number `recent` of posts to read in all.
pub fn plan_page(entries: &Vec<ListingEntry>, taken: u64, thread: u32, after: Option<u32>, recent: Option<u32>) -> (r: PagePlan)
    requires
        taken + entries@.len() < u64::MAX,
    ensures
        (batch_texts(r.batches@), r.end) == page_plan(entries@, thread, after, recent, taken as nat),
        r.taken == taken + flatten(batch_texts(r.batches@)).len(),
{
    let mut batches: Vec<Vec<String>> = Vec::new();
    let mut current: Vec<String> = Vec::new();
    let n = entries.len();
    let mut i: usize = 0;
    assert(entries@.take(0) =~= seq![]);
    assert(batch_texts(batches@) =~= seq![]);
    assert(texts(current@) =~= seq![]);
    while i < n
        invariant
            i <= n,
            n == entries@.len(),
            taken + n < u64::MAX,
            plan_run(entries@.take(i as int), thread, after, recent, taken as nat) == (PlanState {
                batches: batch_texts(batches@),
                current: texts(current@),
                end: None,
            }),
        decreases n - i,
    {
        assert(entries@.take(i + 1).drop_last() =~= entries@.take(i as int));
        let end = take_entry(&mut batches, &mut current, &entries[i], taken + i as u64, thread, after, recent);
        match end {
            Some(end) => {
                proof {
                    lemma_plan_run_ended(entries@, (i + 1) as int, thread, after, recent, taken as nat);
                    lemma_page_plan_reads_prefix(entries@, thread, after, recent, taken as nat);
                }
                let count = count_addresses(&batches);
                return PagePlan { batches, end, taken: taken + count };
            },
            None => {},
        }
        i = i + 1;
    }
    assert(entries@.take(n as int) =~= entries@);
    let ghost c = texts(current@);
    let ghost b0 = batch_texts(batches@);
    batches.push(current);
    assert(batch_texts(batches@) =~= b0.push(c));
    proof { lemma_page_plan_reads_prefix(entries@, thread, after, recent, taken as nat); }
    let count = count_addresses(&batches);
    PagePlan { batches, end: PageEnd::Continue, taken: taken + count }
}

/// Once reading has ended, later entries change nothing.
proof fn lemma_plan_run_ended(es: Seq<ListingEntry>, k: int, thread: u32, after: Option<u32>, recent: Option<u32>, taken: nat)
    requires
        0 <= k <= es.len(),
        plan_run(es.take(k), thread, after, recent, taken).end is Some,
    ensures
        plan_run(es, thread, after, recent, taken) == plan_run(es.take(k), thread, after, recent, taken),
    decreases es.len() - k,
{
    if k < es.len() {
        assert(es.take(k + 1).drop_last() =~= es.take(k));
        lemma_plan_run_ended(es, k + 1, thread, after, recent, taken);
    } else {
        assert(es.take(k) =~= es);
    }
}

/// The addresses of the listing pages to fetch when the last page is numbered `last_page`:
/// `base` followed by the page number, for the numbers from 1 up to and including
/// `last_page`.
pub open spec fn listing_urls(base: Seq<char>, last_page: u32) -> Seq<Seq<char>> {
    Seq::new(last_page as nat, |i: int| base + decimal((i + 1) as nat))
}

/// The addresses of the listing pages to fetch, in order.
pub fn listing_page_urls(base: &str, last_page: u32) -> (r: Vec<String>)
    ensures
        texts(r@) == listing_urls(base@, last_page),
{
    let b = chars_of(base);
    let mut r: Vec<String> = Vec::new();
    let mut page: u64 = 1;
    while page <= last_page as u64
        invariant
            1 <= page <= last_page as u64 + 1,
            b@ == base@,
            texts(r@) == listing_urls(base@, last_page).take(page - 1),
        decreases last_page as u64 + 1 - page,
    {
        let mut u = b.clone();
        assert(u@ =~= b@);
        let d = decimal_chars(page);
        push_all(&mut u, d.as_slice());
        let ghost before = texts(r@);
        let s = string_of(u.as_slice());
        r.push(s);
        assert(texts(r@) =~= before.push(s@));
        assert(listing_urls(base@, last_page).take(page as int) =~= listing_urls(base@, last_page).take(page - 1).push(base@ + decimal(page as nat)));
        page = page + 1;
    }
    assert(listing_urls(base@, last_page).take(page - 1) =~= listing_urls(base@, last_page));
    r
}

/// The number of the last listing page, read from the links of the page navigation: the
/// seventh link's text, as a number.
pub open spec fn last_page_of(html: Seq<char>, links: Seq<usize>) -> Result<u32, ScrapeError> {
    if links.len() < 7 {
        Err(ScrapeError::MissingElement)
    } else {
        match crate::dom::node_text(html, links[6]) {
            None => Err(ScrapeError::MissingElement),
            Some(t) => match crate::text::parse_u32_spec(t) {
                Some(n) => Ok(n),
                None => Err(ScrapeError::NotANumber),
            },
        }
    }
}

/// The number that a page number's text `t` gives.
pub fn page_number(t: &str) -> (r: Result<u32, ScrapeError>)
    ensures
        r == match crate::text::parse_u32_spec(t@) {
            Some(n) => Ok::<u32, ScrapeError>(n),
            None => Err(ScrapeError::NotANumber),
        },
{
    let c = chars_of(t);
    match crate::text::parse_u32_chars(c.as_slice()) {
        Some(n) => Ok(n),
        None => Err(ScrapeError::NotANumber),
    }
}

/// The number of the last listing page, from the links `links` of the page navigation.
pub(crate) fn last_page_number(page: &crate::dom::Page, links: &Vec<usize>) -> (r: Result<u32, ScrapeError>)
    ensures
        r == last_page_of(page.source(), links@),
{
    if links.len() < 7 {
        return Err(ScrapeError::MissingElement);
    }
    match crate::dom::text_of(page, links[6]) {
        None => Err(ScrapeError::MissingElement),
        Some(t) => page_number(t.as_str()),
    }
}

/// The addresses of a list of batches, one batch after the other.
pub open spec fn flatten(b: Seq<Seq<Seq<char>>>) -> Seq<Seq<char>>
    decreases b.len(),
{
    if b.len() == 0 {
        seq![]
    } else {
        flatten(b.drop_last()) + b.last()
    }
}

/// The addresses of the first `m` entries of `es`.
pub open spec fn entry_urls(es: Seq<ListingEntry>, m: int) -> Seq<Seq<char>> {
    Seq::new(m as nat, |i: int| es[i].url->Ok_0@)
}

/// Entry `e` passes the date limit `after` and has an address: what it takes for a
/// running reading to take its post.
pub open spec fn entry_taken(e: ListingEntry, after: Option<u32>) -> bool {
    &&& e.url is Ok
    &&& match after {
        None => true,
        Some(a) => {
            &&& e.date is Ok
            &&& listing_date(e.date->Ok_0@) is Ok
            &&& listing_date(e.date->Ok_0@)->Ok_0 >= a
        },
    }
}

/// How many entries of `es` a reading takes.
pub open spec fn plan_taken(es: Seq<ListingEntry>, thread: u32, after: Option<u32>, recent: Option<u32>, taken: nat) -> nat
    decreases es.len(),
{
    if es.len() == 0 {
        0
    } else {
        let k = plan_taken(es.drop_last(), thread, after, recent, taken);
        if plan_run(es.drop_last(), thread, after, recent, taken).end is None && entry_taken(es.last(), after) {
            k + 1
        } else {
            k
        }
    }
}

/// What holds of the state after reading `es`, with `m` entries taken.
#[verifier::opaque]
pub open spec fn plan_inv(es: Seq<ListingEntry>, s: PlanState, m: int, thread: u32, after: Option<u32>, recent: Option<u32>, taken: nat) -> bool {
    &&& 0 <= m <= es.len()
    &&& flatten(s.batches) + s.current == entry_urls(es, m)
    &&& forall|i: int| 0 <= i < m ==> #[trigger] entry_taken(es[i], after)
    &&& s.end is None ==> m == es.len()
    &&& (recent matches Some(r) && taken < r) ==> (taken + m <= recent->0 && (s.end is None ==> taken + m < recent->0))
    &&& thread >= 1 ==> (s.current.len() < thread && forall|j: int| 0 <= j < s.batches.len() ==> #[trigger] s.batches[j].len() <= thread)
    &&& s.end == Some(PageEnd::Stop) ==> s.current.len() == 0
    &&& s.end != Some(PageEnd::Continue)
}

/// Closing the open batch keeps the addresses read, in order.
proof fn lemma_flatten_push(b: Seq<Seq<Seq<char>>>, c: Seq<Seq<char>>)
    ensures
        flatten(b.push(c)) == flatten(b) + c,
{
    assert(b.push(c).drop_last() =~= b);
}

/// The invariant carries over to a longer list of entries when nothing new is taken and
/// the state, if it changes, only ends with a failure.
proof fn lemma_inv_extend(
    es: Seq<ListingEntry>,
    s0: PlanState,
    m0: int,
    s: PlanState,
    thread: u32,
    after: Option<u32>,
    recent: Option<u32>, taken: nat,
)
    requires
        es.len() > 0,
        plan_inv(es.drop_last(), s0, m0, thread, after, recent, taken),
        s.batches == s0.batches,
        s.current == s0.current,
        s.end is Some,
        s == s0 || (s0.end is None && s.end != Some(PageEnd::Stop) && s.end != Some(PageEnd::Continue)),
    ensures
        plan_inv(es, s, m0, thread, after, recent, taken),
{
    reveal(plan_inv);
    let es0 = es.drop_last();
    assert(entry_urls(es0, m0) =~= entry_urls(es, m0));
    assert forall|k: int| 0 <= k < m0 implies #[trigger] entry_taken(es[k], after) by {
        assert(es[k] == es0[k]);
        assert(entry_taken(es0[k], after));
    }
}

/// One running step keeps the invariant, counting the entry when it is taken.
proof fn lemma_step_running(
    es: Seq<ListingEntry>,
    s0: PlanState,
    m0: int,
    thread: u32,
    after: Option<u32>,
    recent: Option<u32>, taken: nat,
)
    requires
        es.len() > 0,
        plan_inv(es.drop_last(), s0, m0, thread, after, recent, taken),
        s0.end is None,
    ensures
        plan_inv(
            es,
            plan_step(s0, taken + es.len() - 1, es.last(), thread, after, recent),
            if entry_taken(es.last(), after) { m0 + 1 } else { m0 },
            thread,
            after,
            recent,
            taken,
        ),
{
    reveal(plan_inv);
    let es0 = es.drop_last();
    let e = es.last();
    let i = es0.len() as int;
    let s = plan_step(s0, taken + i, e, thread, after, recent);
    assert(m0 == i);
    assert(entry_urls(es0, m0) =~= entry_urls(es, m0));
    assert forall|k: int| 0 <= k < m0 implies #[trigger] entry_taken(es[k], after) by {
        assert(es[k] == es0[k]);
        assert(entry_taken(es0[k], after));
    }
    let dated: Result<bool, ScrapeError> = match after {
        None => Ok(false),
        Some(a) => match e.date {
            Err(err) => Err(err),
            Ok(t) => match listing_date(t@) {
                Err(err) => Err(err),
                Ok(d) => Ok(a > d),
            },
        },
    };
    match dated {
        Err(err) => {
            assert(!entry_taken(e, after));
        },
        Ok(true) => {
            assert(!entry_taken(e, after));
            lemma_flatten_push(s0.batches, s0.current);
            assert(s.batches == s0.batches.push(s0.current));
            assert forall|j: int| 0 <= j < s.batches.len() implies #[trigger] s.batches[j].len() <= thread || thread < 1 by {
                if j < s0.batches.len() {
                    assert(s.batches[j] == s0.batches[j]);
                }
            }
            assert(flatten(s.batches) + s.current =~= entry_urls(es, m0));
        },
        Ok(false) => {
            if e.url is Err {
                assert(!entry_taken(e, after));
            } else {
                assert(entry_taken(e, after));
                let u = e.url->Ok_0@;
                let c1 = s0.current.push(u);
                assert(entry_urls(es, m0 + 1) =~= entry_urls(es, m0).push(u));
                assert(flatten(s0.batches) + c1 =~= entry_urls(es, m0 + 1));
                let s1 = PlanState { current: c1, ..s0 };
                let s2 = if c1.len() == thread {
                    flush(s1)
                } else {
                    s1
                };
                lemma_flatten_push(s0.batches, c1);
                assert(flatten(s2.batches) + s2.current =~= entry_urls(es, m0 + 1));
                assert forall|j: int| 0 <= j < s2.batches.len() implies #[trigger] s2.batches[j].len() <= thread || thread < 1 by {
                    if j < s0.batches.len() {
                        assert(s2.batches[j] == s0.batches[j]);
                    }
                }
                lemma_flatten_push(s2.batches, s2.current);
                assert forall|j: int| 0 <= j < s2.batches.push(s2.current).len() implies #[trigger] s2.batches.push(s2.current)[j].len() <= thread || thread < 1 by {
                    if j < s2.batches.len() {
                        assert(s2.batches.push(s2.current)[j] == s2.batches[j]);
                    }
                }
                assert(flatten(s2.batches.push(s2.current)) + seq![] =~= entry_urls(es, m0 + 1));
                assert forall|k: int| 0 <= k < m0 + 1 implies #[trigger] entry_taken(es[k], after) by {
                    if k == i {
                        assert(es[k] == e);
                    }
                }
            }
        },
    }
}

/// A step after the reading has ended changes nothing.
proof fn lemma_step_ended(s0: PlanState, i: int, e: ListingEntry, thread: u32, after: Option<u32>, recent: Option<u32>)
    requires
        s0.end is Some,
    ensures
        plan_step(s0, i, e, thread, after, recent) == s0,
{
}

/// The invariant of reading a listing page holds after every entry.
proof fn lemma_plan_inv(es: Seq<ListingEntry>, thread: u32, after: Option<u32>, recent: Option<u32>, taken: nat)
    ensures
        plan_inv(es, plan_run(es, thread, after, recent, taken), plan_taken(es, thread, after, recent, taken) as int, thread, after, recent, taken),
    decreases es.len(),
{
    if es.len() == 0 {
        reveal(plan_inv);
        let s = plan_run(es, thread, after, recent, taken);
        let m = plan_taken(es, thread, after, recent, taken) as int;
        assert(flatten(s.batches) + s.current =~= entry_urls(es, m));
    } else {
        let es0 = es.drop_last();
        let e = es.last();
        lemma_plan_inv(es0, thread, after, recent, taken);
        let s0 = plan_run(es0, thread, after, recent, taken);
        let m0 = plan_taken(es0, thread, after, recent, taken) as int;
        if s0.end is None {
            lemma_step_running(es, s0, m0, thread, after, recent, taken);
        } else {
            lemma_step_ended(s0, es0.len() as int, e, thread, after, recent);
            lemma_inv_extend(es, s0, m0, s0, thread, after, recent, taken);
        }
    }
}

/// The batches `b` read the first `m` entries of `es`, after `taken` posts on earlier pages:
/// their addresses, one batch after the other; each of those entries passes the date limit;
/// with a post limit above `taken`, `taken + m` stays within it, and below it when the reading
/// continues to the next page; all entries when the reading continues to the next page.
pub open spec fn reads_prefix(
    es: Seq<ListingEntry>,
    b: Seq<Seq<Seq<char>>>,
    end: PageEnd,
    m: int,
    after: Option<u32>,
    recent: Option<u32>, taken: nat,
) -> bool {
    &&& 0 <= m <= es.len()
    &&& flatten(b) == entry_urls(es, m)
    &&& forall|i: int| 0 <= i < m ==> #[trigger] entry_taken(es[i], after)
    &&& (recent matches Some(r) && taken < r) ==> taken + m <= recent->0
    &&& end == PageEnd::Continue ==> ((recent matches Some(r) && taken < r) ==> taken + m < recent->0)
    &&& end == PageEnd::Continue ==> m == es.len()
}

/// A reading that continues to the next page reads every entry it took.
proof fn lemma_prefix_running(es: Seq<ListingEntry>, s: PlanState, m: int, thread: u32, after: Option<u32>, recent: Option<u32>, taken: nat)
    requires
        plan_inv(es, s, m, thread, after, recent, taken),
        s.end is None,
    ensures
        reads_prefix(es, s.batches.push(s.current), PageEnd::Continue, m, after, recent, taken),
        thread >= 1 ==> forall|j: int| 0 <= j < s.batches.push(s.current).len() ==> #[trigger] s.batches.push(s.current)[j].len() <= thread,
{
    reveal(plan_inv);
    let b = s.batches.push(s.current);
    lemma_flatten_push(s.batches, s.current);
    if thread >= 1 {
        assert forall|j: int| 0 <= j < b.len() implies #[trigger] b[j].len() <= thread by {
            if j < s.batches.len() {
                assert(b[j] == s.batches[j]);
            }
        }
    }
}

/// A reading that ended reads the entries of its closed batches.
proof fn lemma_prefix_ended(es: Seq<ListingEntry>, s: PlanState, m: int, thread: u32, after: Option<u32>, recent: Option<u32>, taken: nat)
    requires
        plan_inv(es, s, m, thread, after, recent, taken),
        s.end is Some,
    ensures
        reads_prefix(es, s.batches, s.end->0, m - s.current.len(), after, recent, taken),
        thread >= 1 ==> forall|j: int| 0 <= j < s.batches.len() ==> #[trigger] s.batches[j].len() <= thread,
        s.end == Some(PageEnd::Stop) ==> s.current.len() == 0,
{
    reveal(plan_inv);
    let m1 = m - s.current.len();
    let fb = flatten(s.batches);
    assert(entry_urls(es, m).len() == m);
    assert((fb + s.current).len() == fb.len() + s.current.len());
    assert(fb.len() == m1);
    assert forall|k: int| 0 <= k < m1 implies fb[k] == entry_urls(es, m)[k] by {
        assert((fb + s.current)[k] == fb[k]);
    }
    assert(fb =~= entry_urls(es, m1));
}

/// Reading a listing page, after `taken` posts were read on earlier pages, takes its entries
/// in order: the posts read are the addresses of the first entries, batch after batch; each
/// of those entries has an address and, with a date limit, a date on or after it; with a post
/// limit above `taken`, no more posts are read in all than it allows, and fewer when the crawl
/// goes on to the next page; every batch holds at most `thread` posts when `thread` is at
/// least 1; and when nothing ends the reading early, every entry is read.
pub proof fn lemma_page_plan_reads_prefix(es: Seq<ListingEntry>, thread: u32, after: Option<u32>, recent: Option<u32>, taken: nat)
    ensures
        ({
            let (b, end) = page_plan(es, thread, after, recent, taken);
            &&& reads_prefix(es, b, end, flatten(b).len() as int, after, recent, taken)
            &&& thread >= 1 ==> forall|j: int| 0 <= j < b.len() ==> #[trigger] b[j].len() <= thread
        }),
{
    lemma_plan_inv(es, thread, after, recent, taken);
    let s = plan_run(es, thread, after, recent, taken);
    let m = plan_taken(es, thread, after, recent, taken) as int;
    if s.end is None {
        lemma_prefix_running(es, s, m, thread, after, recent, taken);
    } else {
        lemma_prefix_ended(es, s, m, thread, after, recent, taken);
        assert(reads_prefix(es, s.batches, s.end->0, m - s.current.len(), after, recent, taken));
    }
}

/// The entries of the listing pages `pages`, one page after the other.
pub open spec fn all_entries(pages: Seq<Seq<ListingEntry>>) -> Seq<ListingEntry>
    decreases pages.len(),
{
    if pages.len() == 0 {
        seq![]
    } else {
        all_entries(pages.drop_last()) + pages.last()
    }
}

/// Reading the listing pages `pages` in order, from a crawl that has taken nothing yet: the
/// batches of all pages read, how the last page read ended, and the number of posts taken.
/// The crawl reads no page after one that does not continue.
pub open spec fn crawl_run(pages: Seq<Seq<ListingEntry>>, thread: u32, after: Option<u32>, recent: Option<u32>) -> (Seq<Seq<Seq<char>>>, PageEnd, nat)
    decreases pages.len(),
{
    if pages.len() == 0 {
        (seq![], PageEnd::Continue, 0)
    } else {
        let (b, end, t) = crawl_run(pages.drop_last(), thread, after, recent);
        if end != PageEnd::Continue {
            (b, end, t)
        } else {
            let (pb, pend) = page_plan(pages.last(), thread, after, recent, t);
            (b + pb, pend, t + flatten(pb).len())
        }
    }
}

/// The addresses of two lists of batches, one after the other.
proof fn lemma_flatten_concat(a: Seq<Seq<Seq<char>>>, b: Seq<Seq<Seq<char>>>)
    ensures
        flatten(a + b) == flatten(a) + flatten(b),
    decreases b.len(),
{
    if b.len() == 0 {
        assert(a + b =~= a);
        assert(flatten(a) + flatten(b) =~= flatten(a));
    } else {
        lemma_flatten_concat(a, b.drop_last());
        assert((a + b).drop_last() =~= a + b.drop_last());
        assert((a + b).last() == b.last());
        assert(flatten(a + b) =~= flatten(a) + flatten(b));
    }
}

/// A crawl over listing pages takes their posts in order, as one list: the posts read are
/// the addresses of the first listed posts, over all pages read, batch after batch; each of
/// those posts has an address and, with a date limit, a date on or after it; with a post
/// limit of at least 1, no more posts are read in all than it allows; every batch holds at
/// most `thread` posts when `thread` is at least 1; and when the crawl is still going after
/// the last page, every post of every page was read. The count of posts taken is the number
/// of addresses read.
pub proof fn lemma_crawl_reads_prefix(pages: Seq<Seq<ListingEntry>>, thread: u32, after: Option<u32>, recent: Option<u32>)
    ensures
        ({
            let (b, end, t) = crawl_run(pages, thread, after, recent);
            &&& t == flatten(b).len()
            &&& reads_prefix(all_entries(pages), b, end, t as int, after, recent, 0)
            &&& thread >= 1 ==> forall|j: int| 0 <= j < b.len() ==> #[trigger] b[j].len() <= thread
        }),
    decreases pages.len(),
{
    if pages.len() == 0 {
        assert(entry_urls(all_entries(pages), 0) =~= seq![]);
    } else {
        let p0 = pages.drop_last();
        let pg = pages.last();
        lemma_crawl_reads_prefix(p0, thread, after, recent);
        let (b0, end0, t0) = crawl_run(p0, thread, after, recent);
        let all0 = all_entries(p0);
        let all = all_entries(pages);
        assert(all == all0 + pg);
        if end0 != PageEnd::Continue {
            assert(entry_urls(all, t0 as int) =~= entry_urls(all0, t0 as int));
            assert forall|i: int| 0 <= i < t0 implies #[trigger] entry_taken(all[i], after) by {
                assert(all[i] == all0[i]);
                assert(entry_taken(all0[i], after));
            }
        } else {
            lemma_page_plan_reads_prefix(pg, thread, after, recent, t0);
            let (pb, pend) = page_plan(pg, thread, after, recent, t0);
            let mp = flatten(pb).len();
            lemma_flatten_concat(b0, pb);
            let b = b0 + pb;
            assert(t0 == all0.len());
            assert(entry_urls(all, (t0 + mp) as int) =~= entry_urls(all0, t0 as int) + entry_urls(pg, mp as int));
            assert forall|i: int| 0 <= i < t0 + mp implies #[trigger] entry_taken(all[i], after) by {
                if i < t0 {
                    assert(all[i] == all0[i]);
                    assert(entry_taken(all0[i], after));
                } else {
                    assert(all[i] == pg[i - t0]);
                    assert(entry_taken(pg[i - t0], after));
                }
            }
            if thread >= 1 {
                assert forall|j: int| 0 <= j < b.len() implies #[trigger] b[j].len() <= thread by {
                    if j < b0.len() {
                        assert(b[j] == b0[j]);
                    } else {
                        assert(b[j] == pb[j - b0.len()]);
                    }
                }
            }
        }
    }
}

/// When every entry can be taken, reading a page either takes all of its entries and goes
/// on, or stops right after the post that reaches the post limit.
proof fn lemma_run_all_taken(es: Seq<ListingEntry>, thread: u32, after: Option<u32>, recent: Option<u32>, taken: nat)
    requires
        forall|i: int| 0 <= i < es.len() ==> #[trigger] entry_taken(es[i], after),
    ensures
        ({
            let s = plan_run(es, thread, after, recent, taken);
            let m = plan_taken(es, thread, after, recent, taken);
            ||| s.end is None && m == es.len()
            ||| s.end == Some(PageEnd::Stop) && m >= 1 && recent == Some((taken + m) as u32) && taken + m <= u32::MAX
        }),
    decreases es.len(),
{
    if es.len() > 0 {
        let es0 = es.drop_last();
        assert forall|i: int| 0 <= i < es0.len() implies #[trigger] entry_taken(es0[i], after) by {
            assert(es0[i] == es[i]);
        }
        lemma_run_all_taken(es0, thread, after, recent, taken);
        assert(entry_taken(es[es.len() - 1], after));
    }
}

/// When every entry can be taken, a page's plan takes all of its entries and goes on, or
/// stops once the posts taken in all reach the post limit.
proof fn lemma_page_all_taken(es: Seq<ListingEntry>, thread: u32, after: Option<u32>, recent: Option<u32>, taken: nat)
    requires
        forall|i: int| 0 <= i < es.len() ==> #[trigger] entry_taken(es[i], after),
    ensures
        ({
            let (b, end) = page_plan(es, thread, after, recent, taken);
            ||| end == PageEnd::Continue && flatten(b).len() == es.len()
            ||| end == PageEnd::Stop && flatten(b).len() >= 1 && recent == Some((taken + flatten(b).len()) as u32)
                && taken + flatten(b).len() <= u32::MAX
        }),
{
    lemma_run_all_taken(es, thread, after, recent, taken);
    lemma_page_plan_reads_prefix(es, thread, after, recent, taken);
    lemma_plan_inv(es, thread, after, recent, taken);
    let s = plan_run(es, thread, after, recent, taken);
    let m = plan_taken(es, thread, after, recent, taken) as int;
    if s.end is Some {
        lemma_prefix_ended(es, s, m, thread, after, recent, taken);
        assert(entry_urls(es, m).len() == m);
    }
}

/// The number of posts a crawl over `n` listed posts reads when nothing but the post limit
/// stops it: the limit when it is at least 1 and below `n`, else all `n`.
pub open spec fn posts_wanted(n: nat, recent: Option<u32>) -> nat {
    match recent {
        Some(r) => if 1 <= r && r < n { r as nat } else { n },
        None => n,
    }
}

/// When every listed post can be taken, the crawl has either read every post of every page
/// and goes on, or has stopped exactly at the post limit.
proof fn lemma_crawl_all_taken(pages: Seq<Seq<ListingEntry>>, thread: u32, after: Option<u32>, recent: Option<u32>)
    requires
        forall|i: int| 0 <= i < all_entries(pages).len() ==> #[trigger] entry_taken(all_entries(pages)[i], after),
    ensures
        ({
            let (b, end, t) = crawl_run(pages, thread, after, recent);
            ||| end == PageEnd::Continue && t == all_entries(pages).len()
            ||| end == PageEnd::Stop && t >= 1 && recent == Some(t as u32) && t <= u32::MAX && t <= all_entries(pages).len()
        }),
    decreases pages.len(),
{
    if pages.len() > 0 {
        let p0 = pages.drop_last();
        let pg = pages.last();
        let all0 = all_entries(p0);
        let all = all_entries(pages);
        assert(all == all0 + pg);
        assert forall|i: int| 0 <= i < all0.len() implies #[trigger] entry_taken(all0[i], after) by {
            assert(all[i] == all0[i]);
        }
        lemma_crawl_all_taken(p0, thread, after, recent);
        let (b0, end0, t0) = crawl_run(p0, thread, after, recent);
        if end0 == PageEnd::Continue {
            assert forall|i: int| 0 <= i < pg.len() implies #[trigger] entry_taken(pg[i], after) by {
                assert(all[all0.len() + i] == pg[i]);
            }
            lemma_page_all_taken(pg, thread, after, recent, t0);
            lemma_page_plan_reads_prefix(pg, thread, after, recent, t0);
        }
    }
}

/// When every listed post can be taken (each has an address and, with a date limit, a date
/// on or after it), a crawl over listing pages reads exactly as many posts as the post limit
/// asks for, or every post listed when there are fewer (or no limit, or a limit of 0): the
/// first `posts_wanted` posts, in order.
pub proof fn lemma_crawl_reads_wanted(pages: Seq<Seq<ListingEntry>>, thread: u32, after: Option<u32>, recent: Option<u32>)
    requires
        forall|i: int| 0 <= i < all_entries(pages).len() ==> #[trigger] entry_taken(all_entries(pages)[i], after),
    ensures
        ({
            let (b, end, t) = crawl_run(pages, thread, after, recent);
            &&& t == posts_wanted(all_entries(pages).len(), recent)
            &&& flatten(b) == entry_urls(all_entries(pages), t as int)
        }),
{
    lemma_crawl_all_taken(pages, thread, after, recent);
    lemma_crawl_reads_prefix(pages, thread, after, recent);
}

/// A crawl in progress: the settings it reads with, and, as ghost state, the listing pages
/// read so far and the batches planned from them.
pub struct Crawl {
    pub thread: u32,
    pub after: Option<u32>,
    pub recent: Option<u32>,
    /// The posts taken so far, over all pages read.
    pub taken: u64,
    /// How the last page read ended; `Continue` before the first page.
    pub end: PageEnd,
    pub pages: Ghost<Seq<Seq<ListingEntry>>>,
    pub read: Ghost<Seq<Seq<Seq<char>>>>,
}

impl Crawl {
    /// The crawl has read its pages as `crawl_run` says.
    pub open spec fn wf(&self) -> bool {
        crawl_run(self.pages@, self.thread, self.after, self.recent) == (self.read@, self.end, self.taken as nat)
    }

    /// A crawl that has read no page, reading `thread` posts at a time, with an optional date
    /// limit `after` and an optional number `recent` of posts to read in all.
    pub fn new(thread: u32, after: Option<u32>, recent: Option<u32>) -> (c: Crawl)
        ensures
            c.wf(),
            c.pages@ == Seq::<Seq<ListingEntry>>::empty(),
            c.thread == thread,
            c.after == after,
            c.recent == recent,
            c.taken == 0,
            c.end == PageEnd::Continue,
    {
        let ghost pages: Seq<Seq<ListingEntry>> = seq![];
        let ghost read: Seq<Seq<Seq<char>>> = seq![];
        Crawl { thread, after, recent, taken: 0, end: PageEnd::Continue, pages: Ghost(pages), read: Ghost(read) }
    }

    /// Reads the next listing page, with entries `entries`: which of its posts to read, in
    /// batches, and whether the crawl goes on.
    pub fn read_page(&mut self, entries: &Vec<ListingEntry>) -> (r: PagePlan)
        requires
            old(self).wf(),
            old(self).end == PageEnd::Continue,
            old(self).taken + entries@.len() < u64::MAX,
        ensures
            final(self).wf(),
            final(self).pages@ == old(self).pages@.push(entries@),
            final(self).thread == old(self).thread,
            final(self).after == old(self).after,
            final(self).recent == old(self).recent,
            (batch_texts(r.batches@), r.end) == page_plan(entries@, old(self).thread, old(self).after, old(self).recent, old(self).taken as nat),
            final(self).read@ == old(self).read@ + batch_texts(r.batches@),
            final(self).taken == r.taken,
            final(self).end == r.end,
    {
        let plan = plan_page(entries, self.taken, self.thread, self.after, self.recent);
        let ghost pages = self.pages@.push(entries@);
        let ghost read = self.read@ + batch_texts(plan.batches@);
        proof {
            assert(pages.drop_last() =~= self.pages@);
        }
        self.pages = Ghost(pages);
        self.read = Ghost(read);
        self.taken = plan.taken;
        self.end = plan.end;
        plan
    }
}

} // verus!
