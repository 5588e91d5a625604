use sexy::cosplayjav::{Cosplayjav, POSTS_PAGE};
use sexy::crawl::{listing_page_urls, plan_page, ListingEntry, PageEnd};
use sexy::japonx::Japonx;
use sexy::error::ScrapeError;

fn entry(date: &str, url: &str) -> ListingEntry {
    ListingEntry { date: Ok(date.to_string()), url: Ok(url.to_string()) }
}

fn urls(b: &[&[&str]]) -> Vec<Vec<String>> {
    b.iter().map(|x| x.iter().map(|s| s.to_string()).collect()).collect()
}

fn five() -> Vec<ListingEntry> {
    vec![
        entry("20 May 2019", "a"),
        entry("19 May 2019", "b"),
        entry("18 May 2019", "c"),
        entry("10 May 2019", "d"),
        entry("01 May 2019", "e"),
    ]
}

#[test]
fn batches_hold_thread_posts() {
    let p = plan_page(&five(), 0, 2, None, None);
    assert_eq!(p.batches, urls(&[&["a", "b"], &["c", "d"], &["e"]]));
    assert_eq!(p.end, PageEnd::Continue);
}

#[test]
fn full_last_batch_leaves_an_empty_one() {
    let mut es = five();
    es.pop();
    let p = plan_page(&es, 0, 2, None, None);
    assert_eq!(p.batches, urls(&[&["a", "b"], &["c", "d"], &[]]));
}

#[test]
fn thread_zero_reads_all_in_one_batch() {
    let p = plan_page(&five(), 0, 0, None, None);
    assert_eq!(p.batches, urls(&[&["a", "b", "c", "d", "e"]]));
}

#[test]
fn recent_stops_after_that_many() {
    let p = plan_page(&five(), 0, 2, None, Some(3));
    assert_eq!(p.batches, urls(&[&["a", "b"], &["c"]]));
    assert_eq!(p.end, PageEnd::Stop);
    assert_eq!(p.taken, 3);
}

#[test]
fn recent_counts_posts_of_earlier_pages() {
    let first = vec![entry("20 May 2019", "a")];
    let p = plan_page(&first, 0, 2, None, Some(2));
    assert_eq!(p.end, PageEnd::Continue);
    assert_eq!(p.taken, 1);
    let p = plan_page(&five(), p.taken, 2, None, Some(2));
    assert_eq!(p.batches, urls(&[&["a"]]));
    assert_eq!(p.end, PageEnd::Stop);
    assert_eq!(p.taken, 2);
}

#[test]
fn crawl_carries_the_post_count_across_pages() {
    let mut j = Japonx::new();
    j.recent(3);
    let mut c = j.crawl();
    let p = c.read_page(&vec![entry("x", "a"), entry("x", "b")]);
    assert_eq!(p.batches, urls(&[&["a"], &["b"], &[]]));
    assert_eq!(c.end, PageEnd::Continue);
    assert_eq!(c.taken, 2);
    let p = c.read_page(&five());
    assert_eq!(p.batches, urls(&[&["a"], &[]]));
    assert_eq!(c.end, PageEnd::Stop);
    assert_eq!(c.taken, 3);
}

#[test]
fn after_stops_at_the_first_older_post() {
    let p = plan_page(&five(), 0, 1, Some(20190515), None);
    assert_eq!(p.batches, urls(&[&["a"], &["b"], &["c"], &[]]));
    assert_eq!(p.end, PageEnd::Stop);
}

#[test]
fn unreadable_entries_fail_the_page() {
    let mut es = five();
    es[2].url = Err(ScrapeError::MissingAttribute);
    let p = plan_page(&es, 0, 2, None, None);
    assert_eq!(p.batches, urls(&[&["a", "b"]]));
    assert_eq!(p.end, PageEnd::Fail(ScrapeError::MissingAttribute));
    let mut es = five();
    es[0].date = Ok("1 Smarch 2019".to_string());
    let p = plan_page(&es, 0, 2, Some(1), None);
    assert_eq!(p.end, PageEnd::Fail(ScrapeError::UnknownMonth));
    let p = plan_page(&es, 0, 2, None, None);
    assert_eq!(p.end, PageEnd::Continue);
}

#[test]
fn listing_pages_run_to_the_last() {
    assert_eq!(
        listing_page_urls("p/", 4),
        vec!["p/1".to_string(), "p/2".to_string(), "p/3".to_string(), "p/4".to_string()]
    );
    assert_eq!(listing_page_urls("p/", 1), vec!["p/1".to_string()]);
    assert!(listing_page_urls("p/", 0).is_empty());
}

#[test]
fn cosplayjav_settings_plan_with_their_limits() {
    let mut c = Cosplayjav::new(vec![("cookie".to_string(), "x".to_string())]);
    assert_eq!(c.thread, 1);
    assert_eq!(c.headers.len(), 1);
    c.thread(2);
    c.after(20190515);
    let mut crawl = c.crawl();
    let p = crawl.read_page(&five());
    assert_eq!(p.batches, urls(&[&["a", "b"], &["c"]]));
    assert_eq!(crawl.end, PageEnd::Stop);
    assert_eq!(
        c.listing_urls(3),
        vec![format!("{}1", POSTS_PAGE), format!("{}2", POSTS_PAGE), format!("{}3", POSTS_PAGE)]
    );
}

#[test]
fn crawl_reads_exactly_the_limit_over_pages() {
    let mut j = Japonx::new();
    j.recent(4);
    j.thread(10);
    let mut c = j.crawl();
    let p = c.read_page(&vec![entry("x", "a")]);
    assert_eq!(p.batches, urls(&[&["a"]]));
    let p = c.read_page(&vec![entry("x", "b"), entry("x", "c")]);
    assert_eq!(p.batches, urls(&[&["b", "c"]]));
    assert_eq!(c.end, PageEnd::Continue);
    let p = c.read_page(&five());
    assert_eq!(p.batches, urls(&[&["a"]]));
    assert_eq!(c.end, PageEnd::Stop);
    assert_eq!(c.taken, 4);
}
