use sexy::error::ScrapeError;
use sexy::japonx::{
    post_id, post_url, read_last_page, read_listing, read_post_page, Japonx, Labels, Post,
    PostContent, PostPage,
};

const POST_PAGE: &str = r#"<html><body>
<h1>Title J</h1>
<div class="tx-comment">Intro text</div>
<video id="do_play_1" src="http://v/cover.jpg"></video>
<dl class="desc">
  <dd><a>ID-1</a></dd>
  <dd><a>120</a></dd>
  <dd><a>Aya</a><a>Other</a></dd>
  <dd><a>2019-03-05</a></dd>
  <dd><a>Drama</a><a>Comedy</a></dd>
  <dd><a>Studio</a></dd>
  <dd><a>English</a></dd>
  <dd><a>ignored</a></dd>
</dl>
</body></html>"#;

fn strings(v: &[&str]) -> Vec<String> {
    v.iter().map(|x| x.to_string()).collect()
}

fn desc(entries: &[&[&str]]) -> Vec<Vec<String>> {
    entries.iter().map(|e| strings(e)).collect()
}

#[test]
fn new_settings_are_the_defaults() {
    let j = Japonx::new();
    assert!(!j.is_database());
    assert!(j.is_verbose());
    assert_eq!(j.thread, 1);
    assert_eq!(j.after, None);
    assert_eq!(j.recent, None);
    assert!(j.likes.is_empty() && j.views.is_empty());
}

#[test]
fn setters_change_one_setting() {
    let mut j = Japonx::new();
    j.database();
    j.silent();
    j.thread(4);
    j.after(20190101);
    j.recent(3);
    assert!(j.is_database());
    assert!(!j.is_verbose());
    assert_eq!((j.thread, j.after, j.recent), (4, Some(20190101), Some(3)));
}

#[test]
fn description_fills_the_details_in_order() {
    let d = desc(&[&["ID-1"], &["120"], &["Aya"], &["2019-03-05"], &["Drama", "Comedy"], &["Studio"], &["English"], &["x"]]);
    let c = PostContent::from_desc(&d, None).unwrap().unwrap();
    assert_eq!(c.id, "ID-1");
    assert_eq!(c.length, 120);
    assert_eq!(c.actress, "Aya");
    assert_eq!(c.release_date, 20190305);
    assert_eq!(c.genres, strings(&["Drama", "Comedy"]));
    assert_eq!(c.company, "Studio");
    assert_eq!(c.subtitles, "English");
}

#[test]
fn short_description_keeps_defaults() {
    let c = PostContent::from_desc(&desc(&[&["ID-2"]]), Some(20200101)).unwrap().unwrap();
    assert_eq!(c.id, "ID-2");
    assert_eq!(c.length, 0);
    assert_eq!(c.release_date, 0);
    assert!(c.genres.is_empty());
}

#[test]
fn old_posts_are_rejected_by_the_date_limit() {
    let d = desc(&[&["ID"], &["1"], &["A"], &["2019-03-05"]]);
    assert!(PostContent::from_desc(&d, Some(20190306)).unwrap().is_none());
    let kept = PostContent::from_desc(&d, Some(20190305)).unwrap().unwrap();
    assert!(kept.release_date >= 20190305);
}

#[test]
fn description_errors() {
    assert_eq!(PostContent::from_desc(&desc(&[&[]]), None).unwrap_err(), ScrapeError::MissingElement);
    assert_eq!(PostContent::from_desc(&desc(&[&["a"], &["12 min"]]), None).unwrap_err(), ScrapeError::NotANumber);
}

#[test]
fn japonx_post_ids_come_from_the_address() {
    assert_eq!(post_id("https://www.japonx.vip/portal/index/detail/id/678.html"), Ok(678));
    assert_eq!(post_id("https://www.japonx.vip/portal/index/detail/id/678"), Err(ScrapeError::NoPostId));
}

#[test]
fn post_urls_are_rooted_at_the_site() {
    assert_eq!(post_url("/portal/index/detail/id/5.html"), "https://www.japonx.vip/portal/index/detail/id/5.html");
}

#[test]
fn japonx_post_page_is_read_from_markup() {
    let page = POST_PAGE;
    let p = read_post_page(page).unwrap();
    assert_eq!(p.title, "Title J");
    assert_eq!(p.intro, "Intro text");
    assert_eq!(p.cover, "http://v/cover.jpg");
    assert_eq!(p.desc.len(), 8);
    assert_eq!(p.desc[2], strings(&["Aya", "Other"]));
    let post = Post::assemble(5, &p, None).unwrap().unwrap();
    assert_eq!(post.content.release_date, 20190305);
    assert_eq!(post.content.subtitles, "English");
    let j = Japonx::new();
    assert!(j.post_from_page(5, &p).unwrap().is_some());
}

#[test]
fn post_page_needs_a_heading() {
    assert_eq!(read_post_page("<p>x</p>").unwrap_err(), ScrapeError::MissingElement);
}

#[test]
fn listing_entries_have_addresses() {
    let html = r#"<ul id="works"><li><a href="/portal/index/detail/id/1.html">a</a></li><li>none</li></ul>"#;
    let entries = read_listing(html);
    assert_eq!(entries.len(), 2);
    assert_eq!(entries[0].url, Ok("https://www.japonx.vip/portal/index/detail/id/1.html".to_string()));
    assert_eq!(entries[1].url, Err(ScrapeError::MissingElement));
}

#[test]
fn japonx_last_page_is_the_seventh_link() {
    let html = r#"<div class="bx-pagination"><a>1</a><a>2</a><a>3</a><a>4</a><a>5</a><a>6</a><a>99</a></div>"#;
    assert_eq!(read_last_page(html), Ok(99));
}

#[test]
fn listing_urls_number_the_pages() {
    let j = Japonx::new();
    let u = j.listing_urls(3);
    assert_eq!(u, strings(&[
        "https://www.japonx.vip/portal/index/search/new/1.html?page=1",
        "https://www.japonx.vip/portal/index/search/new/1.html?page=2",
        "https://www.japonx.vip/portal/index/search/new/1.html?page=3",
    ]));
}

#[test]
fn japonx_post_prints_as_the_site_shows_it() {
    let l = |s: &str| s.to_string();
    let labels = Labels {
        post: l("Post"),
        title: l("Title"),
        intro: l("Intro"),
        cover: l("Cover"),
        content: l("Content"),
        id: l("Id"),
        length: l("Length"),
        release_date: l("Release date"),
        company: l("Company"),
        subtitles: l("Subtitles"),
        genres: l("Type"),
    };
    let page = PostPage { title: l("T"), intro: l("I"), cover: l("C"), desc: desc(&[&["X"], &["90"], &["A"], &["2020-01-02"], &["g1", "g2"], &["S"], &["E"]]) };
    let post = Post::assemble(4, &page, None).unwrap().unwrap();
    let expected = "Post https://www.japonx.vip/portal/index/detail/id/4.html:\n    Title: T\n    Intro: I\n    Cover: C\n    Content:\n        Id: X\n        Length: 90\n        Release date: 20200102\n        Company: S\n        Subtitles: E\n        Type: g1, g2";
    assert_eq!(post.render_with(&labels), expected);
    assert!(post.render().contains("detail/id/4.html"));
}
