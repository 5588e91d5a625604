use sexy::cosplayjav::{
    classify_part_link, needs_bypass, request_headers, parse_listing_date, plan_parts, post_id, read_download_link,
    read_last_page, read_listing, read_post_page, Content, InfoCell, InfoRow, Labels, PartLink,
    Post, PostPage, PostType,
};
use sexy::error::ScrapeError;

const POST_PAGE: &str = r#"<html><body>
<h1>My Title</h1>
<div class="post-aside">Cosplay videos</div>
<ul><li class="favourites-li">42</li></ul>
<div class="post-thumb"><img src="http://img/c.jpg"></div>
<div class="item-parts">
  <a href="http://x/part1/torrents">t</a>
  <a href="http://x/part2/alternative">alt</a>
  <a href="http://x/part3">p</a>
</div>
<div class="item-info"><table>
  <tr><td>ID</td><td>ABC-123</td></tr>
  <tr><td>&#8211; ACRESS &#8211;</td><td>Jane</td></tr>
  <tr><td>IN PREMIUM SECTION TO</td><td>2020</td></tr>
  <tr><td>ANIME/GAME SERIES</td><td>Naruto / Bleach /</td></tr>
  <tr><td>CHARACTER COSPLAY</td><td><a>Hinata</a><a>Rukia</a></td></tr>
  <tr><td>lonely</td></tr>
</table></div>
</body></html>"#;

fn row(key: &str, text: &str, links: &[&str]) -> InfoRow {
    InfoRow {
        key: key.to_string(),
        value: InfoCell { text: text.to_string(), links: links.iter().map(|l| l.to_string()).collect() },
    }
}

fn strings(v: &[&str]) -> Vec<String> {
    v.iter().map(|x| x.to_string()).collect()
}

#[test]
fn post_type_codes_and_labels() {
    assert_eq!(PostType::CosplayVideos.to_i16(), 0);
    assert_eq!(PostType::OnlyImages.to_i16(), 1);
    assert_eq!(PostType::Premium.to_i16(), 2);
    assert_eq!(PostType::Wishlist.to_i16(), 3);
    assert_eq!(PostType::CosplayVideos.label(), "Cosplay Videos");
    assert_eq!(PostType::Wishlist.label(), "WISHLIST");
}

#[test]
fn post_type_from_aside_text() {
    assert_eq!(PostType::from_aside("Cosplay videos"), PostType::CosplayVideos);
    assert_eq!(PostType::from_aside("Only images and videos"), PostType::CosplayVideos);
    assert_eq!(PostType::from_aside("Only images"), PostType::OnlyImages);
    assert_eq!(PostType::from_aside("Premium content"), PostType::Premium);
    assert_eq!(PostType::from_aside("premium"), PostType::Wishlist);
    assert_eq!(PostType::from_aside(""), PostType::Wishlist);
}

#[test]
fn multi_info_prefers_links_then_lines_then_slashes() {
    let c = InfoCell { text: "ignored".to_string(), links: strings(&["A", "B"]) };
    assert_eq!(c.split_multi_info(), strings(&["A", "B"]));
    let c = InfoCell { text: "one\r\ntwo / x\n".to_string(), links: vec![] };
    assert_eq!(c.split_multi_info(), strings(&["one", "two / x"]));
    let c = InfoCell { text: " Naruto /  / Bleach ".to_string(), links: vec![] };
    assert_eq!(c.split_multi_info(), strings(&["Naruto", "Bleach"]));
    let c = InfoCell { text: "   ".to_string(), links: vec![] };
    assert_eq!(c.split_multi_info(), Vec::<String>::new());
}

#[test]
fn rows_fill_the_named_fields() {
    let rows = vec![
        row("\u{2013} ID \u{2013}", "first", &[]),
        row("ID", "second", &[]),
        row("ACRESS", "Jane", &[]),
        row(" ALTERNATIVE TITLE", "Alt", &[]),
        row("IN PREMIUM SECTION TO", "2020", &[]),
        row("INFO", "a/b", &[]),
        row("SOMETHING ELSE", "x", &[]),
    ];
    let c = Content::from_rows(&rows);
    assert_eq!(c.id.as_deref(), Some("second"));
    assert_eq!(c.actress.as_deref(), Some("Jane"));
    assert_eq!(c.alternative_title.as_deref(), Some("Alt"));
    assert_eq!(c.in_premium_section_to.as_deref(), Some("2020"));
    assert_eq!(c.info, Some(strings(&["a", "b"])));
    assert_eq!(c.title, None);
    assert_eq!(c.company, None);
}

#[test]
fn unknown_rows_leave_content_empty() {
    let c = Content::from_rows(&vec![row("WHATEVER", "x", &[])]);
    assert!(c.id.is_none() && c.title.is_none() && c.info.is_none());
}

#[test]
fn part_links_are_sorted_by_ending() {
    assert_eq!(classify_part_link("http://a/b/torrents"), PartLink::Torrent);
    assert_eq!(classify_part_link("http://a/b/alternative"), PartLink::Alternative);
    assert_eq!(classify_part_link("http://a/b/torrents/1"), PartLink::DownloadPage);
    let plan = plan_parts(&strings(&["a/torrents", "b", "c/alternative", "d/torrents", "e"]));
    assert_eq!(plan.torrents, strings(&["a/torrents", "d/torrents"]));
    assert_eq!(plan.download_pages, strings(&["b", "e"]));
}

fn page(aside: &str, links: Vec<String>, likes: &str) -> PostPage {
    PostPage {
        aside: aside.to_string(),
        part_links: Ok(links),
        likes: Ok(likes.to_string()),
        title: Ok("T".to_string()),
        cover: Ok("C".to_string()),
        info_rows: Ok(vec![row("COMPANY", "Co", &[])]),
    }
}

#[test]
fn assemble_lists_torrents_then_downloads() {
    let p = page("videos", strings(&["x/torrents", "y"]), "17");
    let post = Post::assemble(9, &p, &strings(&["http://dl/y"])).unwrap().unwrap();
    assert_eq!(post.id, 9);
    assert_eq!(post.likes, 17);
    assert_eq!(post.parts, strings(&["x/torrents", "http://dl/y"]));
    assert_eq!(post.post_type, PostType::CosplayVideos);
    assert_eq!(post.content.company.as_deref(), Some("Co"));
}

#[test]
fn assemble_without_parts_gives_no_post() {
    let p = page("images", strings(&["x/alternative"]), "not a number");
    assert!(Post::assemble(1, &p, &vec![]).unwrap().is_none());
}

#[test]
fn assemble_premium_has_no_parts() {
    let p = page("Premium", vec![], "3");
    let post = Post::assemble(1, &p, &strings(&["ignored"])).unwrap().unwrap();
    assert!(post.parts.is_empty());
}

#[test]
fn assemble_rejects_bad_likes() {
    let p = page("Premium", vec![], "1,024");
    assert_eq!(Post::assemble(1, &p, &vec![]).unwrap_err(), ScrapeError::NotANumber);
}

#[test]
fn assemble_reports_missing_parts() {
    let mut p = page("videos", vec![], "3");
    p.part_links = Err(ScrapeError::MissingAttribute);
    assert_eq!(Post::assemble(1, &p, &vec![]).unwrap_err(), ScrapeError::MissingAttribute);
}

#[test]
fn listing_dates_read_as_year_month_day() {
    assert_eq!(parse_listing_date("15 March 2019"), Ok(20190315));
    assert_eq!(parse_listing_date("5 March 2019"), Ok(20190305));
    assert_eq!(parse_listing_date("5 May 2019"), Ok(20190505));
    assert!(parse_listing_date("5 May 2019").unwrap() > 20190101);
    assert_eq!(parse_listing_date("1 January 429497"), Err(ScrapeError::NotANumber));
    assert_eq!(parse_listing_date("05 December 2018"), Ok(20181205));
    assert_eq!(parse_listing_date("5 Marchh 2019"), Err(ScrapeError::UnknownMonth));
    assert_eq!(parse_listing_date("5"), Err(ScrapeError::MissingElement));
    assert_eq!(parse_listing_date("5 May"), Err(ScrapeError::MissingElement));
    assert_eq!(parse_listing_date("x May 2019"), Err(ScrapeError::NotANumber));
}

#[test]
fn bypass_only_on_challenge() {
    assert!(needs_bypass(503));
    assert!(!needs_bypass(200));
}

#[test]
fn post_ids_come_from_the_address() {
    assert_eq!(post_id("http://cosplayjav.pl/12345/some-title"), Ok(12345));
    assert_eq!(post_id("http://example.com/1"), Err(ScrapeError::NoPostId));
    assert_eq!(post_id("http://cosplayjav.pl/99999999999/x"), Err(ScrapeError::NotANumber));
}

#[test]
fn post_page_is_read_from_markup() {
    let page = POST_PAGE;
    let p = read_post_page(page).unwrap();
    assert_eq!(p.aside, "Cosplay videos");
    assert_eq!(
        p.part_links,
        Ok(strings(&["http://x/part1/torrents", "http://x/part2/alternative", "http://x/part3"]))
    );
    assert_eq!(p.likes, Ok("42".to_string()));
    assert_eq!(p.title, Ok("My Title".to_string()));
    assert_eq!(p.cover, Ok("http://img/c.jpg".to_string()));
    let rows = p.info_rows.as_ref().unwrap();
    assert_eq!(rows.len(), 5);
    assert_eq!(rows[1].key, "\u{2013} ACRESS \u{2013}");
    assert_eq!(rows[4].value.links, strings(&["Hinata", "Rukia"]));
    let plan = plan_parts(p.part_links.as_ref().unwrap());
    assert_eq!(plan.download_pages, strings(&["http://x/part3"]));
    let post = Post::assemble(7, &p, &strings(&["http://dl/3"])).unwrap().unwrap();
    assert_eq!(post.content.id.as_deref(), Some("ABC-123"));
    assert_eq!(post.content.actress.as_deref(), Some("Jane"));
    assert_eq!(post.content.anmie_or_game_series, Some(strings(&["Naruto", "Bleach"])));
    assert_eq!(post.content.character_cosplay, Some(strings(&["Hinata", "Rukia"])));
    assert_eq!(post.parts, strings(&["http://x/part1/torrents", "http://dl/3"]));
}

#[test]
fn missing_aside_is_an_error() {
    let page = "<html><body><h1>x</h1></body></html>";
    assert_eq!(read_post_page(page).unwrap_err(), ScrapeError::MissingElement);
}

#[test]
fn download_link_is_the_button_target() {
    let page = r#"<p><a class="btn btn-primary btn-download" href="http://dl/1">get</a></p>"#;
    assert_eq!(read_download_link(page), Ok("http://dl/1".to_string()));
    let page = r#"<p><a class="btn btn-primary" href="http://dl/1">get</a></p>"#;
    assert_eq!(read_download_link(page), Err(ScrapeError::MissingElement));
}

#[test]
fn listing_entries_are_read_in_order() {
    let html = r#"<div id="main-section">
      <article><a href="http://cosplayjav.pl/1/a">A</a><div class="post-aside"><a>15 March 2019</a></div></article>
      <article><a>no target</a><div class="post-aside"></div></article>
    </div>"#;
    let entries = read_listing(html);
    assert_eq!(entries.len(), 2);
    assert_eq!(entries[0].url, Ok("http://cosplayjav.pl/1/a".to_string()));
    assert_eq!(entries[0].date, Ok("15 March 2019".to_string()));
    assert_eq!(entries[1].url, Err(ScrapeError::MissingAttribute));
    assert_eq!(entries[1].date, Err(ScrapeError::MissingElement));
}

#[test]
fn last_page_is_the_seventh_link() {
    let html = r#"<div id="pagination-elem"><a>1</a><a>2</a><a>3</a><a>4</a><a>5</a><a>...</a><a>57</a><a>next</a></div>"#;
    assert_eq!(read_last_page(html), Ok(57));
    let short = r#"<div id="pagination-elem"><a>1</a></div>"#;
    assert_eq!(read_last_page(short), Err(ScrapeError::MissingElement));
    assert_eq!(read_last_page("<p></p>"), Err(ScrapeError::MissingElement));
}

fn plain_labels() -> Labels {
    let l = |s: &str| s.to_string();
    Labels {
        post: l("Post"),
        title: l("Title"),
        post_type: l("Type"),
        cover: l("Cover"),
        likes: l("Likes"),
        content: l("Content"),
        parts: l("Parts"),
        part: l("Part"),
        id: l("Id"),
        content_title: l("Title"),
        alternative_title: l("Alternative title"),
        company: l("Company"),
        actress: l("Actress"),
        series: l("Anmie/Game eries"),
        character: l("Character cosplay"),
        info: l("Info"),
    }
}

fn sample_post() -> Post {
    let mut content = Content::new();
    content.id = Some("ABC".to_string());
    content.info = Some(strings(&["x", "y"]));
    Post {
        id: 12,
        likes: 3,
        title: "T".to_string(),
        cover: "C".to_string(),
        parts: strings(&["p1", "p2"]),
        post_type: PostType::OnlyImages,
        content,
    }
}

#[test]
fn post_prints_as_the_site_shows_it() {
    let text = sample_post().render_with(&plain_labels());
    let expected = "Post http://cosplayjav.pl/12:\n    Title: T\n    Type: Only Images\n    Cover: C\n    Likes: 3\n    Content:\n        Id: ABC\n        Info: x, y\n    Parts:\n        Part 1: p1\n        Part 2: p2";
    assert_eq!(text, expected);
}

#[test]
fn drawn_labels_show_their_names() {
    let l = Labels::drawn_now();
    assert!(l.post == "Post" || l.post == "\x1B[36mPost\x1B[0m");
    assert!(l.likes == "Likes" || l.likes == "\x1B[33mLikes\x1B[0m");
    let text = sample_post().render();
    assert!(text.contains("http://cosplayjav.pl/12:"));
    assert!(text.contains("Part"));
}

#[test]
fn db_row_wraps_large_numbers() {
    let mut p = sample_post();
    p.id = 3_000_000_000;
    let r = p.db_row();
    assert_eq!(r.post_id, 3_000_000_000u32 as i32);
    assert_eq!(r.post_type, 1);
    assert_eq!(r.post_parts, strings(&["p1", "p2"]));
    assert_eq!(r.content.id.as_deref(), Some("ABC"));
}

#[test]
fn headers_come_from_the_anti_bot_check() {
    assert_eq!(request_headers(200, None), Some(vec![]));
    assert_eq!(request_headers(200, Some(("c".to_string(), "u".to_string()))), Some(vec![]));
    assert_eq!(request_headers(503, None), None);
    assert_eq!(
        request_headers(503, Some(("c=1".to_string(), "Mozilla/5.0".to_string()))),
        Some(vec![
            ("cookie".to_string(), "c=1".to_string()),
            ("user-agent".to_string(), "Mozilla/5.0".to_string()),
        ])
    );
}
