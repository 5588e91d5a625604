//! The cosplayjav site: post types, post records, the info table and the parts list.

use vstd::prelude::*;

use crate::crawl::{last_page_number, last_page_of, ListingEntry};
use crate::dom::{
    all_attrs, all_texts, attrs_of, doc_attr, doc_attr_name, doc_class, doc_class_name, doc_name,
    find_attr, find_attr_name, find_class, find_class_name, find_class_name_in, find_name,
    find_name_in, find_name_name_in, first_attr, first_attr_of, first_text, first_text_of,
    node_class_name, node_name, node_name_name, node_text, text_of, text_result, texts_of,
    texts_result, Page,
};
use crate::error::ScrapeError;
use crate::sites::Setting;
use crate::paint::{cyan, cyan_start, shows, yellow, yellow_start};
use crate::text::{
    chars_of, contains, ends_with, ends_with_text, has_text, is_text, lines, lines_of,
    split_char, split_pieces, string_of, lemma_concat_assoc, strings_of, texts, rows, trim, trim_chars,
    trimmed_nonempty, trimmed_nonempty_exec, without_char, without_char_exec, owned,
};

verus! {

/// The kind of a post, read from the post's aside.
#[derive(Debug, Clone, Copy, PartialEq, Eq, Structural)]
pub enum PostType {
    CosplayVideos,
    OnlyImages,
    Premium,
    Wishlist,
}

impl PostType {
    /// The number under which a post type is stored.
    pub open spec fn code(self) -> i16 {
        match self {
            PostType::CosplayVideos => 0,
            PostType::OnlyImages => 1,
            PostType::Premium => 2,
            PostType::Wishlist => 3,
        }
    }

    /// The name under which a post type is shown.
    pub open spec fn label_spec(self) -> Seq<char> {
        match self {
            PostType::CosplayVideos => "Cosplay Videos"@,
            PostType::OnlyImages => "Only Images"@,
            PostType::Premium => "Premium"@,
            PostType::Wishlist => "WISHLIST"@,
        }
    }

    /// The type that an aside with text `s` announces: the first of "videos", "images"
    /// and "Premium" that occurs in it, and a wishlist entry when none does.
    pub open spec fn classify(s: Seq<char>) -> PostType {
        if contains(s, "videos"@) {
            PostType::CosplayVideos
        } else if contains(s, "images"@) {
            PostType::OnlyImages
        } else if contains(s, "Premium"@) {
            PostType::Premium
        } else {
            PostType::Wishlist
        }
    }

    /// Whether posts of this type list downloadable parts.
    pub open spec fn has_parts(self) -> bool {
        self == PostType::CosplayVideos || self == PostType::OnlyImages
    }

    /// The number under which this post type is stored.
    pub fn to_i16(&self) -> (r: i16)
        ensures
            r == self.code(),
    {
        match self {
            PostType::CosplayVideos => 0,
            PostType::OnlyImages => 1,
            PostType::Premium => 2,
            PostType::Wishlist => 3,
        }
    }

    /// The name under which this post type is shown.
    pub fn label(&self) -> (r: String)
        ensures
            r@ == self.label_spec(),
    {
        match self {
            PostType::CosplayVideos => owned("Cosplay Videos"),
            PostType::OnlyImages => owned("Only Images"),
            PostType::Premium => owned("Premium"),
            PostType::Wishlist => owned("WISHLIST"),
        }
    }

    /// The type announced by the aside text `aside`.
    pub fn from_aside(aside: &str) -> (r: PostType)
        ensures
            r == PostType::classify(aside@),
    {
        let s = chars_of(aside);
        if has_text(s.as_slice(), "videos") {
            PostType::CosplayVideos
        } else if has_text(s.as_slice(), "images") {
            PostType::OnlyImages
        } else if has_text(s.as_slice(), "Premium") {
            PostType::Premium
        } else {
            PostType::Wishlist
        }
    }

    /// Whether posts of this type list downloadable parts.
    pub fn lists_parts(&self) -> (r: bool)
        ensures
            r == self.has_parts(),
    {
        match self {
            PostType::CosplayVideos | PostType::OnlyImages => true,
            _ => false,
        }
    }
}

/// The value cell of a row of a post's info table: its text, and the texts of the links in it.
#[derive(Debug, Clone)]
pub struct InfoCell {
    pub text: String,
    pub links: Vec<String>,
}

/// The entries of a cell that lists several: the link texts if it has links; else its
/// lines if its text spans several lines; else the pieces of its text between slashes,
/// trimmed, the empty ones left out.
pub open spec fn multi_info(text: Seq<char>, links: Seq<Seq<char>>) -> Seq<Seq<char>> {
    if links.len() > 0 {
        links
    } else if contains(text, seq!['\n']) {
        lines(text)
    } else {
        trimmed_nonempty(split_char(text, '/'))
    }
}

impl InfoCell {
    /// The entries of this cell when it lists several.
    pub fn split_multi_info(&self) -> (r: Vec<String>)
        ensures
            texts(r@) == multi_info(self.text@, texts(self.links@)),
    {
        if self.links.len() > 0 {
            let r = self.links.clone();
            assert(texts(r@) =~= texts(self.links@)) by {
                assert forall|i: int| 0 <= i < r@.len() implies r@[i]@ == self.links@[i]@ by {
                    assert(cloned::<String>(self.links@[i], r@[i]));
                }
            }
            return r;
        }
        let t = chars_of(self.text.as_str());
        let nl: Vec<char> = vec!['\n'];
        assert(nl@ =~= seq!['\n']);
        if crate::text::contains_chars(t.as_slice(), nl.as_slice()) {
            let l = lines_of(t.as_slice());
            strings_of(&l)
        } else {
            let p = split_pieces(t.as_slice(), '/');
            let q = trimmed_nonempty_exec(&p);
            strings_of(&q)
        }
    }
}

/// A row of a post's info table: the key cell's text and the value cell.
#[derive(Debug, Clone)]
pub struct InfoRow {
    pub key: String,
    pub value: InfoCell,
}

/// The details a post's info table gives.
#[derive(Debug, Clone)]
pub struct Content {
    pub id: Option<String>,
    pub title: Option<String>,
    pub alternative_title: Option<String>,
    pub company: Option<String>,
    pub actress: Option<String>,
    pub in_premium_section_to: Option<String>,
    pub anmie_or_game_series: Option<Vec<String>>,
    pub character_cosplay: Option<Vec<String>>,
    pub info: Option<Vec<String>>,
}

/// The details of a post as mathematical values.
pub struct ContentView {
    pub id: Option<Seq<char>>,
    pub title: Option<Seq<char>>,
    pub alternative_title: Option<Seq<char>>,
    pub company: Option<Seq<char>>,
    pub actress: Option<Seq<char>>,
    pub in_premium_section_to: Option<Seq<char>>,
    pub anmie_or_game_series: Option<Seq<Seq<char>>>,
    pub character_cosplay: Option<Seq<Seq<char>>>,
    pub info: Option<Seq<Seq<char>>>,
}

/// The text of an optional string.
pub open spec fn opt_text(o: Option<String>) -> Option<Seq<char>> {
    match o {
        Some(s) => Some(s@),
        None => None,
    }
}

/// The texts of an optional list of strings.
pub open spec fn opt_texts(o: Option<Vec<String>>) -> Option<Seq<Seq<char>>> {
    match o {
        Some(v) => Some(texts(v@)),
        None => None,
    }
}

impl View for Content {
    type V = ContentView;

    open spec fn view(&self) -> ContentView {
        ContentView {
            id: opt_text(self.id),
            title: opt_text(self.title),
            alternative_title: opt_text(self.alternative_title),
            company: opt_text(self.company),
            actress: opt_text(self.actress),
            in_premium_section_to: opt_text(self.in_premium_section_to),
            anmie_or_game_series: opt_texts(self.anmie_or_game_series),
            character_cosplay: opt_texts(self.character_cosplay),
            info: opt_texts(self.info),
        }
    }
}

/// Details with nothing known.
pub open spec fn empty_content() -> ContentView {
    ContentView {
        id: None,
        title: None,
        alternative_title: None,
        company: None,
        actress: None,
        in_premium_section_to: None,
        anmie_or_game_series: None,
        character_cosplay: None,
        info: None,
    }
}

/// The key of a row as it is matched: its text without en dashes, trimmed.
pub open spec fn row_key(key: Seq<char>) -> Seq<char> {
    trim(without_char(key, '\u{2013}'))
}

/// The details after reading one row with key text `key` and value cell (`text`, `links`):
/// the field that the key names is set, a later row overriding an earlier one, and a row
/// with any other key changes nothing.
pub open spec fn apply_row(c: ContentView, key: Seq<char>, text: Seq<char>, links: Seq<Seq<char>>) -> ContentView {
    let k = row_key(key);
    if k == "ID"@ {
        ContentView { id: Some(text), ..c }
    } else if k == "TITLE"@ {
        ContentView { title: Some(text), ..c }
    } else if k == "ALTERNATIVE TITLE"@ {
        ContentView { alternative_title: Some(text), ..c }
    } else if k == "COMPANY"@ {
        ContentView { company: Some(text), ..c }
    } else if k == "ACTRESS"@ || k == "ACRESS"@ {
        ContentView { actress: Some(text), ..c }
    } else if contains(k, "PREMIUM"@) {
        ContentView { in_premium_section_to: Some(text), ..c }
    } else if k == "ANIME/GAME SERIES"@ {
        ContentView { anmie_or_game_series: Some(multi_info(text, links)), ..c }
    } else if k == "CHARACTER COSPLAY"@ {
        ContentView { character_cosplay: Some(multi_info(text, links)), ..c }
    } else if k == "INFO"@ {
        ContentView { info: Some(multi_info(text, links)), ..c }
    } else {
        c
    }
}

/// A row of the info table as mathematical values: the key text, the value text and the
/// texts of the value cell's links.
pub struct RowText {
    pub key: Seq<char>,
    pub text: Seq<char>,
    pub links: Seq<Seq<char>>,
}

/// A row as mathematical values.
pub open spec fn row_text(r: InfoRow) -> RowText {
    RowText { key: r.key@, text: r.value.text@, links: texts(r.value.links@) }
}

/// Rows as mathematical values.
pub open spec fn row_texts(rs: Seq<InfoRow>) -> Seq<RowText> {
    Seq::new(rs.len(), |i: int| row_text(rs[i]))
}

/// The details that a table with rows `rs` gives, read in order.
pub open spec fn content_of_rows(rs: Seq<RowText>) -> ContentView
    decreases rs.len(),
{
    if rs.len() == 0 {
        empty_content()
    } else {
        let r = rs.last();
        apply_row(content_of_rows(rs.drop_last()), r.key, r.text, r.links)
    }
}

impl Content {
    /// Details with nothing known.
    pub fn new() -> (c: Content)
        ensures
            c@ == empty_content(),
    {
        Content {
            id: None,
            title: None,
            alternative_title: None,
            company: None,
            actress: None,
            in_premium_section_to: None,
            anmie_or_game_series: None,
            character_cosplay: None,
            info: None,
        }
    }

    /// Reads one row of the info table into these details.
    pub fn apply_row(&mut self, row: &InfoRow)
        ensures
            final(self)@ == apply_row(old(self)@, row.key@, row.value.text@, texts(row.value.links@)),
    {
        let raw = chars_of(row.key.as_str());
        let dashless = without_char_exec(raw.as_slice(), '\u{2013}');
        let k = trim_chars(dashless.as_slice());
        let ks = k.as_slice();
        let text = row.value.text.clone();
        if is_text(ks, "ID") {
            self.id = Some(text);
        } else if is_text(ks, "TITLE") {
            self.title = Some(text);
        } else if is_text(ks, "ALTERNATIVE TITLE") {
            self.alternative_title = Some(text);
        } else if is_text(ks, "COMPANY") {
            self.company = Some(text);
        } else if is_text(ks, "ACTRESS") || is_text(ks, "ACRESS") {
            self.actress = Some(text);
        } else if has_text(ks, "PREMIUM") {
            self.in_premium_section_to = Some(text);
        } else if is_text(ks, "ANIME/GAME SERIES") {
            self.anmie_or_game_series = Some(row.value.split_multi_info());
        } else if is_text(ks, "CHARACTER COSPLAY") {
            self.character_cosplay = Some(row.value.split_multi_info());
        } else if is_text(ks, "INFO") {
            self.info = Some(row.value.split_multi_info());
        }
    }

    /// The details that an info table with rows `rows` gives.
    pub fn from_rows(rows: &Vec<InfoRow>) -> (c: Content)
        ensures
            c@ == content_of_rows(row_texts(rows@)),
    {
        let mut c = Content::new();
        let n = rows.len();
        let mut i: usize = 0;
        while i < n
            invariant
                i <= n,
                n == rows@.len(),
                c@ == content_of_rows(row_texts(rows@).take(i as int)),
            decreases n - i,
        {
            assert(row_texts(rows@).take(i + 1).drop_last() =~= row_texts(rows@).take(i as int));
            c.apply_row(&rows[i]);
            i = i + 1;
        }
        assert(row_texts(rows@).take(n as int) =~= row_texts(rows@));
        c
    }
}

/// What a link in a post's parts list points to.
#[derive(Debug, Clone, Copy, PartialEq, Eq, Structural)]
pub enum PartLink {
    /// A torrent, listed as it is.
    Torrent,
    /// An alternative source, left out.
    Alternative,
    /// A page that holds the download link.
    DownloadPage,
}

/// What the link `url` points to, by how it ends.
pub open spec fn part_link(url: Seq<char>) -> PartLink {
    if ends_with(url, "torrents"@) {
        PartLink::Torrent
    } else if ends_with(url, "alternative"@) {
        PartLink::Alternative
    } else {
        PartLink::DownloadPage
    }
}

/// The links among `urls` that point to `kind`, in order.
pub open spec fn links_of_kind(urls: Seq<Seq<char>>, kind: PartLink) -> Seq<Seq<char>>
    decreases urls.len(),
{
    if urls.len() == 0 {
        seq![]
    } else {
        let r = links_of_kind(urls.drop_last(), kind);
        if part_link(urls.last()) == kind {
            r.push(urls.last())
        } else {
            r
        }
    }
}

/// What the link `url` points to.
pub fn classify_part_link(url: &str) -> (r: PartLink)
    ensures
        r == part_link(url@),
{
    let u = chars_of(url);
    if ends_with_text(u.as_slice(), "torrents") {
        PartLink::Torrent
    } else if ends_with_text(u.as_slice(), "alternative") {
        PartLink::Alternative
    } else {
        PartLink::DownloadPage
    }
}

/// The links of a parts list, sorted: torrents are listed as they are, download pages
/// must be fetched for their link.
#[derive(Debug, Clone)]
pub struct PartsPlan {
    pub torrents: Vec<String>,
    pub download_pages: Vec<String>,
}

/// Sorts the links of a parts list, each keeping its place among those of its kind.
pub fn plan_parts(links: &Vec<String>) -> (r: PartsPlan)
    ensures
        texts(r.torrents@) == links_of_kind(texts(links@), PartLink::Torrent),
        texts(r.download_pages@) == links_of_kind(texts(links@), PartLink::DownloadPage),
{
    let mut torrents: Vec<String> = Vec::new();
    let mut pages: Vec<String> = Vec::new();
    let n = links.len();
    let mut i: usize = 0;
    while i < n
        invariant
            i <= n,
            n == links@.len(),
            texts(torrents@) == links_of_kind(texts(links@).take(i as int), PartLink::Torrent),
            texts(pages@) == links_of_kind(texts(links@).take(i as int), PartLink::DownloadPage),
        decreases n - i,
    {
        assert(texts(links@).take(i + 1).drop_last() =~= texts(links@).take(i as int));
        assert(texts(links@).take(i + 1).last() == links@[i as int]@);
        let kind = classify_part_link(links[i].as_str());
        let ghost t0 = texts(torrents@);
        let ghost p0 = texts(pages@);
        match kind {
            PartLink::Torrent => {
                torrents.push(links[i].clone());
                assert(texts(torrents@) =~= t0.push(links@[i as int]@));
            },
            PartLink::DownloadPage => {
                pages.push(links[i].clone());
                assert(texts(pages@) =~= p0.push(links@[i as int]@));
            },
            PartLink::Alternative => {},
        }
        i = i + 1;
    }
    assert(texts(links@).take(n as int) =~= texts(links@));
    PartsPlan { torrents, download_pages: pages }
}

/// What a post page shows, read from its markup; each part that may be missing holds the
/// error of reading it.
#[derive(Debug)]
pub struct PostPage {
    /// The text of the aside that announces the post type.
    pub aside: String,
    /// The targets of the links in the parts list, read only for types that list parts.
    pub part_links: Result<Vec<String>, ScrapeError>,
    /// The text of the likes counter.
    pub likes: Result<String, ScrapeError>,
    /// The text of the heading.
    pub title: Result<String, ScrapeError>,
    /// The address of the cover image.
    pub cover: Result<String, ScrapeError>,
    /// The rows of the info table that have a key and a value cell.
    pub info_rows: Result<Vec<InfoRow>, ScrapeError>,
}

/// Rows as mathematical values.
pub open spec fn rows_result(r: Result<Vec<InfoRow>, ScrapeError>) -> Result<Seq<RowText>, ScrapeError> {
    match r {
        Ok(v) => Ok(row_texts(v@)),
        Err(e) => Err(e),
    }
}

/// A post of the site.
#[derive(Debug, Clone)]
pub struct Post {
    pub id: u32,
    pub likes: u32,
    pub title: String,
    pub cover: String,
    pub parts: Vec<String>,
    pub post_type: PostType,
    pub content: Content,
}

/// A post as mathematical values.
pub struct PostView {
    pub id: u32,
    pub likes: u32,
    pub title: Seq<char>,
    pub cover: Seq<char>,
    pub parts: Seq<Seq<char>>,
    pub post_type: PostType,
    pub content: ContentView,
}

impl View for Post {
    type V = PostView;

    open spec fn view(&self) -> PostView {
        PostView {
            id: self.id,
            likes: self.likes,
            title: self.title@,
            cover: self.cover@,
            parts: texts(self.parts@),
            post_type: self.post_type,
            content: self.content@,
        }
    }
}

/// The parts of a post of type `t` whose parts list links to `links` and whose download
/// pages gave `downloads`: the torrents first, then the downloads; none for a type
/// without parts.
pub open spec fn post_parts(t: PostType, links: Seq<Seq<char>>, downloads: Seq<Seq<char>>) -> Seq<Seq<char>> {
    if t.has_parts() {
        links_of_kind(links, PartLink::Torrent) + downloads
    } else {
        seq![]
    }
}

/// The post that `page` shows under number `id`, its download pages having given
/// `downloads`, read in the order of the page: the type; the parts, of which there must be
/// some when the type lists parts (else there is no post); the likes, which must be a
/// number; the title; the cover; the details.
pub open spec fn post_of_page(id: u32, page: PostPage, downloads: Seq<Seq<char>>) -> Result<Option<PostView>, ScrapeError> {
    let t = PostType::classify(page.aside@);
    let parts_r: Result<Seq<Seq<char>>, ScrapeError> = if t.has_parts() {
        match crate::dom::texts_result(page.part_links) {
            Ok(links) => Ok(post_parts(t, links, downloads)),
            Err(e) => Err(e),
        }
    } else {
        Ok(seq![])
    };
    match parts_r {
        Err(e) => Err(e),
        Ok(parts) => if t.has_parts() && parts.len() == 0 {
            Ok(None)
        } else {
            match crate::dom::text_result(page.likes) {
                Err(e) => Err(e),
                Ok(l) => match crate::text::parse_u32_spec(l) {
                    None => Err(ScrapeError::NotANumber),
                    Some(likes) => match crate::dom::text_result(page.title) {
                        Err(e) => Err(e),
                        Ok(title) => match crate::dom::text_result(page.cover) {
                            Err(e) => Err(e),
                            Ok(cover) => match rows_result(page.info_rows) {
                                Err(e) => Err(e),
                                Ok(rs) => Ok(Some(PostView {
                                    id,
                                    likes,
                                    title,
                                    cover,
                                    parts,
                                    post_type: t,
                                    content: content_of_rows(rs),
                                })),
                            },
                        },
                    },
                },
            }
        },
    }
}

/// A result holding a post, as mathematical values.
pub open spec fn post_result_view(r: Result<Option<Post>, ScrapeError>) -> Result<Option<PostView>, ScrapeError> {
    match r {
        Ok(Some(p)) => Ok(Some(p@)),
        Ok(None) => Ok(None),
        Err(e) => Err(e),
    }
}

/// Appends clones of the strings of `b` to `a`.
fn append_strings(a: &mut Vec<String>, b: &Vec<String>)
    ensures
        texts(final(a)@) == texts(old(a)@) + texts(b@),
{
    let n = b.len();
    let mut i: usize = 0;
    let ghost start = texts(a@);
    while i < n
        invariant
            i <= n,
            n == b@.len(),
            texts(a@) == start + texts(b@).take(i as int),
        decreases n - i,
    {
        let ghost before = texts(a@);
        a.push(b[i].clone());
        assert(texts(a@) =~= before.push(b@[i as int]@));
        assert(texts(b@).take(i + 1) =~= texts(b@).take(i as int).push(b@[i as int]@));
        i = i + 1;
    }
    assert(texts(b@).take(n as int) =~= texts(b@));
}

impl Post {
    /// The post that `page` shows under number `id`, given the links that its download
    /// pages gave, in the order of `plan_parts`.
    pub fn assemble(id: u32, page: &PostPage, downloads: &Vec<String>) -> (r: Result<Option<Post>, ScrapeError>)
        ensures
            post_result_view(r) == post_of_page(id, *page, texts(downloads@)),
    {
        let post_type = PostType::from_aside(page.aside.as_str());
        let mut parts: Vec<String> = Vec::new();
        if post_type.lists_parts() {
            let links = match &page.part_links {
                Ok(l) => l,
                Err(e) => {
                    return Err(*e);
                },
            };
            let plan = plan_parts(links);
            append_strings(&mut parts, &plan.torrents);
            append_strings(&mut parts, downloads);
            if parts.len() == 0 {
                return Ok(None);
            }
        }
        assert(texts(parts@) =~= post_parts(post_type, texts(page.part_links->Ok_0@), texts(downloads@))
            || !post_type.has_parts());
        assert(!post_type.has_parts() ==> texts(parts@) =~= seq![]);
        let likes_text = match &page.likes {
            Ok(l) => l,
            Err(e) => {
                return Err(*e);
            },
        };
        let likes_chars = chars_of(likes_text.as_str());
        let likes = match crate::text::parse_u32_chars(likes_chars.as_slice()) {
            Some(n) => n,
            None => {
                return Err(ScrapeError::NotANumber);
            },
        };
        let title = match &page.title {
            Ok(t) => t.clone(),
            Err(e) => {
                return Err(*e);
            },
        };
        let cover = match &page.cover {
            Ok(c) => c.clone(),
            Err(e) => {
                return Err(*e);
            },
        };
        let content = match &page.info_rows {
            Ok(rows) => Content::from_rows(rows),
            Err(e) => {
                return Err(*e);
            },
        };
        Ok(Some(Post { id, likes, title, cover, parts, post_type, content }))
    }
}

/// The number (1 for January to 12 for December) of the month called `name`, if it is one.
pub open spec fn month_number(name: Seq<char>) -> Option<u32> {
    if name == "January"@ {
        Some(1)
    } else if name == "February"@ {
        Some(2)
    } else if name == "March"@ {
        Some(3)
    } else if name == "April"@ {
        Some(4)
    } else if name == "May"@ {
        Some(5)
    } else if name == "June"@ {
        Some(6)
    } else if name == "July"@ {
        Some(7)
    } else if name == "August"@ {
        Some(8)
    } else if name == "September"@ {
        Some(9)
    } else if name == "October"@ {
        Some(10)
    } else if name == "November"@ {
        Some(11)
    } else if name == "December"@ {
        Some(12)
    } else {
        None
    }
}

/// The date `year`, `month`, `day` in the form `[year][month][day]` with two-digit month and
/// day (20190101 for the first of January 2019), if it fits in a `u32`.
pub open spec fn date_number(year: u32, month: u32, day: u32) -> Option<u32> {
    let n = year * 10000 + month * 100 + day;
    if n <= u32::MAX {
        Some(n as u32)
    } else {
        None
    }
}

/// The date of a listing entry whose date reads `text` ("day Month year", separated by
/// single spaces), in the form `[year][month][day]`: year * 10000 + month * 100 + day.
pub open spec fn listing_date(text: Seq<char>) -> Result<u32, ScrapeError> {
    let p = split_char(text, ' ');
    if p.len() < 2 {
        Err(ScrapeError::MissingElement)
    } else {
        match month_number(p[1]) {
            None => Err(ScrapeError::UnknownMonth),
            Some(m) => if p.len() < 3 {
                Err(ScrapeError::MissingElement)
            } else {
                match (crate::text::parse_u32_spec(p[2]), crate::text::parse_u32_spec(p[0])) {
                    (Some(y), Some(d)) => match date_number(y, m, d) {
                        Some(n) => Ok(n),
                        None => Err(ScrapeError::NotANumber),
                    },
                    _ => Err(ScrapeError::NotANumber),
                }
            },
        }
    }
}

/// The number of the month called `name`, if it is one.
fn month_number_exec(name: &[char]) -> (r: Option<u32>)
    ensures
        r == month_number(name@),
{
    if is_text(name, "January") {
        Some(1)
    } else if is_text(name, "February") {
        Some(2)
    } else if is_text(name, "March") {
        Some(3)
    } else if is_text(name, "April") {
        Some(4)
    } else if is_text(name, "May") {
        Some(5)
    } else if is_text(name, "June") {
        Some(6)
    } else if is_text(name, "July") {
        Some(7)
    } else if is_text(name, "August") {
        Some(8)
    } else if is_text(name, "September") {
        Some(9)
    } else if is_text(name, "October") {
        Some(10)
    } else if is_text(name, "November") {
        Some(11)
    } else if is_text(name, "December") {
        Some(12)
    } else {
        None
    }
}

/// The date `year`, `month`, `day` as `[year][month][day]`, if it fits in a `u32`.
pub fn date_number_exec(year: u32, month: u32, day: u32) -> (r: Option<u32>)
    ensures
        r == date_number(year, month, day),
{
    let n: u64 = year as u64 * 10000 + month as u64 * 100 + day as u64;
    if n <= u32::MAX as u64 {
        Some(n as u32)
    } else {
        None
    }
}

/// The date of a listing entry whose date reads `text`.
pub fn parse_listing_date(text: &str) -> (r: Result<u32, ScrapeError>)
    ensures
        r == listing_date(text@),
{
    let t = chars_of(text);
    let p = split_pieces(t.as_slice(), ' ');
    if p.len() < 2 {
        return Err(ScrapeError::MissingElement);
    }
    assert(rows(p@)[1] == p@[1]@);
    let m = match month_number_exec(p[1].as_slice()) {
        Some(m) => m,
        None => {
            return Err(ScrapeError::UnknownMonth);
        },
    };
    if p.len() < 3 {
        return Err(ScrapeError::MissingElement);
    }
    assert(rows(p@)[0] == p@[0]@);
    assert(rows(p@)[2] == p@[2]@);
    let year = crate::text::parse_u32_chars(p[2].as_slice());
    let day = crate::text::parse_u32_chars(p[0].as_slice());
    match (year, day) {
        (Some(y), Some(d)) => match date_number_exec(y, m, d) {
            Some(n) => Ok(n),
            None => Err(ScrapeError::NotANumber),
        },
        _ => Err(ScrapeError::NotANumber),
    }
}

/// The site's home page.
pub const HOMEPAGE: &'static str = "http://cosplayjav.pl";

/// The address of the listing pages, to which the page number is appended.
pub const POSTS_PAGE: &'static str = "http://cosplayjav.pl/page/";

/// The status with which the home page answers when it shows an anti-bot check.
pub const CHALLENGE_STATUS: u16 = 503;

/// Whether the home page, answering with `status`, asks for the anti-bot check to be passed.
pub fn needs_bypass(status: u16) -> (r: bool)
    ensures
        r == (status == CHALLENGE_STATUS),
{
    status == CHALLENGE_STATUS
}

/// The request headers (name and value) that every request to the site carries, once the
/// home page has answered with `status`, and `bypass` holds the cookie and the user agent
/// that passing the anti-bot check gave, if it was passed: no headers when the home page
/// asks for no check; the cookie and the user agent when it asks for one and it was passed;
/// none yet (`None`) while the check is still to be passed.
pub fn request_headers(status: u16, bypass: Option<(String, String)>) -> (r: Option<Vec<(String, String)>>)
    ensures
        status != CHALLENGE_STATUS ==> (r matches Some(h) && h@.len() == 0),
        status == CHALLENGE_STATUS ==> match bypass {
            None => r is None,
            Some((cookie, agent)) => {
                &&& r matches Some(h)
                &&& h@.len() == 2
                &&& h@[0].0@ == "cookie"@
                &&& h@[0].1@ == cookie@
                &&& h@[1].0@ == "user-agent"@
                &&& h@[1].1@ == agent@
            },
        },
{
    if status != CHALLENGE_STATUS {
        return Some(Vec::new());
    }
    match bypass {
        None => None,
        Some((cookie, agent)) => {
            let mut h: Vec<(String, String)> = Vec::new();
            h.push((owned("cookie"), cookie));
            h.push((owned("user-agent"), agent));
            Some(h)
        },
    }
}

/// The crawler settings for the site, with the request headers (name and value) that every
/// request carries.
#[derive(Debug)]
pub struct Cosplayjav {
    pub database: bool,
    pub verbose: bool,
    pub thread: u32,
    pub after: Option<u32>,
    pub recent: Option<u32>,
    pub likes: std::collections::HashSet<u32>,
    pub views: std::collections::HashSet<u32>,
    pub headers: Vec<(String, String)>,
}

impl Cosplayjav {
    /// Settings that print each post, read one post at a time, with no date or count
    /// limit, sending `headers` with every request.
    pub fn new(headers: Vec<(String, String)>) -> (c: Cosplayjav)
        ensures
            !c.database,
            c.verbose,
            c.thread == 1,
            c.after is None,
            c.recent is None,
            c.likes@ == Set::<u32>::empty(),
            c.views@ == Set::<u32>::empty(),
            c.headers == headers,
    {
        Cosplayjav {
            database: false,
            verbose: true,
            thread: 1,
            after: None,
            recent: None,
            likes: std::collections::HashSet::new(),
            views: std::collections::HashSet::new(),
            headers,
        }
    }

    /// Whether posts are saved to the database.
    pub fn is_database(&self) -> (r: bool)
        ensures
            r == self.database,
    {
        self.database
    }

    /// Whether posts are printed.
    pub fn is_verbose(&self) -> (r: bool)
        ensures
            r == self.verbose,
    {
        self.verbose
    }

    /// These settings after the change `c`; every other field stays as it is.
    pub open spec fn with_setting(self, c: Setting) -> Cosplayjav {
        match c {
            Setting::Database => Cosplayjav { database: true, ..self },
            Setting::Silent => Cosplayjav { verbose: false, ..self },
            Setting::Thread(n) => Cosplayjav { thread: n, ..self },
            Setting::After(d) => Cosplayjav { after: Some(d), ..self },
            Setting::Recent(n) => Cosplayjav { recent: Some(n), ..self },
        }
    }

    /// These settings after the changes `cs`, made in order.
    pub open spec fn with_settings(self, cs: Seq<Setting>) -> Cosplayjav
        decreases cs.len(),
    {
        if cs.len() == 0 {
            self
        } else {
            self.with_settings(cs.drop_last()).with_setting(cs.last())
        }
    }

    /// Saves posts to the database from now on.
    pub fn database(&mut self)
        ensures
            final(self).database,
            *final(self) == old(self).with_setting(Setting::Database),
    {
        self.database = true;
    }

    /// Stops printing posts.
    pub fn silent(&mut self)
        ensures
            !final(self).verbose,
            *final(self) == old(self).with_setting(Setting::Silent),
    {
        self.verbose = false;
    }

    /// Reads `num` posts at a time.
    pub fn thread(&mut self, num: u32)
        ensures
            final(self).thread == num,
            *final(self) == old(self).with_setting(Setting::Thread(num)),
    {
        self.thread = num;
    }

    /// Stops at the first listed post dated before `date`.
    pub fn after(&mut self, date: u32)
        ensures
            final(self).after == Some(date),
            *final(self) == old(self).with_setting(Setting::After(date)),
    {
        self.after = Some(date);
    }

    /// Reads only the first `num` posts of the crawl, over all listing pages.
    pub fn recent(&mut self, num: u32)
        ensures
            final(self).recent == Some(num),
            *final(self) == old(self).with_setting(Setting::Recent(num)),
    {
        self.recent = Some(num);
    }

    /// A crawl with these settings that has read no listing page yet; the date limit stops
    /// the crawl at the first older listed post.
    pub fn crawl(&self) -> (c: crate::crawl::Crawl)
        ensures
            c.wf(),
            c.pages@ == Seq::<Seq<ListingEntry>>::empty(),
            c.thread == self.thread,
            c.after == self.after,
            c.recent == self.recent,
            c.taken == 0,
            c.end == crate::crawl::PageEnd::Continue,
    {
        crate::crawl::Crawl::new(self.thread, self.after, self.recent)
    }

    /// The addresses of the listing pages to fetch when the last one is numbered `last_page`.
    pub fn listing_urls(&self, last_page: u32) -> (r: Vec<String>)
        ensures
            texts(r@) == crate::crawl::listing_urls(POSTS_PAGE@, last_page),
    {
        crate::crawl::listing_page_urls(POSTS_PAGE, last_page)
    }
}

/// The expression whose first group captures the post number in a post's address.
pub const ID_PATTERN: &'static str = "cosplayjav.pl/(\\d+)";

/// The number of the post at `url`.
pub fn post_id(url: &str) -> (r: Result<u32, ScrapeError>)
    ensures
        r == crate::pattern::id_of_capture(crate::pattern::regex_capture(ID_PATTERN@, url@, 1)),
{
    crate::pattern::post_id(ID_PATTERN, url)
}

/// The row that table row `tr` gives: none when it has fewer than two cells; else its
/// first cell's text, its second cell's text and the texts of the links in that cell.
pub open spec fn row_of_tr(html: Seq<char>, tr: usize) -> Result<Option<RowText>, ScrapeError> {
    let tds = node_name(html, tr, "td"@);
    if tds.len() < 2 {
        Ok(None)
    } else {
        match node_text(html, tds[0]) {
            None => Err(ScrapeError::MissingElement),
            Some(k) => match node_text(html, tds[1]) {
                None => Err(ScrapeError::MissingElement),
                Some(v) => match texts_of(html, node_name(html, tds[1], "a"@)) {
                    Err(e) => Err(e),
                    Ok(links) => Ok(Some(RowText { key: k, text: v, links })),
                },
            },
        }
    }
}

/// The rows that table rows `trs` give, in order.
pub open spec fn rows_of_trs(html: Seq<char>, trs: Seq<usize>) -> Result<Seq<RowText>, ScrapeError>
    decreases trs.len(),
{
    if trs.len() == 0 {
        Ok(seq![])
    } else {
        match rows_of_trs(html, trs.drop_last()) {
            Err(e) => Err(e),
            Ok(rs) => match row_of_tr(html, trs.last()) {
                Err(e) => Err(e),
                Ok(None) => Ok(rs),
                Ok(Some(r)) => Ok(rs.push(r)),
            },
        }
    }
}

/// The rows of the info table: those of the table rows inside the first element with class
/// `item-info`; none when there is no such element.
pub open spec fn info_rows_of(html: Seq<char>) -> Result<Seq<RowText>, ScrapeError> {
    let boxes = doc_class(html, "item-info"@);
    if boxes.len() == 0 {
        Ok(seq![])
    } else {
        rows_of_trs(html, node_name_name(html, boxes[0], "table"@, "tr"@))
    }
}

/// The row that table row `tr` gives.
fn read_row(page: &Page, tr: usize) -> (r: Result<Option<InfoRow>, ScrapeError>)
    ensures
        match r {
            Ok(Some(row)) => row_of_tr(page.source(), tr) == Ok::<Option<RowText>, ScrapeError>(Some(row_text(row))),
            Ok(None) => row_of_tr(page.source(), tr) == Ok::<Option<RowText>, ScrapeError>(None),
            Err(e) => row_of_tr(page.source(), tr) == Err::<Option<RowText>, ScrapeError>(e),
        },
{
    let tds = find_name_in(page, tr, "td");
    if tds.len() < 2 {
        return Ok(None);
    }
    let key = match text_of(page, tds[0]) {
        Some(k) => k,
        None => {
            return Err(ScrapeError::MissingElement);
        },
    };
    let text = match text_of(page, tds[1]) {
        Some(v) => v,
        None => {
            return Err(ScrapeError::MissingElement);
        },
    };
    let anchors = find_name_in(page, tds[1], "a");
    let links = all_texts(page, &anchors)?;
    Ok(Some(InfoRow { key, value: InfoCell { text, links } }))
}

/// The rows of the page's info table.
fn read_info_rows(page: &Page) -> (r: Result<Vec<InfoRow>, ScrapeError>)
    ensures
        rows_result(r) == info_rows_of(page.source()),
{
    let boxes = find_class(page, "item-info");
    if boxes.len() == 0 {
        let v: Vec<InfoRow> = Vec::new();
        assert(row_texts(v@) =~= seq![]);
        return Ok(v);
    }
    let trs = find_name_name_in(page, boxes[0], "table", "tr");
    let ghost html = page.source();
    let mut out: Vec<InfoRow> = Vec::new();
    let n = trs.len();
    let mut i: usize = 0;
    assert(trs@.take(0) =~= seq![]);
    assert(row_texts(out@) =~= seq![]);
    while i < n
        invariant
            i <= n,
            n == trs@.len(),
            html == page.source(),
            boxes@ == doc_class(html, "item-info"@),
            boxes@.len() > 0,
            trs@ == node_name_name(html, boxes@[0], "table"@, "tr"@),
            rows_of_trs(html, trs@.take(i as int)) == Ok::<Seq<RowText>, ScrapeError>(row_texts(out@)),
        decreases n - i,
    {
        assert(trs@.take(i + 1).drop_last() =~= trs@.take(i as int));
        match read_row(page, trs[i]) {
            Ok(Some(row)) => {
                let ghost before = row_texts(out@);
                let ghost rt = row_text(row);
                out.push(row);
                assert(row_texts(out@) =~= before.push(rt));
            },
            Ok(None) => {},
            Err(e) => {
                assert(trs@.take(i + 1).last() == trs@[i as int]);
                assert(rows_of_trs(html, trs@.take(i + 1)) == Err::<Seq<RowText>, ScrapeError>(e));
                proof { lemma_rows_failed(html, trs@, (i + 1) as int); }
                return Err(e);
            },
        }
        i = i + 1;
    }
    assert(trs@.take(n as int) =~= trs@);
    Ok(out)
}

/// Once reading rows has failed, later rows change nothing.
proof fn lemma_rows_failed(html: Seq<char>, trs: Seq<usize>, k: int)
    requires
        0 <= k <= trs.len(),
        rows_of_trs(html, trs.take(k)) is Err,
    ensures
        rows_of_trs(html, trs) == rows_of_trs(html, trs.take(k)),
    decreases trs.len() - k,
{
    if k < trs.len() {
        assert(trs.take(k + 1).drop_last() =~= trs.take(k));
        lemma_rows_failed(html, trs, k + 1);
    } else {
        assert(trs.take(k) =~= trs);
    }
}

/// Reads a post page: the text of the first element with class `post-aside` (which must be
/// there); for a type that lists parts, the `href` of each link inside an element with class
/// `item-parts`; the text of the first element with class `favourites-li`; the text of the
/// first `h1`; the `src` of the first image inside an element with class `post-thumb`; the
/// rows of the info table.
pub fn read_post_page(html: &str) -> (r: Result<PostPage, ScrapeError>)
    ensures
        match r {
            Err(e) => first_text_of(html@, doc_class(html@, "post-aside"@)) == Err::<Seq<char>, ScrapeError>(e),
            Ok(p) => {
                &&& first_text_of(html@, doc_class(html@, "post-aside"@)) == Ok::<Seq<char>, ScrapeError>(p.aside@)
                &&& texts_result(p.part_links) == if PostType::classify(p.aside@).has_parts() {
                    attrs_of(html@, doc_class_name(html@, "item-parts"@, "a"@), "href"@)
                } else {
                    Ok(seq![])
                }
                &&& text_result(p.likes) == first_text_of(html@, doc_class(html@, "favourites-li"@))
                &&& text_result(p.title) == first_text_of(html@, doc_name(html@, "h1"@))
                &&& text_result(p.cover) == first_attr_of(html@, doc_class_name(html@, "post-thumb"@, "img"@), "src"@)
                &&& rows_result(p.info_rows) == info_rows_of(html@)
            },
        },
{
    let parsed = Page::parse(html);
    let page = &parsed;
    let asides = find_class(page, "post-aside");
    let aside = first_text(page, &asides)?;
    let post_type = PostType::from_aside(aside.as_str());
    let part_links = if post_type.lists_parts() {
        let anchors = find_class_name(page, "item-parts", "a");
        all_attrs(page, &anchors, "href")
    } else {
        let v: Vec<String> = Vec::new();
        assert(texts(v@) =~= seq![]);
        Ok(v)
    };
    let counters = find_class(page, "favourites-li");
    let likes = first_text(page, &counters);
    let headings = find_name(page, "h1");
    let title = first_text(page, &headings);
    let thumbs = find_class_name(page, "post-thumb", "img");
    let cover = first_attr(page, &thumbs, "src");
    let info_rows = read_info_rows(page);
    Ok(PostPage { aside, part_links, likes, title, cover, info_rows })
}

/// The download link of a download page: the `href` of the first element whose class is
/// exactly "btn btn-primary btn-download".
pub fn read_download_link(html: &str) -> (r: Result<String, ScrapeError>)
    ensures
        text_result(r) == first_attr_of(
            html@,
            doc_attr(html@, "class"@, "btn btn-primary btn-download"@),
            "href"@,
        ),
{
    let parsed = Page::parse(html);
    let page = &parsed;
    let buttons = find_attr(page, "class", "btn btn-primary btn-download");
    first_attr(page, &buttons, "href")
}

/// The entries of a listing page: for each article inside the element with id
/// `main-section`, the text of the first link inside its `post-aside`, and the `href` of
/// its first link.
pub fn read_listing(html: &str) -> (r: Vec<ListingEntry>)
    ensures
        ({
            let arts = doc_attr_name(html@, "id"@, "main-section"@, "article"@);
            &&& r@.len() == arts.len()
            &&& forall|i: int| #![trigger r@[i]] 0 <= i < arts.len() ==> {
                &&& text_result(r@[i].date) == first_text_of(html@, node_class_name(html@, arts[i], "post-aside"@, "a"@))
                &&& text_result(r@[i].url) == first_attr_of(html@, node_name(html@, arts[i], "a"@), "href"@)
            }
        }),
{
    let parsed = Page::parse(html);
    let page = &parsed;
    let arts = find_attr_name(page, "id", "main-section", "article");
    let mut out: Vec<ListingEntry> = Vec::new();
    let n = arts.len();
    let mut i: usize = 0;
    while i < n
        invariant
            i <= n,
            n == arts@.len(),
            arts@ == doc_attr_name(page.source(), "id"@, "main-section"@, "article"@),
            out@.len() == i,
            forall|k: int| #![trigger out@[k]] 0 <= k < i ==> {
                &&& text_result(out@[k].date) == first_text_of(page.source(), node_class_name(page.source(), arts@[k], "post-aside"@, "a"@))
                &&& text_result(out@[k].url) == first_attr_of(page.source(), node_name(page.source(), arts@[k], "a"@), "href"@)
            },
        decreases n - i,
    {
        let dates = find_class_name_in(page, arts[i], "post-aside", "a");
        let date = first_text(page, &dates);
        let anchors = find_name_in(page, arts[i], "a");
        let url = first_attr(page, &anchors, "href");
        out.push(ListingEntry { date, url });
        i = i + 1;
    }
    out
}

/// The number of the last listing page: the seventh link's text inside the element with id
/// `pagination-elem`.
pub fn read_last_page(html: &str) -> (r: Result<u32, ScrapeError>)
    ensures
        ({
            let boxes = doc_attr(html@, "id"@, "pagination-elem"@);
            r == if boxes.len() == 0 {
                Err(ScrapeError::MissingElement)
            } else {
                last_page_of(html@, node_name(html@, boxes[0], "a"@))
            }
        }),
{
    let parsed = Page::parse(html);
    let page = &parsed;
    let boxes = find_attr(page, "id", "pagination-elem");
    if boxes.len() == 0 {
        return Err(ScrapeError::MissingElement);
    }
    let links = find_name_in(page, boxes[0], "a");
    last_page_number(page, &links)
}

/// The labels under which a post is printed, as drawn (coloured or not).
#[derive(Debug, Clone)]
pub struct Labels {
    pub post: String,
    pub title: String,
    pub post_type: String,
    pub cover: String,
    pub likes: String,
    pub content: String,
    pub parts: String,
    pub part: String,
    pub id: String,
    pub content_title: String,
    pub alternative_title: String,
    pub company: String,
    pub actress: String,
    pub series: String,
    pub character: String,
    pub info: String,
}

impl Labels {
    /// Each label shows its name: "Post" and the labels of the details and parts in cyan,
    /// the others in yellow.
    pub open spec fn drawn(&self) -> bool {
        &&& shows(self.post@, "Post"@, cyan_start())
        &&& shows(self.title@, "Title"@, yellow_start())
        &&& shows(self.post_type@, "Type"@, yellow_start())
        &&& shows(self.cover@, "Cover"@, yellow_start())
        &&& shows(self.likes@, "Likes"@, yellow_start())
        &&& shows(self.content@, "Content"@, yellow_start())
        &&& shows(self.parts@, "Parts"@, yellow_start())
        &&& shows(self.part@, "Part"@, cyan_start())
        &&& shows(self.id@, "Id"@, cyan_start())
        &&& shows(self.content_title@, "Title"@, cyan_start())
        &&& shows(self.alternative_title@, "Alternative title"@, cyan_start())
        &&& shows(self.company@, "Company"@, cyan_start())
        &&& shows(self.actress@, "Actress"@, cyan_start())
        &&& shows(self.series@, "Anmie/Game eries"@, cyan_start())
        &&& shows(self.character@, "Character cosplay"@, cyan_start())
        &&& shows(self.info@, "Info"@, cyan_start())
    }

    /// The labels drawn by the `colored` crate.
    pub fn drawn_now() -> (l: Labels)
        ensures
            l.drawn(),
    {
        proof {
            reveal_strlit("Post");
            reveal_strlit("Title");
            reveal_strlit("Type");
            reveal_strlit("Cover");
            reveal_strlit("Likes");
            reveal_strlit("Content");
            reveal_strlit("Parts");
            reveal_strlit("Part");
            reveal_strlit("Id");
            reveal_strlit("Alternative title");
            reveal_strlit("Company");
            reveal_strlit("Actress");
            reveal_strlit("Anmie/Game eries");
            reveal_strlit("Character cosplay");
            reveal_strlit("Info");
        }
        Labels {
            post: cyan("Post"),
            title: yellow("Title"),
            post_type: yellow("Type"),
            cover: yellow("Cover"),
            likes: yellow("Likes"),
            content: yellow("Content"),
            parts: yellow("Parts"),
            part: cyan("Part"),
            id: cyan("Id"),
            content_title: cyan("Title"),
            alternative_title: cyan("Alternative title"),
            company: cyan("Company"),
            actress: cyan("Actress"),
            series: cyan("Anmie/Game eries"),
            character: cyan("Character cosplay"),
            info: cyan("Info"),
        }
    }
}

/// The line that shows detail `v` under `label`; none when the detail is unknown.
pub open spec fn detail_line(label: Seq<char>, v: Option<Seq<char>>) -> Seq<char> {
    match v {
        Some(t) => "        "@ + label + ": "@ + t + "\n"@,
        None => seq![],
    }
}

/// The line that shows the list detail `v` under `label`, its entries separated by commas;
/// none when the detail is unknown.
pub open spec fn list_line(label: Seq<char>, v: Option<Seq<Seq<char>>>) -> Seq<char> {
    match v {
        Some(l) => "        "@ + label + ": "@ + crate::text::join(l, ", "@) + "\n"@,
        None => seq![],
    }
}

/// The lines that show the details `c`: id, title, alternative title, company, actress,
/// series, characters and info, each when known.
pub open spec fn content_text(c: ContentView, l: Labels) -> Seq<char> {
    detail_line(l.id@, c.id) + detail_line(l.content_title@, c.title) + detail_line(
        l.alternative_title@,
        c.alternative_title,
    ) + detail_line(l.company@, c.company) + detail_line(l.actress@, c.actress) + list_line(
        l.series@,
        c.anmie_or_game_series,
    ) + list_line(l.character@, c.character_cosplay) + list_line(l.info@, c.info)
}

/// The line that shows part number `i` (counted from 0) at `part`.
pub open spec fn part_line(label: Seq<char>, i: int, part: Seq<char>) -> Seq<char> {
    "        "@ + label + " "@ + crate::text::decimal((i + 1) as nat) + ": "@ + part
}

/// The lines that show the parts, one per part.
pub open spec fn part_lines(label: Seq<char>, parts: Seq<Seq<char>>) -> Seq<Seq<char>> {
    Seq::new(parts.len(), |i: int| part_line(label, i, parts[i]))
}

/// The first lines of a printed post: its address, title, type, cover and likes, then the
/// heading of its details.
pub open spec fn post_head(p: PostView, l: Labels) -> Seq<char> {
    l.post@ + " http://cosplayjav.pl/"@ + crate::text::decimal(p.id as nat) + ":\n    "@ + l.title@ + ": "@
        + p.title + "\n    "@ + l.post_type@ + ": "@ + p.post_type.label_spec() + "\n    "@ + l.cover@
        + ": "@ + p.cover + "\n    "@ + l.likes@ + ": "@ + crate::text::decimal(p.likes as nat)
        + "\n    "@ + l.content@ + ":\n"@
}

/// The last lines of a printed post: the heading of its parts, then one line per part.
pub open spec fn post_tail(p: PostView, l: Labels) -> Seq<char> {
    "    "@ + l.parts@ + ":\n"@ + crate::text::join(part_lines(l.part@, p.parts), "\n"@)
}

/// How a post is printed: its address, title, type, cover, likes, details and parts.
pub open spec fn post_text(p: PostView, l: Labels) -> Seq<char> {
    post_head(p, l) + content_text(p.content, l) + post_tail(p, l)
}

/// Appends `lit` to `out`.
fn push_lit(out: &mut Vec<char>, lit: &str)
    ensures
        final(out)@ == old(out)@ + lit@,
{
    let c = chars_of(lit);
    crate::text::push_all(out, c.as_slice());
}

/// Appends `s` to `out`.
fn push_str(out: &mut Vec<char>, s: &String)
    ensures
        final(out)@ == old(out)@ + s@,
{
    let c = chars_of(s.as_str());
    crate::text::push_all(out, c.as_slice());
}

/// Appends the line of detail `v` under `label`.
fn push_detail(out: &mut Vec<char>, label: &String, v: &Option<String>)
    ensures
        final(out)@ == old(out)@ + detail_line(label@, opt_text(*v)),
{
    match v {
        Some(t) => {
            let ghost o = out@;
            push_lit(out, "        ");
            push_str(out, label);
            push_lit(out, ": ");
            push_str(out, t);
            push_lit(out, "\n");
            assert(out@ =~= o + detail_line(label@, opt_text(*v)));
        },
        None => {
            assert(out@ =~= old(out)@ + detail_line(label@, opt_text(*v)));
        },
    }
}

/// Appends the line of the list detail `v` under `label`.
fn push_list(out: &mut Vec<char>, label: &String, v: &Option<Vec<String>>)
    ensures
        final(out)@ == old(out)@ + list_line(label@, opt_texts(*v)),
{
    match v {
        Some(l) => {
            let ghost o = out@;
            push_lit(out, "        ");
            push_str(out, label);
            push_lit(out, ": ");
            crate::text::push_joined(out, l, ", ");
            push_lit(out, "\n");
            assert(out@ =~= o + list_line(label@, opt_texts(*v)));
        },
        None => {
            assert(out@ =~= old(out)@ + list_line(label@, opt_texts(*v)));
        },
    }
}

impl Post {
    /// The lines of this post's parts.
    fn part_lines_exec(&self, label: &String) -> (r: Vec<String>)
        ensures
            texts(r@) == part_lines(label@, texts(self.parts@)),
    {
        let mut r: Vec<String> = Vec::new();
        let n = self.parts.len();
        let mut i: usize = 0;
        while i < n
            invariant
                i <= n,
                n == self.parts@.len(),
                texts(r@) == part_lines(label@, texts(self.parts@)).take(i as int),
            decreases n - i,
        {
            let mut line: Vec<char> = Vec::new();
            push_lit(&mut line, "        ");
            push_str(&mut line, label);
            push_lit(&mut line, " ");
            let num = crate::text::decimal_chars(i as u64 + 1);
            crate::text::push_all(&mut line, num.as_slice());
            push_lit(&mut line, ": ");
            push_str(&mut line, &self.parts[i]);
            assert(line@ =~= part_line(label@, i as int, self.parts@[i as int]@));
            let ghost before = texts(r@);
            let st = string_of(line.as_slice());
            r.push(st);
            assert(texts(r@) =~= before.push(st@));
            assert(part_lines(label@, texts(self.parts@)).take(i + 1) =~= part_lines(label@, texts(self.parts@)).take(i as int).push(st@));
            i = i + 1;
        }
        assert(part_lines(label@, texts(self.parts@)).take(n as int) =~= part_lines(label@, texts(self.parts@)));
        r
    }

    /// Appends the first lines of this post as printed.
    fn push_head(&self, out: &mut Vec<char>, l: &Labels)
        ensures
            final(out)@ == old(out)@ + post_head(self@, *l),
    {
        let ghost o = out@;
        push_str(out, &l.post);
        push_lit(out, " http://cosplayjav.pl/");
        let id = crate::text::decimal_chars(self.id as u64);
        crate::text::push_all(out, id.as_slice());
        push_lit(out, ":\n    ");
        push_str(out, &l.title);
        push_lit(out, ": ");
        push_str(out, &self.title);
        push_lit(out, "\n    ");
        push_str(out, &l.post_type);
        push_lit(out, ": ");
        let tl = self.post_type.label();
        push_str(out, &tl);
        push_lit(out, "\n    ");
        push_str(out, &l.cover);
        push_lit(out, ": ");
        push_str(out, &self.cover);
        push_lit(out, "\n    ");
        push_str(out, &l.likes);
        push_lit(out, ": ");
        let likes = crate::text::decimal_chars(self.likes as u64);
        crate::text::push_all(out, likes.as_slice());
        push_lit(out, "\n    ");
        push_str(out, &l.content);
        push_lit(out, ":\n");
        assert(out@ =~= o + post_head(self@, *l));
    }

    /// Appends the detail lines of this post as printed.
    fn push_content(&self, out: &mut Vec<char>, l: &Labels)
        ensures
            final(out)@ == old(out)@ + content_text(self.content@, *l),
    {
        let ghost o = out@;
        let ghost c = self.content@;
        push_detail(out, &l.id, &self.content.id);
        let ghost t1 = detail_line(l.id@, c.id);
        assert(out@ == o + t1);
        push_detail(out, &l.content_title, &self.content.title);
        let ghost d2 = detail_line(l.content_title@, c.title);
        proof { lemma_concat_assoc(o, t1, d2); }
        let ghost t2 = t1 + d2;
        assert(out@ == o + t2);
        push_detail(out, &l.alternative_title, &self.content.alternative_title);
        let ghost d3 = detail_line(l.alternative_title@, c.alternative_title);
        proof { lemma_concat_assoc(o, t2, d3); }
        let ghost t3 = t2 + d3;
        assert(out@ == o + t3);
        push_detail(out, &l.company, &self.content.company);
        let ghost d4 = detail_line(l.company@, c.company);
        proof { lemma_concat_assoc(o, t3, d4); }
        let ghost t4 = t3 + d4;
        assert(out@ == o + t4);
        push_detail(out, &l.actress, &self.content.actress);
        let ghost d5 = detail_line(l.actress@, c.actress);
        proof { lemma_concat_assoc(o, t4, d5); }
        let ghost t5 = t4 + d5;
        assert(out@ == o + t5);
        push_list(out, &l.series, &self.content.anmie_or_game_series);
        let ghost d6 = list_line(l.series@, c.anmie_or_game_series);
        proof { lemma_concat_assoc(o, t5, d6); }
        let ghost t6 = t5 + d6;
        assert(out@ == o + t6);
        push_list(out, &l.character, &self.content.character_cosplay);
        let ghost d7 = list_line(l.character@, c.character_cosplay);
        proof { lemma_concat_assoc(o, t6, d7); }
        let ghost t7 = t6 + d7;
        assert(out@ == o + t7);
        push_list(out, &l.info, &self.content.info);
        let ghost d8 = list_line(l.info@, c.info);
        proof { lemma_concat_assoc(o, t7, d8); }
        assert(out@ == o + content_text(c, *l));
    }

    /// Appends the part lines of this post as printed.
    fn push_tail(&self, out: &mut Vec<char>, l: &Labels)
        ensures
            final(out)@ == old(out)@ + post_tail(self@, *l),
    {
        let ghost o = out@;
        push_lit(out, "    ");
        push_str(out, &l.parts);
        push_lit(out, ":\n");
        let lines = self.part_lines_exec(&l.part);
        crate::text::push_joined(out, &lines, "\n");
        assert(out@ =~= o + post_tail(self@, *l));
    }

    /// This post as printed with the labels `l`.
    pub fn render_with(&self, l: &Labels) -> (r: String)
        ensures
            r@ == post_text(self@, *l),
    {
        let mut out: Vec<char> = Vec::new();
        self.push_head(&mut out, l);
        self.push_content(&mut out, l);
        self.push_tail(&mut out, l);
        assert(out@ =~= post_text(self@, *l));
        string_of(out.as_slice())
    }

    /// This post as printed, its labels drawn by the `colored` crate.
    pub fn render(&self) -> (r: String)
        ensures
            exists|l: Labels| l.drawn() && r@ == post_text(self@, l),
    {
        let l = Labels::drawn_now();
        self.render_with(&l)
    }
}

/// The values of a post as stored in the `cosplayjav` table, in column order.
#[derive(Debug, Clone)]
pub struct DbRow {
    pub post_id: i32,
    pub post_likes: i32,
    pub post_title: String,
    pub post_cover: String,
    pub post_parts: Vec<String>,
    pub post_type: i16,
    pub content: Content,
}

/// A copy of a list of strings.
fn copy_strings(v: &Vec<String>) -> (r: Vec<String>)
    ensures
        texts(r@) == texts(v@),
{
    let mut r: Vec<String> = Vec::new();
    append_strings(&mut r, v);
    assert(texts(r@) =~= seq![] + texts(v@));
    r
}

/// A copy of an optional list of strings.
fn copy_opt_strings(v: &Option<Vec<String>>) -> (r: Option<Vec<String>>)
    ensures
        opt_texts(r) == opt_texts(*v),
{
    match v {
        Some(l) => Some(copy_strings(l)),
        None => None,
    }
}

impl Post {
    /// The values under which this post is stored: its number and likes as 32-bit signed
    /// numbers (wrapping as `as i32` does), the type's code, and the other fields as they are.
    pub fn db_row(&self) -> (r: DbRow)
        ensures
            r.post_id == self.id as i32,
            r.post_likes == self.likes as i32,
            r.post_title@ == self.title@,
            r.post_cover@ == self.cover@,
            texts(r.post_parts@) == texts(self.parts@),
            r.post_type == self.post_type.code(),
            r.content@ == self.content@,
    {
        let content = Content {
            id: self.content.id.clone(),
            title: self.content.title.clone(),
            alternative_title: self.content.alternative_title.clone(),
            company: self.content.company.clone(),
            actress: self.content.actress.clone(),
            in_premium_section_to: self.content.in_premium_section_to.clone(),
            anmie_or_game_series: copy_opt_strings(&self.content.anmie_or_game_series),
            character_cosplay: copy_opt_strings(&self.content.character_cosplay),
            info: copy_opt_strings(&self.content.info),
        };
        DbRow {
            post_id: self.id as i32,
            post_likes: self.likes as i32,
            post_title: self.title.clone(),
            post_cover: self.cover.clone(),
            post_parts: copy_strings(&self.parts),
            post_type: self.post_type.to_i16(),
            content,
        }
    }
}

/// Each post type is stored under a number of its own, so a stored type reads back as itself.
pub proof fn lemma_type_codes_distinct(t: PostType, u: PostType)
    ensures
        t.code() == u.code() ==> t == u,
{
}

/// The slash-separated entries of a cell are each non-empty.
proof fn lemma_trimmed_nonempty_entries(p: Seq<Seq<char>>)
    ensures
        forall|i: int| 0 <= i < trimmed_nonempty(p).len() ==> #[trigger] trimmed_nonempty(p)[i].len() > 0,
    decreases p.len(),
{
    if p.len() > 0 {
        lemma_trimmed_nonempty_entries(p.drop_last());
        let r = trimmed_nonempty(p.drop_last());
        assert forall|i: int| 0 <= i < trimmed_nonempty(p).len() implies #[trigger] trimmed_nonempty(p)[i].len() > 0 by {
            if i < r.len() {
                assert(trimmed_nonempty(p)[i] == r[i]);
            }
        }
    }
}

/// A cell without links or line breaks lists no empty entry.
pub proof fn lemma_multi_info_no_empty_entries(text: Seq<char>)
    ensures
        !contains(text, seq!['\n']) ==> forall|i: int|
            0 <= i < multi_info(text, seq![]).len() ==> #[trigger] multi_info(text, seq![])[i].len() > 0,
{
    lemma_trimmed_nonempty_entries(split_char(text, '/'));
}

/// Settings that print posts go on printing them through any changes until one of them
/// asks for silence: after the changes `cs`, posts are printed exactly when no change in
/// `cs` is `Silent`. New settings print posts, so this holds from `Cosplayjav::new`.
pub proof fn lemma_verbose_until_silent(s: Cosplayjav, cs: Seq<Setting>)
    requires
        s.verbose,
    ensures
        s.with_settings(cs).verbose == !cs.contains(Setting::Silent),
    decreases cs.len(),
{
    if cs.len() > 0 {
        lemma_verbose_until_silent(s, cs.drop_last());
        if cs.last() == Setting::Silent {
            assert(cs[cs.len() - 1] == Setting::Silent);
        } else {
            assert forall|c: Setting| cs.contains(c) <==> (cs.drop_last().contains(c) || c == cs.last()) by {
                if cs.contains(c) {
                    let k = choose|k: int| 0 <= k < cs.len() && cs[k] == c;
                    if k < cs.len() - 1 {
                        assert(cs.drop_last()[k] == c);
                    }
                }
                if cs.drop_last().contains(c) {
                    let k = choose|k: int| 0 <= k < cs.drop_last().len() && cs.drop_last()[k] == c;
                    assert(cs[k] == c);
                }
                if c == cs.last() {
                    assert(cs[cs.len() - 1] == c);
                }
            }
        }
    }
}

/// The English name of month `k`, counted from 1 for January.
pub open spec fn month_name(k: int) -> Seq<char> {
    if k == 1 {
        "January"@
    } else if k == 2 {
        "February"@
    } else if k == 3 {
        "March"@
    } else if k == 4 {
        "April"@
    } else if k == 5 {
        "May"@
    } else if k == 6 {
        "June"@
    } else if k == 7 {
        "July"@
    } else if k == 8 {
        "August"@
    } else if k == 9 {
        "September"@
    } else if k == 10 {
        "October"@
    } else if k == 11 {
        "November"@
    } else {
        "December"@
    }
}

/// Each month's name reads as its place in the calendar: January is 1, June is 6, December
/// is 12.
pub proof fn lemma_month_numbers(k: int)
    requires
        1 <= k <= 12,
    ensures
        month_number(month_name(k)) == Some(k as u32),
{
    reveal_strlit("January");
    reveal_strlit("February");
    reveal_strlit("March");
    reveal_strlit("April");
    reveal_strlit("May");
    reveal_strlit("June");
    reveal_strlit("July");
    reveal_strlit("August");
    reveal_strlit("September");
    reveal_strlit("October");
    reveal_strlit("November");
    reveal_strlit("December");
    assert("January"@.len() == 7 && "January"@[0] == 'J');
    assert("February"@.len() == 8 && "February"@[0] == 'F');
    assert("March"@.len() == 5 && "March"@[0] == 'M');
    assert("April"@.len() == 5 && "April"@[0] == 'A');
    assert("May"@.len() == 3 && "May"@[0] == 'M');
    assert("June"@.len() == 4 && "June"@[0] == 'J');
    assert("July"@.len() == 4 && "July"@[0] == 'J');
    assert("August"@.len() == 6 && "August"@[0] == 'A');
    assert("September"@.len() == 9 && "September"@[0] == 'S');
    assert("October"@.len() == 7 && "October"@[0] == 'O');
    assert("November"@.len() == 8 && "November"@[0] == 'N');
    assert("December"@.len() == 8 && "December"@[0] == 'D');
    assert("June"@[2] == 'n' && "July"@[2] == 'l');
}

/// A text without separator `sep` is one piece.
proof fn lemma_split_single(t: Seq<char>, sep: char)
    requires
        forall|i: int| 0 <= i < t.len() ==> t[i] != sep,
    ensures
        split_char(t, sep) == seq![t],
    decreases t.len(),
{
    if t.len() == 0 {
        assert(t =~= Seq::<char>::empty());
    } else {
        let t0 = t.drop_last();
        assert forall|i: int| 0 <= i < t0.len() implies t0[i] != sep by {
            assert(t0[i] == t[i]);
        }
        lemma_split_single(t0, sep);
        assert(t[t.len() - 1] != sep);
        assert(t0.push(t.last()) =~= t);
        assert(seq![t0].update(0, t0.push(t.last())) =~= seq![t]);
    }
}

/// Splitting `s`, a separator and a text `t` without separators gives the pieces of `s`
/// and then `t`.
proof fn lemma_split_after_sep(s: Seq<char>, sep: char, t: Seq<char>)
    requires
        forall|i: int| 0 <= i < t.len() ==> t[i] != sep,
    ensures
        split_char(s.push(sep) + t, sep) == split_char(s, sep).push(t),
    decreases t.len(),
{
    if t.len() == 0 {
        assert(s.push(sep) + t =~= s.push(sep));
        assert(s.push(sep).drop_last() =~= s);
        assert(t =~= seq![]);
    } else {
        let t0 = t.drop_last();
        assert forall|i: int| 0 <= i < t0.len() implies t0[i] != sep by {
            assert(t0[i] == t[i]);
        }
        lemma_split_after_sep(s, sep, t0);
        let w = s.push(sep) + t;
        assert(w.drop_last() =~= s.push(sep) + t0);
        assert(w.last() == t.last());
        assert(t[t.len() - 1] != sep);
        let r = split_char(s, sep).push(t0);
        assert(t0.push(t.last()) =~= t);
        assert(r.update(r.len() - 1, r.last().push(t.last())) =~= split_char(s, sep).push(t));
    }
}

/// A listing date written "day Month year" (day and year in decimal digits, single spaces
/// between) reads as year * 10000 + month * 100 + day, the month counted from 1 for
/// January; so "15 June 2019" reads 20190615.
pub proof fn lemma_listing_date_reads(day: Seq<char>, k: int, year: Seq<char>, d: u32, y: u32)
    requires
        1 <= k <= 12,
        forall|i: int| 0 <= i < day.len() ==> day[i] != ' ',
        forall|i: int| 0 <= i < year.len() ==> year[i] != ' ',
        crate::text::parse_u32_spec(day) == Some(d),
        crate::text::parse_u32_spec(year) == Some(y),
        y * 10000 + k * 100 + d <= u32::MAX,
    ensures
        listing_date(day + " "@ + month_name(k) + " "@ + year) == Ok::<u32, ScrapeError>((y * 10000 + k * 100 + d) as u32),
{
    reveal_strlit(" ");
    reveal_strlit("January");
    reveal_strlit("February");
    reveal_strlit("March");
    reveal_strlit("April");
    reveal_strlit("May");
    reveal_strlit("June");
    reveal_strlit("July");
    reveal_strlit("August");
    reveal_strlit("September");
    reveal_strlit("October");
    reveal_strlit("November");
    reveal_strlit("December");
    lemma_month_numbers(k);
    let m = month_name(k);
    assert(forall|i: int| 0 <= i < m.len() ==> m[i] != ' ');
    lemma_split_single(day, ' ');
    lemma_split_after_sep(day, ' ', m);
    assert(day + " "@ + m =~= day.push(' ') + m);
    lemma_split_after_sep(day + " "@ + m, ' ', year);
    assert(day + " "@ + m + " "@ + year =~= (day + " "@ + m).push(' ') + year);
    let p = split_char(day + " "@ + m + " "@ + year, ' ');
    assert(p =~= seq![day, m, year]);
}

/// The four post types are shown as "Cosplay Videos", "Only Images", "Premium" and
/// "WISHLIST", each under a name of its own.
pub proof fn lemma_type_labels(t: PostType, u: PostType)
    ensures
        PostType::CosplayVideos.label_spec() == "Cosplay Videos"@,
        PostType::OnlyImages.label_spec() == "Only Images"@,
        PostType::Premium.label_spec() == "Premium"@,
        PostType::Wishlist.label_spec() == "WISHLIST"@,
        t.label_spec() == u.label_spec() ==> t == u,
{
    reveal_strlit("Cosplay Videos");
    reveal_strlit("Only Images");
    reveal_strlit("Premium");
    reveal_strlit("WISHLIST");
    if t.label_spec() == u.label_spec() && t != u {
        assert(t.label_spec().len() != u.label_spec().len() || t.label_spec()[0] != u.label_spec()[0]);
    }
}

/// Only Cosplay Videos and Only Images posts list parts: a page whose aside mentions
/// neither videos nor images (a Premium or Wishlist post) is a post with no parts whenever
/// its likes (a number), title, cover and info rows read, whatever its parts list holds.
pub proof fn lemma_partless_posts_kept(id: u32, page: PostPage, downloads: Seq<Seq<char>>)
    requires
        !contains(page.aside@, "videos"@),
        !contains(page.aside@, "images"@),
        page.likes is Ok,
        crate::text::parse_u32_spec(page.likes->Ok_0@) is Some,
        page.title is Ok,
        page.cover is Ok,
        page.info_rows is Ok,
    ensures
        (post_of_page(id, page, downloads) matches Ok(Some(p)) && p.parts.len() == 0 && (p.post_type == PostType::Premium || p.post_type == PostType::Wishlist)),
{
}

/// Cosplay Videos and Only Images posts list parts: for a page whose aside mentions videos
/// or images and whose parts list reads, the post's parts are the torrent links of the list
/// and then the download links, and a page with none of either is no post.
pub proof fn lemma_part_posts(id: u32, page: PostPage, downloads: Seq<Seq<char>>)
    requires
        contains(page.aside@, "videos"@) || contains(page.aside@, "images"@),
        page.part_links is Ok,
    ensures
        ({
            let parts = links_of_kind(texts(page.part_links->Ok_0@), PartLink::Torrent) + downloads;
            &&& (post_of_page(id, page, downloads) matches Ok(Some(p)) ==> (p.parts == parts && p.parts.len() > 0))
            &&& (parts.len() == 0 ==> post_of_page(id, page, downloads) == Ok::<Option<PostView>, ScrapeError>(None))
        }),
{
}

/// A literal text `hay` whose first `hay.len() - needle.len() + 1` characters differ from the
/// first character of `needle` does not contain it.
proof fn lemma_not_contains(hay: Seq<char>, needle: Seq<char>)
    requires
        needle.len() > 0,
        forall|i: int| 0 <= i && i + needle.len() <= hay.len() ==> hay[i] != needle[0],
    ensures
        !contains(hay, needle),
{
    if contains(hay, needle) {
        let i = choose|i: int| crate::text::occurs_at(hay, needle, i);
        assert(hay.subrange(i, i + needle.len())[0] == hay[i]);
    }
}

/// Details `b` agree with details `a` on every field but the one numbered `f` (in the order
/// id, title, alternative title, company, actress, premium date, series, characters, info,
/// counted from 0).
pub open spec fn others_kept(a: ContentView, b: ContentView, f: int) -> bool {
    &&& f != 0 ==> b.id == a.id
    &&& f != 1 ==> b.title == a.title
    &&& f != 2 ==> b.alternative_title == a.alternative_title
    &&& f != 3 ==> b.company == a.company
    &&& f != 4 ==> b.actress == a.actress
    &&& f != 5 ==> b.in_premium_section_to == a.in_premium_section_to
    &&& f != 6 ==> b.anmie_or_game_series == a.anmie_or_game_series
    &&& f != 7 ==> b.character_cosplay == a.character_cosplay
    &&& f != 8 ==> b.info == a.info
}

/// The keys of the info table that name a detail, besides those mentioning PREMIUM.
pub open spec fn known_key(k: Seq<char>) -> bool {
    ||| k == "ID"@
    ||| k == "TITLE"@
    ||| k == "ALTERNATIVE TITLE"@
    ||| k == "COMPANY"@
    ||| k == "ACTRESS"@
    ||| k == "ACRESS"@
    ||| k == "ANIME/GAME SERIES"@
    ||| k == "CHARACTER COSPLAY"@
    ||| k == "INFO"@
}

/// Each row of the info table fills the detail its key names, with the row's value, and
/// leaves the others as they were: ID the id, TITLE the title, ALTERNATIVE TITLE the
/// alternative title, COMPANY the company, ACTRESS (or ACRESS) the actress, a key mentioning
/// PREMIUM the premium date, and ANIME/GAME SERIES, CHARACTER COSPLAY and INFO the lists of
/// entries of the cell; a row with any other key changes nothing. The key is read without
/// en dashes and trimmed.
pub proof fn lemma_row_fills_its_detail(c: ContentView, key: Seq<char>, text: Seq<char>, links: Seq<Seq<char>>)
    ensures
        (row_key(key) == "ID"@) ==> (apply_row(c, key, text, links).id == Some(text) && others_kept(c, apply_row(c, key, text, links), 0)),
        (row_key(key) == "TITLE"@) ==> (apply_row(c, key, text, links).title == Some(text) && others_kept(c, apply_row(c, key, text, links), 1)),
        (row_key(key) == "ALTERNATIVE TITLE"@) ==> (apply_row(c, key, text, links).alternative_title == Some(text) && others_kept(c, apply_row(c, key, text, links), 2)),
        (row_key(key) == "COMPANY"@) ==> (apply_row(c, key, text, links).company == Some(text) && others_kept(c, apply_row(c, key, text, links), 3)),
        (row_key(key) == "ACTRESS"@ || row_key(key) == "ACRESS"@) ==> (apply_row(c, key, text, links).actress == Some(text) && others_kept(c, apply_row(c, key, text, links), 4)),
        (row_key(key) == "ANIME/GAME SERIES"@) ==> (apply_row(c, key, text, links).anmie_or_game_series == Some(multi_info(text, links)) && others_kept(c, apply_row(c, key, text, links), 6)),
        (row_key(key) == "CHARACTER COSPLAY"@) ==> (apply_row(c, key, text, links).character_cosplay == Some(multi_info(text, links)) && others_kept(c, apply_row(c, key, text, links), 7)),
        (row_key(key) == "INFO"@) ==> (apply_row(c, key, text, links).info == Some(multi_info(text, links)) && others_kept(c, apply_row(c, key, text, links), 8)),
        contains(row_key(key), "PREMIUM"@) ==> (apply_row(c, key, text, links).in_premium_section_to == Some(text) && others_kept(c, apply_row(c, key, text, links), 5)),
        (!contains(row_key(key), "PREMIUM"@) && !known_key(row_key(key))) ==> apply_row(c, key, text, links) == c,
{
    reveal_strlit("ID");
    reveal_strlit("TITLE");
    reveal_strlit("ALTERNATIVE TITLE");
    reveal_strlit("COMPANY");
    reveal_strlit("ACTRESS");
    reveal_strlit("ACRESS");
    reveal_strlit("PREMIUM");
    reveal_strlit("ANIME/GAME SERIES");
    reveal_strlit("CHARACTER COSPLAY");
    reveal_strlit("INFO");
    let k = row_key(key);
    assert("ID"@.len() == 2);
    assert("TITLE"@.len() == 5);
    assert("ALTERNATIVE TITLE"@.len() == 17);
    assert("COMPANY"@.len() == 7);
    assert("ACTRESS"@.len() == 7);
    assert("ACRESS"@.len() == 6);
    assert("ANIME/GAME SERIES"@.len() == 17);
    assert("CHARACTER COSPLAY"@.len() == 17);
    assert("INFO"@.len() == 4);
    assert("COMPANY"@[1] != "ACTRESS"@[1]);
    assert("ALTERNATIVE TITLE"@[0] != "ANIME/GAME SERIES"@[1]);
    assert("ALTERNATIVE TITLE"@[1] != "ANIME/GAME SERIES"@[1]);
    assert("ALTERNATIVE TITLE"@[0] != "CHARACTER COSPLAY"@[0]);
    assert("ANIME/GAME SERIES"@[0] != "CHARACTER COSPLAY"@[0]);
    assert("PREMIUM"@.len() == 7 && "PREMIUM"@[0] == 'P');
    if known_key(k) {
        assert forall|i: int| 0 <= i && i + "PREMIUM"@.len() <= k.len() implies k[i] != "PREMIUM"@[0] by {
            assert(0 <= i <= 10);
        }
        lemma_not_contains(k, "PREMIUM"@);
    }
}

} // verus!

