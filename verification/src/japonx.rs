//! The japonx site: post records and the description list of a post page.

use vstd::prelude::*;

use crate::crawl::{last_page_number, last_page_of, ListingEntry};
use crate::dom::{
    all_texts, doc_attr, doc_attr_name, doc_class, doc_class_name, doc_name, find_attr,
    find_attr_name, find_class, find_class_name, find_name, find_name_in, first_attr,
    first_attr_of, first_text, first_text_of, node_name, text_result, texts_of, Page,
};
use crate::error::ScrapeError;
use crate::sites::Setting;
use crate::paint::{cyan, cyan_start, shows, yellow, yellow_start};
use crate::text::{chars_of, lemma_concat_assoc, parse_u32_chars, parse_u32_spec, push_all, string_of, texts, without_char, without_char_exec};

verus! {

/// The details a post's description list gives.
#[derive(Debug, Clone)]
pub struct PostContent {
    pub id: String,
    pub length: u32,
    pub release_date: u32,
    pub actress: String,
    pub company: String,
    pub subtitles: String,
    pub genres: Vec<String>,
}

/// The details of a post as mathematical values.
pub struct PostContentView {
    pub id: Seq<char>,
    pub length: u32,
    pub release_date: u32,
    pub actress: Seq<char>,
    pub company: Seq<char>,
    pub subtitles: Seq<char>,
    pub genres: Seq<Seq<char>>,
}

impl View for PostContent {
    type V = PostContentView;

    open spec fn view(&self) -> PostContentView {
        PostContentView {
            id: self.id@,
            length: self.length,
            release_date: self.release_date,
            actress: self.actress@,
            company: self.company@,
            subtitles: self.subtitles@,
            genres: texts(self.genres@),
        }
    }
}

/// Details with nothing known: empty texts, zero numbers, no genres.
pub open spec fn empty_content() -> PostContentView {
    PostContentView {
        id: seq![],
        length: 0,
        release_date: 0,
        actress: seq![],
        company: seq![],
        subtitles: seq![],
        genres: seq![],
    }
}

/// The first link text of an entry, which the entry must have.
pub open spec fn first_link(links: Seq<Seq<char>>) -> Result<Seq<char>, ScrapeError> {
    if links.len() == 0 {
        Err(ScrapeError::MissingElement)
    } else {
        Ok(links[0])
    }
}

/// The first link text of an entry as a number.
pub open spec fn first_number(links: Seq<Seq<char>>, dashes: bool) -> Result<u32, ScrapeError> {
    match first_link(links) {
        Err(e) => Err(e),
        Ok(t) => match parse_u32_spec(if dashes { without_char(t, '-') } else { t }) {
            Some(n) => Ok(n),
            None => Err(ScrapeError::NotANumber),
        },
    }
}

/// The details after the entry at position `i` of the description list, whose links read
/// `links`: the entries give, in order, the id, the length, the actress, the release date
/// (its dashes dropped), the genres, the company and the subtitles; a release date before
/// the limit `after` rejects the post.
pub open spec fn desc_step(
    r: Result<Option<PostContentView>, ScrapeError>,
    i: int,
    links: Seq<Seq<char>>,
    after: Option<u32>,
) -> Result<Option<PostContentView>, ScrapeError> {
    match r {
        Ok(Some(c)) => if i == 0 {
            match first_link(links) {
                Ok(t) => Ok(Some(PostContentView { id: t, ..c })),
                Err(e) => Err(e),
            }
        } else if i == 1 {
            match first_number(links, false) {
                Ok(n) => Ok(Some(PostContentView { length: n, ..c })),
                Err(e) => Err(e),
            }
        } else if i == 2 {
            match first_link(links) {
                Ok(t) => Ok(Some(PostContentView { actress: t, ..c })),
                Err(e) => Err(e),
            }
        } else if i == 3 {
            match first_number(links, true) {
                Ok(n) => if after matches Some(a) && a > n {
                    Ok(None)
                } else {
                    Ok(Some(PostContentView { release_date: n, ..c }))
                },
                Err(e) => Err(e),
            }
        } else if i == 4 {
            Ok(Some(PostContentView { genres: c.genres + links, ..c }))
        } else if i == 5 {
            match first_link(links) {
                Ok(t) => Ok(Some(PostContentView { company: t, ..c })),
                Err(e) => Err(e),
            }
        } else if i == 6 {
            match first_link(links) {
                Ok(t) => Ok(Some(PostContentView { subtitles: t, ..c })),
                Err(e) => Err(e),
            }
        } else {
            r
        }
        _ => r,
    }
}

/// The links of each entry of a description list.
pub open spec fn entry_links(d: Seq<Vec<String>>) -> Seq<Seq<Seq<char>>> {
    Seq::new(d.len(), |i: int| texts(d[i]@))
}

/// The details after the entries `d`, read in order; entries after the seventh are not read.
pub open spec fn desc_run(d: Seq<Seq<Seq<char>>>, after: Option<u32>) -> Result<Option<PostContentView>, ScrapeError>
    decreases d.len(),
{
    if d.len() == 0 {
        Ok(Some(empty_content()))
    } else {
        desc_step(desc_run(d.drop_last(), after), d.len() - 1, d.last(), after)
    }
}

/// A result holding details, as mathematical values.
pub open spec fn content_result_view(r: Result<Option<PostContent>, ScrapeError>) -> Result<Option<PostContentView>, ScrapeError> {
    match r {
        Ok(Some(c)) => Ok(Some(c@)),
        Ok(None) => Ok(None),
        Err(e) => Err(e),
    }
}

/// The first link text of an entry.
fn first_link_exec(links: &Vec<String>) -> (r: Result<String, ScrapeError>)
    ensures
        match r {
            Ok(t) => first_link(texts(links@)) == Ok::<Seq<char>, ScrapeError>(t@),
            Err(e) => first_link(texts(links@)) == Err::<Seq<char>, ScrapeError>(e),
        },
{
    if links.len() == 0 {
        Err(ScrapeError::MissingElement)
    } else {
        Ok(links[0].clone())
    }
}

/// The first link text of an entry as a number, its dashes dropped when `dashes` holds.
fn first_number_exec(links: &Vec<String>, dashes: bool) -> (r: Result<u32, ScrapeError>)
    ensures
        r == first_number(texts(links@), dashes),
{
    if links.len() == 0 {
        return Err(ScrapeError::MissingElement);
    }
    let t = chars_of(links[0].as_str());
    let u = if dashes {
        without_char_exec(t.as_slice(), '-')
    } else {
        t
    };
    match parse_u32_chars(u.as_slice()) {
        Some(n) => Ok(n),
        None => Err(ScrapeError::NotANumber),
    }
}

impl PostContent {
    /// Details with nothing known.
    pub fn new() -> (c: PostContent)
        ensures
            c@ == empty_content(),
    {
        let c = PostContent {
            id: String::new(),
            length: 0,
            release_date: 0,
            actress: String::new(),
            company: String::new(),
            subtitles: String::new(),
            genres: Vec::new(),
        };
        assert(c@.genres =~= seq![]);
        c
    }

    /// Reads the entry at position `i` of the description list, whose links read `links`.
    fn read_entry(self, i: usize, links: &Vec<String>, after: Option<u32>) -> (r: Result<Option<PostContent>, ScrapeError>)
        ensures
            content_result_view(r) == desc_step(Ok(Some(self@)), i as int, texts(links@), after),
    {
        let mut c = self;
        if i == 0 {
            c.id = first_link_exec(links)?;
        } else if i == 1 {
            c.length = first_number_exec(links, false)?;
        } else if i == 2 {
            c.actress = first_link_exec(links)?;
        } else if i == 3 {
            let n = first_number_exec(links, true)?;
            match after {
                Some(a) => {
                    if a > n {
                        return Ok(None);
                    }
                },
                None => {},
            }
            c.release_date = n;
        } else if i == 4 {
            let mut k: usize = 0;
            let ghost g0 = texts(c.genres@);
            while k < links.len()
                invariant
                    k <= links@.len(),
                    texts(c.genres@) == g0 + texts(links@).take(k as int),
                    c.id == self.id,
                    c.length == self.length,
                    c.release_date == self.release_date,
                    c.actress == self.actress,
                    c.company == self.company,
                    c.subtitles == self.subtitles,
                    g0 == texts(self.genres@),
                decreases links@.len() - k,
            {
                let ghost before = texts(c.genres@);
                c.genres.push(links[k].clone());
                assert(texts(c.genres@) =~= before.push(links@[k as int]@));
                assert(texts(links@).take(k + 1) =~= texts(links@).take(k as int).push(links@[k as int]@));
                k = k + 1;
            }
            assert(texts(links@).take(links@.len() as int) =~= texts(links@));
        } else if i == 5 {
            c.company = first_link_exec(links)?;
        } else if i == 6 {
            c.subtitles = first_link_exec(links)?;
        }
        Ok(Some(c))
    }

    /// The details that a description list whose entries have the links `desc` gives, with
    /// an optional limit `after` on the release date: none when the post is older.
    pub fn from_desc(desc: &Vec<Vec<String>>, after: Option<u32>) -> (r: Result<Option<PostContent>, ScrapeError>)
        ensures
            content_result_view(r) == desc_run(entry_links(desc@).take(if desc@.len() < 7 { desc@.len() as int } else { 7 }), after),
    {
        let n: usize = if desc.len() < 7 { desc.len() } else { 7 };
        let mut c = PostContent::new();
        let mut i: usize = 0;
        assert(entry_links(desc@).take(0) =~= seq![]);
        assert(n == (if desc@.len() < 7 { desc@.len() as int } else { 7 }));
        while i < n
            invariant
                i <= n,
                n <= desc@.len(),
                n <= 7,
                n == (if desc@.len() < 7 { desc@.len() as int } else { 7 }),
                desc_run(entry_links(desc@).take(i as int), after) == Ok::<Option<PostContentView>, ScrapeError>(Some(c@)),
            decreases n - i,
        {
            let ghost d = entry_links(desc@);
            assert(d.take(i + 1).drop_last() =~= d.take(i as int));
            assert(d.take(i + 1).last() == texts(desc@[i as int]@));
            match c.read_entry(i, &desc[i], after) {
                Ok(Some(next)) => {
                    c = next;
                },
                Ok(None) => {
                    assert(d.take(n as int).take(i + 1) =~= d.take(i + 1));
                    assert(desc_run(d.take(i + 1), after) == Ok::<Option<PostContentView>, ScrapeError>(None));
                    proof { lemma_desc_run_settled(d.take(n as int), (i + 1) as int, after); }
                    return Ok(None);
                },
                Err(e) => {
                    assert(d.take(n as int).take(i + 1) =~= d.take(i + 1));
                    assert(desc_run(d.take(i + 1), after) == Err::<Option<PostContentView>, ScrapeError>(e));
                    proof { lemma_desc_run_settled(d.take(n as int), (i + 1) as int, after); }
                    return Err(e);
                },
            }
            i = i + 1;
        }
        assert(entry_links(desc@).take(n as int).take(n as int) =~= entry_links(desc@).take(n as int));
        Ok(Some(c))
    }
}

/// Once the reading of a description list is rejected or has failed, later entries
/// change nothing.
proof fn lemma_desc_run_settled(d: Seq<Seq<Seq<char>>>, k: int, after: Option<u32>)
    requires
        0 <= k <= d.len(),
        !(desc_run(d.take(k), after) is Ok && desc_run(d.take(k), after)->Ok_0 is Some),
    ensures
        desc_run(d, after) == desc_run(d.take(k), after),
    decreases d.len() - k,
{
    if k < d.len() {
        assert(d.take(k + 1).drop_last() =~= d.take(k));
        lemma_desc_run_settled(d, k + 1, after);
    } else {
        assert(d.take(k) =~= d);
    }
}

/// What a post page shows, read from its markup.
#[derive(Debug, Clone)]
pub struct PostPage {
    /// The text of the heading.
    pub title: String,
    /// The text of the introduction.
    pub intro: String,
    /// The address of the player's cover image.
    pub cover: String,
    /// The texts of the links of each entry of the description list.
    pub desc: Vec<Vec<String>>,
}

/// A post of the site.
#[derive(Debug, Clone)]
pub struct Post {
    pub id: u32,
    pub title: String,
    pub intro: String,
    pub cover: String,
    pub content: PostContent,
}

/// A post as mathematical values.
pub struct PostView {
    pub id: u32,
    pub title: Seq<char>,
    pub intro: Seq<char>,
    pub cover: Seq<char>,
    pub content: PostContentView,
}

impl View for Post {
    type V = PostView;

    open spec fn view(&self) -> PostView {
        PostView { id: self.id, title: self.title@, intro: self.intro@, cover: self.cover@, content: self.content@ }
    }
}

/// The post that `page` shows under number `id`, with an optional limit `after` on the
/// release date: none when the post was released before it.
pub open spec fn post_of_page(id: u32, page: PostPage, after: Option<u32>) -> Result<Option<PostView>, ScrapeError> {
    let n = if page.desc@.len() < 7 { page.desc@.len() as int } else { 7 };
    match desc_run(entry_links(page.desc@).take(n), after) {
        Err(e) => Err(e),
        Ok(None) => Ok(None),
        Ok(Some(c)) => Ok(Some(PostView { id, title: page.title@, intro: page.intro@, cover: page.cover@, content: c })),
    }
}

/// A result holding a post, as mathematical values.
pub open spec fn post_result_view(r: Result<Option<Post>, ScrapeError>) -> Result<Option<PostView>, ScrapeError> {
    match r {
        Ok(Some(p)) => Ok(Some(p@)),
        Ok(None) => Ok(None),
        Err(e) => Err(e),
    }
}

impl Post {
    /// The post that `page` shows under number `id`.
    pub fn assemble(id: u32, page: &PostPage, after: Option<u32>) -> (r: Result<Option<Post>, ScrapeError>)
        ensures
            post_result_view(r) == post_of_page(id, *page, after),
    {
        match PostContent::from_desc(&page.desc, after) {
            Err(e) => Err(e),
            Ok(None) => Ok(None),
            Ok(Some(content)) => Ok(
                Some(
                    Post {
                        id,
                        title: page.title.clone(),
                        intro: page.intro.clone(),
                        cover: page.cover.clone(),
                        content,
                    },
                ),
            ),
        }
    }
}

/// The site's address, to which the links of the listing pages are relative.
pub const SITE_ROOT: &'static str = "https://www.japonx.vip";

/// The address of the listing pages, to which the page number is appended.
pub const LATEST_POSTS_PAGE: &'static str = "https://www.japonx.vip/portal/index/search/new/1.html?page=";

/// The crawler settings for the site.
#[derive(Debug)]
pub struct Japonx {
    pub database: bool,
    pub verbose: bool,
    pub thread: u32,
    pub after: Option<u32>,
    pub recent: Option<u32>,
    pub likes: std::collections::HashSet<u32>,
    pub views: std::collections::HashSet<u32>,
}

impl Japonx {
    /// Settings that print each post, read one post at a time, with no date or count limit.
    pub fn new() -> (j: Japonx)
        ensures
            !j.database,
            j.verbose,
            j.thread == 1,
            j.after is None,
            j.recent is None,
            j.likes@ == Set::<u32>::empty(),
            j.views@ == Set::<u32>::empty(),
    {
        Japonx {
            database: false,
            verbose: true,
            thread: 1,
            after: None,
            recent: None,
            likes: std::collections::HashSet::new(),
            views: std::collections::HashSet::new(),
        }
    }

    /// Whether posts are saved to the database.
    pub fn is_database(&self) -> (r: bool)
        ensures
            r == self.database,
    {
        self.database
    }

    /// Whether posts are printed.
    pub fn is_verbose(&self) -> (r: bool)
        ensures
            r == self.verbose,
    {
        self.verbose
    }

    /// These settings after the change `c`; every other field stays as it is.
    pub open spec fn with_setting(self, c: Setting) -> Japonx {
        match c {
            Setting::Database => Japonx { database: true, ..self },
            Setting::Silent => Japonx { verbose: false, ..self },
            Setting::Thread(n) => Japonx { thread: n, ..self },
            Setting::After(d) => Japonx { after: Some(d), ..self },
            Setting::Recent(n) => Japonx { recent: Some(n), ..self },
        }
    }

    /// These settings after the changes `cs`, made in order.
    pub open spec fn with_settings(self, cs: Seq<Setting>) -> Japonx
        decreases cs.len(),
    {
        if cs.len() == 0 {
            self
        } else {
            self.with_settings(cs.drop_last()).with_setting(cs.last())
        }
    }

    /// Saves posts to the database from now on.
    pub fn database(&mut self)
        ensures
            final(self).database,
            *final(self) == old(self).with_setting(Setting::Database),
    {
        self.database = true;
    }

    /// Stops printing posts.
    pub fn silent(&mut self)
        ensures
            !final(self).verbose,
            *final(self) == old(self).with_setting(Setting::Silent),
    {
        self.verbose = false;
    }

    /// Reads `num` posts at a time.
    pub fn thread(&mut self, num: u32)
        ensures
            final(self).thread == num,
            *final(self) == old(self).with_setting(Setting::Thread(num)),
    {
        self.thread = num;
    }

    /// Keeps only posts released on `date` or later.
    pub fn after(&mut self, date: u32)
        ensures
            final(self).after == Some(date),
            *final(self) == old(self).with_setting(Setting::After(date)),
    {
        self.after = Some(date);
    }

    /// Reads only the first `num` posts of the crawl, over all listing pages.
    pub fn recent(&mut self, num: u32)
        ensures
            final(self).recent == Some(num),
            *final(self) == old(self).with_setting(Setting::Recent(num)),
    {
        self.recent = Some(num);
    }

    /// The post that `page` shows under number `id`: none when it was released before the
    /// date limit.
    pub fn post_from_page(&self, id: u32, page: &PostPage) -> (r: Result<Option<Post>, ScrapeError>)
        ensures
            post_result_view(r) == post_of_page(id, *page, self.after),
    {
        Post::assemble(id, page, self.after)
    }

    /// A crawl with these settings that has read no listing page yet. Listing entries carry
    /// no date, so the crawl has no date limit; posts are kept or left by their release date.
    pub fn crawl(&self) -> (c: crate::crawl::Crawl)
        ensures
            c.wf(),
            c.pages@ == Seq::<Seq<ListingEntry>>::empty(),
            c.thread == self.thread,
            c.after is None,
            c.recent == self.recent,
            c.taken == 0,
            c.end == crate::crawl::PageEnd::Continue,
    {
        crate::crawl::Crawl::new(self.thread, None, self.recent)
    }

    /// The addresses of the listing pages to fetch when the last one is numbered `last_page`.
    pub fn listing_urls(&self, last_page: u32) -> (r: Vec<String>)
        ensures
            texts(r@) == crate::crawl::listing_urls(LATEST_POSTS_PAGE@, last_page),
    {
        crate::crawl::listing_page_urls(LATEST_POSTS_PAGE, last_page)
    }
}

/// The address of a post that a listing page links to as `href`.
pub fn post_url(href: &str) -> (r: String)
    ensures
        r@ == SITE_ROOT@ + href@,
{
    let mut u = chars_of(SITE_ROOT);
    let h = chars_of(href);
    push_all(&mut u, h.as_slice());
    string_of(u.as_slice())
}

/// The expression whose first group captures the post number in a post's address.
pub const ID_PATTERN: &'static str = "id/(\\d+).html";

/// The number of the post at `url`.
pub fn post_id(url: &str) -> (r: Result<u32, ScrapeError>)
    ensures
        r == crate::pattern::id_of_capture(crate::pattern::regex_capture(ID_PATTERN@, url@, 1)),
{
    crate::pattern::post_id(ID_PATTERN, url)
}

/// The link texts of each of the description entries `dds`, in order.
pub open spec fn desc_of(html: Seq<char>, dds: Seq<usize>) -> Result<Seq<Seq<Seq<char>>>, ScrapeError>
    decreases dds.len(),
{
    if dds.len() == 0 {
        Ok(seq![])
    } else {
        match desc_of(html, dds.drop_last()) {
            Err(e) => Err(e),
            Ok(d) => match texts_of(html, node_name(html, dds.last(), "a"@)) {
                Err(e) => Err(e),
                Ok(t) => Ok(d.push(t)),
            },
        }
    }
}

/// What reading a post page gives, as mathematical values: the text of the first `h1`; the
/// text of the first element with class `tx-comment`; the `src` of the first element with id
/// `do_play_1`; the link texts of each `dd` inside an element with class `desc`.
pub open spec fn post_page_of(html: Seq<char>) -> Result<(Seq<char>, Seq<char>, Seq<char>, Seq<Seq<Seq<char>>>), ScrapeError> {
    match first_text_of(html, doc_name(html, "h1"@)) {
        Err(e) => Err(e),
        Ok(title) => match first_text_of(html, doc_class(html, "tx-comment"@)) {
            Err(e) => Err(e),
            Ok(intro) => match first_attr_of(html, doc_attr(html, "id"@, "do_play_1"@), "src"@) {
                Err(e) => Err(e),
                Ok(cover) => match desc_of(html, doc_class_name(html, "desc"@, "dd"@)) {
                    Err(e) => Err(e),
                    Ok(d) => Ok((title, intro, cover, d)),
                },
            },
        },
    }
}

/// Once reading the description has failed, later entries change nothing.
proof fn lemma_desc_failed(html: Seq<char>, dds: Seq<usize>, k: int)
    requires
        0 <= k <= dds.len(),
        desc_of(html, dds.take(k)) is Err,
    ensures
        desc_of(html, dds) == desc_of(html, dds.take(k)),
    decreases dds.len() - k,
{
    if k < dds.len() {
        assert(dds.take(k + 1).drop_last() =~= dds.take(k));
        lemma_desc_failed(html, dds, k + 1);
    } else {
        assert(dds.take(k) =~= dds);
    }
}

/// Reads a post page.
pub fn read_post_page(html: &str) -> (r: Result<PostPage, ScrapeError>)
    ensures
        match r {
            Ok(p) => post_page_of(html@) == Ok::<(Seq<char>, Seq<char>, Seq<char>, Seq<Seq<Seq<char>>>), ScrapeError>(
                (p.title@, p.intro@, p.cover@, entry_links(p.desc@)),
            ),
            Err(e) => post_page_of(html@) == Err::<(Seq<char>, Seq<char>, Seq<char>, Seq<Seq<Seq<char>>>), ScrapeError>(e),
        },
{
    let parsed = Page::parse(html);
    let page = &parsed;
    let headings = find_name(page, "h1");
    let title = first_text(page, &headings)?;
    let comments = find_class(page, "tx-comment");
    let intro = first_text(page, &comments)?;
    let players = find_attr(page, "id", "do_play_1");
    let cover = first_attr(page, &players, "src")?;
    let dds = find_class_name(page, "desc", "dd");
    let ghost source = page.source();
    let mut desc: Vec<Vec<String>> = Vec::new();
    let n = dds.len();
    let mut i: usize = 0;
    assert(dds@.take(0) =~= seq![]);
    assert(entry_links(desc@) =~= seq![]);
    while i < n
        invariant
            i <= n,
            n == dds@.len(),
            source == page.source(),
            source == html@,
            dds@ == doc_class_name(source, "desc"@, "dd"@),
            first_text_of(source, doc_name(source, "h1"@)) == Ok::<Seq<char>, ScrapeError>(title@),
            first_text_of(source, doc_class(source, "tx-comment"@)) == Ok::<Seq<char>, ScrapeError>(intro@),
            first_attr_of(source, doc_attr(source, "id"@, "do_play_1"@), "src"@) == Ok::<Seq<char>, ScrapeError>(cover@),
            desc_of(source, dds@.take(i as int)) == Ok::<Seq<Seq<Seq<char>>>, ScrapeError>(entry_links(desc@)),
        decreases n - i,
    {
        assert(dds@.take(i + 1).drop_last() =~= dds@.take(i as int));
        assert(dds@.take(i + 1).last() == dds@[i as int]);
        let anchors = find_name_in(page, dds[i], "a");
        match all_texts(page, &anchors) {
            Ok(t) => {
                let ghost before = entry_links(desc@);
                let ghost tt = texts(t@);
                desc.push(t);
                assert(entry_links(desc@) =~= before.push(tt));
            },
            Err(e) => {
                assert(desc_of(source, dds@.take(i + 1)) == Err::<Seq<Seq<Seq<char>>>, ScrapeError>(e));
                proof { lemma_desc_failed(source, dds@, (i + 1) as int); }
                return Err(e);
            },
        }
        i = i + 1;
    }
    assert(dds@.take(n as int) =~= dds@);
    Ok(PostPage { title, intro, cover, desc })
}

/// The entries of a listing page: for each list item inside the element with id `works`,
/// the address of the post that its first link leads to. Listing entries carry no date.
pub fn read_listing(html: &str) -> (r: Vec<ListingEntry>)
    ensures
        ({
            let items = doc_attr_name(html@, "id"@, "works"@, "li"@);
            &&& r@.len() == items.len()
            &&& forall|i: int| #![trigger r@[i]] 0 <= i < items.len() ==> {
                &&& r@[i].date is Err
                &&& text_result(r@[i].url) == match first_attr_of(html@, node_name(html@, items[i], "a"@), "href"@) {
                    Ok(h) => Ok::<Seq<char>, ScrapeError>(SITE_ROOT@ + h),
                    Err(e) => Err(e),
                }
            }
        }),
{
    let parsed = Page::parse(html);
    let page = &parsed;
    let items = find_attr_name(page, "id", "works", "li");
    let mut out: Vec<ListingEntry> = Vec::new();
    let n = items.len();
    let mut i: usize = 0;
    while i < n
        invariant
            i <= n,
            n == items@.len(),
            items@ == doc_attr_name(page.source(), "id"@, "works"@, "li"@),
            out@.len() == i,
            forall|k: int| #![trigger out@[k]] 0 <= k < i ==> {
                &&& out@[k].date is Err
                &&& text_result(out@[k].url) == match first_attr_of(page.source(), node_name(page.source(), items@[k], "a"@), "href"@) {
                    Ok(h) => Ok::<Seq<char>, ScrapeError>(SITE_ROOT@ + h),
                    Err(e) => Err(e),
                }
            },
        decreases n - i,
    {
        let anchors = find_name_in(page, items[i], "a");
        let url = match first_attr(page, &anchors, "href") {
            Ok(h) => Ok(post_url(h.as_str())),
            Err(e) => Err(e),
        };
        out.push(ListingEntry { date: Err(ScrapeError::MissingElement), url });
        i = i + 1;
    }
    out
}

/// The number of the last listing page: the seventh link's text inside the first element
/// with class `bx-pagination`.
pub fn read_last_page(html: &str) -> (r: Result<u32, ScrapeError>)
    ensures
        ({
            let boxes = doc_class(html@, "bx-pagination"@);
            r == if boxes.len() == 0 {
                Err(ScrapeError::MissingElement)
            } else {
                last_page_of(html@, node_name(html@, boxes[0], "a"@))
            }
        }),
{
    let parsed = Page::parse(html);
    let page = &parsed;
    let boxes = find_class(page, "bx-pagination");
    if boxes.len() == 0 {
        return Err(ScrapeError::MissingElement);
    }
    let links = find_name_in(page, boxes[0], "a");
    last_page_number(page, &links)
}

/// The labels under which a post is printed, as drawn (coloured or not).
#[derive(Debug, Clone)]
pub struct Labels {
    pub post: String,
    pub title: String,
    pub intro: String,
    pub cover: String,
    pub content: String,
    pub id: String,
    pub length: String,
    pub release_date: String,
    pub company: String,
    pub subtitles: String,
    pub genres: String,
}

impl Labels {
    /// Each label shows its name: "Post" and the labels of the details in cyan, the others
    /// in yellow.
    pub open spec fn drawn(&self) -> bool {
        &&& shows(self.post@, "Post"@, cyan_start())
        &&& shows(self.title@, "Title"@, yellow_start())
        &&& shows(self.intro@, "Intro"@, yellow_start())
        &&& shows(self.cover@, "Cover"@, yellow_start())
        &&& shows(self.content@, "Content"@, yellow_start())
        &&& shows(self.id@, "Id"@, cyan_start())
        &&& shows(self.length@, "Length"@, cyan_start())
        &&& shows(self.release_date@, "Release date"@, cyan_start())
        &&& shows(self.company@, "Company"@, cyan_start())
        &&& shows(self.subtitles@, "Subtitles"@, cyan_start())
        &&& shows(self.genres@, "Type"@, cyan_start())
    }

    /// The labels drawn by the `colored` crate.
    pub fn drawn_now() -> (l: Labels)
        ensures
            l.drawn(),
    {
        proof {
            reveal_strlit("Post");
            reveal_strlit("Title");
            reveal_strlit("Intro");
            reveal_strlit("Cover");
            reveal_strlit("Content");
            reveal_strlit("Id");
            reveal_strlit("Length");
            reveal_strlit("Release date");
            reveal_strlit("Company");
            reveal_strlit("Subtitles");
            reveal_strlit("Type");
        }
        Labels {
            post: cyan("Post"),
            title: yellow("Title"),
            intro: yellow("Intro"),
            cover: yellow("Cover"),
            content: yellow("Content"),
            id: cyan("Id"),
            length: cyan("Length"),
            release_date: cyan("Release date"),
            company: cyan("Company"),
            subtitles: cyan("Subtitles"),
            genres: cyan("Type"),
        }
    }
}

/// The first lines of a printed post: its address, title, introduction and cover, then
/// the heading of its details.
pub open spec fn post_head(p: PostView, l: Labels) -> Seq<char> {
    l.post@ + " https://www.japonx.vip/portal/index/detail/id/"@ + crate::text::decimal(p.id as nat)
        + ".html:\n    "@ + l.title@ + ": "@ + p.title + "\n    "@ + l.intro@ + ": "@ + p.intro
        + "\n    "@ + l.cover@ + ": "@ + p.cover + "\n    "@ + l.content@ + ":\n"@
}

/// One detail of a printed post: `sep`, then the label, a colon and the value.
pub open spec fn field(sep: Seq<char>, label: Seq<char>, value: Seq<char>) -> Seq<char> {
    sep + label + ": "@ + value
}

/// The detail lines of a printed post: id, length, release date, company, subtitles and
/// genres (the actress is not shown).
pub open spec fn content_text(c: PostContentView, l: Labels) -> Seq<char> {
    field("        "@, l.id@, c.id) + field("\n        "@, l.length@, crate::text::decimal(c.length as nat))
        + field("\n        "@, l.release_date@, crate::text::decimal(c.release_date as nat))
        + field("\n        "@, l.company@, c.company) + field("\n        "@, l.subtitles@, c.subtitles)
        + field("\n        "@, l.genres@, crate::text::join(c.genres, ", "@))
}

/// How a post is printed.
pub open spec fn post_text(p: PostView, l: Labels) -> Seq<char> {
    post_head(p, l) + content_text(p.content, l)
}

/// Appends `lit` to `out`.
fn push_lit(out: &mut Vec<char>, lit: &str)
    ensures
        final(out)@ == old(out)@ + lit@,
{
    let c = chars_of(lit);
    push_all(out, c.as_slice());
}

/// Appends `s` to `out`.
fn push_str(out: &mut Vec<char>, s: &String)
    ensures
        final(out)@ == old(out)@ + s@,
{
    let c = chars_of(s.as_str());
    push_all(out, c.as_slice());
}

/// Appends `sep`, the label and a colon.
fn push_label(out: &mut Vec<char>, sep: &str, label: &String)
    ensures
        final(out)@ == old(out)@ + sep@ + label@ + ": "@,
{
    let ghost o = out@;
    push_lit(out, sep);
    push_str(out, label);
    push_lit(out, ": ");
    assert(out@ =~= o + sep@ + label@ + ": "@);
}

impl Post {
    /// Appends the first lines of this post as printed.
    fn push_head(&self, out: &mut Vec<char>, l: &Labels)
        ensures
            final(out)@ == old(out)@ + post_head(self@, *l),
    {
        let ghost o = out@;
        push_str(out, &l.post);
        push_lit(out, " https://www.japonx.vip/portal/index/detail/id/");
        let id = crate::text::decimal_chars(self.id as u64);
        push_all(out, id.as_slice());
        push_lit(out, ".html:\n    ");
        push_str(out, &l.title);
        push_lit(out, ": ");
        push_str(out, &self.title);
        push_lit(out, "\n    ");
        push_str(out, &l.intro);
        push_lit(out, ": ");
        push_str(out, &self.intro);
        push_lit(out, "\n    ");
        push_str(out, &l.cover);
        push_lit(out, ": ");
        push_str(out, &self.cover);
        push_lit(out, "\n    ");
        push_str(out, &l.content);
        push_lit(out, ":\n");
        assert(out@ =~= o + post_head(self@, *l));
    }

    /// Appends the detail lines of this post as printed.
    fn push_content(&self, out: &mut Vec<char>, l: &Labels)
        ensures
            final(out)@ == old(out)@ + content_text(self.content@, *l),
    {
        let ghost o = out@;
        let ghost cv = self.content@;
        let c = &self.content;
        push_label(out, "        ", &l.id);
        push_str(out, &c.id);
        let ghost t1 = field("        "@, l.id@, cv.id);
        assert(out@ == o + t1);
        push_label(out, "\n        ", &l.length);
        let len = crate::text::decimal_chars(c.length as u64);
        push_all(out, len.as_slice());
        let ghost d2 = field("\n        "@, l.length@, crate::text::decimal(cv.length as nat));
        proof { lemma_concat_assoc(o, t1, d2); }
        let ghost t2 = t1 + d2;
        assert(out@ == o + t2);
        push_label(out, "\n        ", &l.release_date);
        let rd = crate::text::decimal_chars(c.release_date as u64);
        push_all(out, rd.as_slice());
        let ghost d3 = field("\n        "@, l.release_date@, crate::text::decimal(cv.release_date as nat));
        proof { lemma_concat_assoc(o, t2, d3); }
        let ghost t3 = t2 + d3;
        assert(out@ == o + t3);
        push_label(out, "\n        ", &l.company);
        push_str(out, &c.company);
        let ghost d4 = field("\n        "@, l.company@, cv.company);
        proof { lemma_concat_assoc(o, t3, d4); }
        let ghost t4 = t3 + d4;
        assert(out@ == o + t4);
        push_label(out, "\n        ", &l.subtitles);
        push_str(out, &c.subtitles);
        let ghost d5 = field("\n        "@, l.subtitles@, cv.subtitles);
        proof { lemma_concat_assoc(o, t4, d5); }
        let ghost t5 = t4 + d5;
        assert(out@ == o + t5);
        push_label(out, "\n        ", &l.genres);
        crate::text::push_joined(out, &c.genres, ", ");
        let ghost d6 = field("\n        "@, l.genres@, crate::text::join(cv.genres, ", "@));
        proof { lemma_concat_assoc(o, t5, d6); }
        assert(out@ == o + content_text(cv, *l));
    }

    /// This post as printed with the labels `l`.
    pub fn render_with(&self, l: &Labels) -> (r: String)
        ensures
            r@ == post_text(self@, *l),
    {
        let mut out: Vec<char> = Vec::new();
        self.push_head(&mut out, l);
        self.push_content(&mut out, l);
        assert(out@ =~= post_text(self@, *l));
        string_of(out.as_slice())
    }

    /// This post as printed, its labels drawn by the `colored` crate.
    pub fn render(&self) -> (r: String)
        ensures
            exists|l: Labels| l.drawn() && r@ == post_text(self@, l),
    {
        let l = Labels::drawn_now();
        self.render_with(&l)
    }
}

/// Reading keeps a release date on or after the limit once the fourth entry was read.
proof fn lemma_desc_run_after(d: Seq<Seq<Seq<char>>>, a: u32)
    requires
        d.len() >= 4,
    ensures
        desc_run(d, Some(a)) matches Ok(Some(c)) ==> c.release_date >= a,
    decreases d.len(),
{
    if d.len() > 4 {
        lemma_desc_run_after(d.drop_last(), a);
    }
}

/// A post kept under a release-date limit was released on or after it, whenever its
/// description list gives a release date (has at least four entries).
pub proof fn lemma_kept_post_released_after(id: u32, page: PostPage, a: u32)
    requires
        page.desc@.len() >= 4,
    ensures
        post_of_page(id, page, Some(a)) matches Ok(Some(p)) ==> p.content.release_date >= a,
{
    let n = if page.desc@.len() < 7 { page.desc@.len() as int } else { 7 };
    lemma_desc_run_after(entry_links(page.desc@).take(n), a);
}

/// Settings that print posts go on printing them through any changes until one of them
/// asks for silence: after the changes `cs`, posts are printed exactly when no change in
/// `cs` is `Silent`. New settings print posts, so this holds from `Japonx::new`.
pub proof fn lemma_verbose_until_silent(s: Japonx, cs: Seq<Setting>)
    requires
        s.verbose,
    ensures
        s.with_settings(cs).verbose == !cs.contains(Setting::Silent),
    decreases cs.len(),
{
    if cs.len() > 0 {
        lemma_verbose_until_silent(s, cs.drop_last());
        if cs.last() == Setting::Silent {
            assert(cs[cs.len() - 1] == Setting::Silent);
        } else {
            assert forall|c: Setting| cs.contains(c) <==> (cs.drop_last().contains(c) || c == cs.last()) by {
                if cs.contains(c) {
                    let k = choose|k: int| 0 <= k < cs.len() && cs[k] == c;
                    if k < cs.len() - 1 {
                        assert(cs.drop_last()[k] == c);
                    }
                }
                if cs.drop_last().contains(c) {
                    let k = choose|k: int| 0 <= k < cs.drop_last().len() && cs.drop_last()[k] == c;
                    assert(cs[k] == c);
                }
                if c == cs.last() {
                    assert(cs[cs.len() - 1] == c);
                }
            }
        }
    }
}

/// Reading a description list fills each detail from its own entry: the id, the actress,
/// the company and the subtitles are the first link of the first, third, sixth and seventh
/// entries; the length and the release date are the first links of the second and fourth
/// entries read as numbers (the date without its dashes), the release date on or after the
/// limit; the genres are all the links of the fifth entry, and none when there is no fifth
/// entry. A detail whose entry is missing keeps its empty value.
pub proof fn lemma_desc_details(d: Seq<Seq<Seq<char>>>, after: Option<u32>)
    ensures
        desc_run(d, after) matches Ok(Some(c)) ==> {
            &&& (d.len() >= 1 ==> d[0].len() >= 1 && c.id == d[0][0])
            &&& (d.len() < 1 ==> c.id == Seq::<char>::empty())
            &&& (d.len() >= 2 ==> d[1].len() >= 1 && parse_u32_spec(d[1][0]) == Some(c.length))
            &&& (d.len() < 2 ==> c.length == 0)
            &&& (d.len() >= 3 ==> d[2].len() >= 1 && c.actress == d[2][0])
            &&& (d.len() < 3 ==> c.actress == Seq::<char>::empty())
            &&& (d.len() >= 4 ==> d[3].len() >= 1 && parse_u32_spec(without_char(d[3][0], '-')) == Some(c.release_date)
                && (after matches Some(a) ==> c.release_date >= a))
            &&& (d.len() < 4 ==> c.release_date == 0)
            &&& (d.len() >= 5 ==> c.genres == d[4])
            &&& (d.len() < 5 ==> c.genres == Seq::<Seq<char>>::empty())
            &&& (d.len() >= 6 ==> d[5].len() >= 1 && c.company == d[5][0])
            &&& (d.len() < 6 ==> c.company == Seq::<char>::empty())
            &&& (d.len() >= 7 ==> d[6].len() >= 1 && c.subtitles == d[6][0])
            &&& (d.len() < 7 ==> c.subtitles == Seq::<char>::empty())
        },
    decreases d.len(),
{
    if d.len() > 0 {
        let d0 = d.drop_last();
        lemma_desc_details(d0, after);
        assert forall|j: int| 0 <= j < d0.len() implies d0[j] == d[j] by {}
        let r0 = desc_run(d0, after);
        if !(r0 matches Ok(Some(_))) {
            assert(desc_run(d, after) == r0);
        }
        if d.len() == 5 {
            assert(Seq::<Seq<char>>::empty() + d[4] =~= d[4]);
        }
    }
}

} // verus!
