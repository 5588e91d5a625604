//! The sites, a post of either, and how a post is printed.

use vstd::prelude::*;

use crate::text::{chars_of, push_all, string_of};

verus! {

/// The line of party poppers printed before each post.
pub const BANNER: &'static str = "\n\u{1F389} \u{1F389} \u{1F389} \u{1F389} \u{1F389} \u{1F389} \u{1F389} \u{1F389} \u{1F389} \u{1F389} \u{1F389} \u{1F389} \u{1F389} \u{1F389} \u{1F389} \u{1F389} \u{1F389} \u{1F389} \u{1F389} \u{1F389}\n\n";

/// A change of a site's crawler settings, as the command line asks for it.
#[derive(Debug, Clone, Copy, PartialEq, Eq, Structural)]
pub enum Setting {
    /// Save posts to the database.
    Database,
    /// Stop printing posts.
    Silent,
    /// Read this many posts at a time.
    Thread(u32),
    /// Stop at the first post dated before this date.
    After(u32),
    /// Read only this many posts.
    Recent(u32),
}

/// The sites that can be crawled.
#[derive(Debug, Clone, Copy, PartialEq, Eq, Structural)]
pub enum SiteKind {
    Cosplayjav,
    Japonx,
}

/// The site called `name` on the command line, if it is one.
pub open spec fn site_named(name: Seq<char>) -> Option<SiteKind> {
    if name == "cosplayjav"@ {
        Some(SiteKind::Cosplayjav)
    } else if name == "japonx"@ {
        Some(SiteKind::Japonx)
    } else {
        None
    }
}

/// The site called `name` on the command line, if it is one.
pub fn site_from_name(name: &str) -> (r: Option<SiteKind>)
    ensures
        r == site_named(name@),
{
    let n = chars_of(name);
    if crate::text::is_text(n.as_slice(), "cosplayjav") {
        Some(SiteKind::Cosplayjav)
    } else if crate::text::is_text(n.as_slice(), "japonx") {
        Some(SiteKind::Japonx)
    } else {
        None
    }
}

/// A post of either site.
#[derive(Debug, Clone)]
pub enum Post {
    Cosplayjav(crate::cosplayjav::Post),
    Japonx(crate::japonx::Post),
}

impl Post {
    /// How this post is printed with the labels `cl` (for a cosplayjav post) or `jl` (for a
    /// japonx post): the banner, then the post.
    pub open spec fn text_with(&self, cl: crate::cosplayjav::Labels, jl: crate::japonx::Labels) -> Seq<char> {
        match self {
            Post::Cosplayjav(p) => BANNER@ + crate::cosplayjav::post_text(p@, cl),
            Post::Japonx(p) => BANNER@ + crate::japonx::post_text(p@, jl),
        }
    }

    /// This post as printed: the banner, then the post, its labels drawn by the `colored`
    /// crate.
    pub fn render(&self) -> (r: String)
        ensures
            exists|cl: crate::cosplayjav::Labels, jl: crate::japonx::Labels|
                cl.drawn() && jl.drawn() && r@ == self.text_with(cl, jl),
    {
        let cl = crate::cosplayjav::Labels::drawn_now();
        let jl = crate::japonx::Labels::drawn_now();
        let mut out = chars_of(BANNER);
        let body = match self {
            Post::Cosplayjav(p) => p.render_with(&cl),
            Post::Japonx(p) => p.render_with(&jl),
        };
        let b = chars_of(body.as_str());
        push_all(&mut out, b.as_slice());
        let r = string_of(out.as_slice());
        assert(r@ == self.text_with(cl, jl));
        r
    }
}

} // verus!
