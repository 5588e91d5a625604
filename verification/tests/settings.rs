use sexy::conf::Conf;
use sexy::sites::{site_from_name, Post, SiteKind, BANNER};

#[test]
fn default_conf_sets_nothing() {
    let c = Conf::default();
    assert!(c.proxy.is_none() && c.database.is_none() && c.cosplayjav_bypass_retry.is_none());
}

#[test]
fn empty_proxy_clears_it() {
    let mut c = Conf::default();
    c.set_proxy("http://127.0.0.1:1080");
    assert_eq!(c.proxy.as_deref(), Some("http://127.0.0.1:1080"));
    c.set_proxy("");
    assert!(c.proxy.is_none());
}

#[test]
fn conf_paths() {
    let d = Conf::dir_in("/opt/bin");
    assert_eq!(d, "/opt/bin/.sexy");
    assert_eq!(Conf::file_in(&d), "/opt/bin/.sexy/conf.json");
}

#[test]
fn site_names() {
    assert_eq!(site_from_name("cosplayjav"), Some(SiteKind::Cosplayjav));
    assert_eq!(site_from_name("japonx"), Some(SiteKind::Japonx));
    assert_eq!(site_from_name("other"), None);
}

#[test]
fn printed_posts_start_with_the_banner() {
    let post = sexy::japonx::Post {
        id: 1,
        title: "T".to_string(),
        intro: "I".to_string(),
        cover: "C".to_string(),
        content: sexy::japonx::PostContent::new(),
    };
    let text = Post::Japonx(post).render();
    assert!(text.starts_with(BANNER));
    assert_eq!(BANNER.matches('\u{1F389}').count(), 20);
    assert!(text.contains("detail/id/1.html"));
}

#[test]
fn settings_print_until_silenced() {
    let mut c = sexy::cosplayjav::Cosplayjav::new(vec![]);
    c.database();
    c.thread(4);
    c.after(20190101);
    c.recent(7);
    assert!(c.is_verbose());
    assert!(c.is_database());
    assert!(c.likes.is_empty() && c.views.is_empty());
    c.silent();
    assert!(!c.is_verbose());
    assert_eq!(c.thread, 4);
    assert_eq!(c.after, Some(20190101));
    assert_eq!(c.recent, Some(7));
}
