//! Scraping logic for two video sites: page parsing, post records and crawl planning.

pub mod conf;
pub mod cosplayjav;
pub mod crawl;
pub mod dom;
pub mod error;
pub mod japonx;
pub mod paint;
pub mod pattern;
pub mod sites;
pub mod text;
