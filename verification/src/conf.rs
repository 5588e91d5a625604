//! The settings file: its contents and where it lives.

use vstd::prelude::*;

use crate::text::{chars_of, push_all, string_of};

verus! {

/// The settings: how often to retry the anti-bot check, the proxy to use, and the database
/// to save posts to.
#[derive(Debug, Clone)]
pub struct Conf {
    pub cosplayjav_bypass_retry: Option<u32>,
    pub proxy: Option<String>,
    pub database: Option<String>,
}

impl Default for Conf {
    /// Settings with nothing set.
    fn default() -> (c: Conf)
        ensures
            c.cosplayjav_bypass_retry is None,
            c.proxy is None,
            c.database is None,
    {
        Conf { cosplayjav_bypass_retry: None, proxy: None, database: None }
    }
}

/// The directory beside the program that holds the settings.
pub const CONF_DIR: &'static str = "/.sexy";

/// The name of the settings file.
pub const CONF_FILE: &'static str = "/conf.json";

/// `a` followed by `b`.
fn joined(a: &str, b: &str) -> (r: String)
    ensures
        r@ == a@ + b@,
{
    let mut v = chars_of(a);
    let w = chars_of(b);
    push_all(&mut v, w.as_slice());
    string_of(v.as_slice())
}

impl Conf {
    /// Uses the proxy at `address`; an empty address means no proxy.
    pub fn set_proxy(&mut self, address: &str)
        ensures
            address@.len() == 0 ==> final(self).proxy is None,
            address@.len() > 0 ==> final(self).proxy is Some && final(self).proxy->0@ == address@,
            final(self).cosplayjav_bypass_retry == old(self).cosplayjav_bypass_retry,
            final(self).database == old(self).database,
    {
        if address.unicode_len() == 0 {
            self.proxy = None;
        } else {
            self.proxy = Some(address.to_owned());
        }
    }

    /// The settings directory for a program that lives in directory `program_dir`.
    pub fn dir_in(program_dir: &str) -> (r: String)
        ensures
            r@ == program_dir@ + CONF_DIR@,
    {
        joined(program_dir, CONF_DIR)
    }

    /// The settings file inside directory `dir`.
    pub fn file_in(dir: &str) -> (r: String)
        ensures
            r@ == dir@ + CONF_FILE@,
    {
        joined(dir, CONF_FILE)
    }
}

} // verus!
