//! Browser fingerprints to present: the user agents, screens and locales a
//! request may pretend to come from, and the navigation headers it sends.

use crate::text::{owned, views};
use rand::Rng;
use vstd::prelude::*;

verus! {

/// The browser profiles a request may present. Device pixel ratios are kept
/// as the bits of their `f64`s.
pub struct StealthConfig {
    pub user_agents: Vec<String>,
    pub viewports: Vec<(u32, u32)>,
    pub languages: Vec<String>,
    pub platforms: Vec<String>,
    pub screen_resolutions: Vec<(u32, u32)>,
    pub color_depths: Vec<u32>,
    pub pixel_ratio_bits: Vec<u64>,
    pub timezones: Vec<String>,
}

/// The user agents of the default profile set.
pub open spec fn default_user_agents() -> Seq<Seq<char>> {
    seq![
        "Mozilla/5.0 (Windows NT 10.0; Win64; x64) AppleWebKit/537.36 (KHTML, like Gecko) Chrome/120.0.0.0 Safari/537.36"@,
        "Mozilla/5.0 (Macintosh; Intel Mac OS X 10_15_7) AppleWebKit/537.36 (KHTML, like Gecko) Chrome/120.0.0.0 Safari/537.36"@,
        "Mozilla/5.0 (Windows NT 10.0; Win64; x64; rv:121.0) Gecko/20100101 Firefox/121.0"@,
        "Mozilla/5.0 (X11; Linux x86_64) AppleWebKit/537.36 (KHTML, like Gecko) Chrome/120.0.0.0 Safari/537.36"@,
    ]
}

/// The languages of the default profile set.
pub open spec fn default_languages() -> Seq<Seq<char>> {
    seq!["ru-RU,ru;q=0.9,en-US;q=0.8,en;q=0.7"@, "en-US,en;q=0.9"@]
}

/// An index drawn uniformly at random below `n` with `rand::thread_rng()`
/// (`gen_range(0..n)`); which index comes out is left to chance.
#[verifier::external_body]
fn random_index(n: usize) -> (k: usize)
    requires
        n > 0,
    ensures
        k < n,
{
    rand::thread_rng().gen_range(0..n)
}

impl StealthConfig {
    /// The default profile set: four user agents, five viewports, two
    /// languages, three platforms, three screens, one colour depth, four
    /// pixel ratios (1.0, 1.25, 1.5, 2.0) and two time zones.
    pub fn default() -> (r: StealthConfig)
        ensures
            views(r.user_agents@) == default_user_agents(),
            r.viewports@ == seq![(1920u32, 1080u32), (1366, 768), (1536, 864), (1440, 900), (2560, 1440)],
            views(r.languages@) == default_languages(),
            views(r.platforms@) == seq!["Win32"@, "MacIntel"@, "Linux x86_64"@],
            r.screen_resolutions@ == seq![(1920u32, 1080u32), (1366, 768), (2560, 1440)],
            r.color_depths@ == seq![24u32],
            r.pixel_ratio_bits@ == seq![
                0x3FF0000000000000u64,
                0x3FF4000000000000,
                0x3FF8000000000000,
                0x4000000000000000,
            ],
            views(r.timezones@) == seq!["Europe/Moscow"@, "UTC"@],
    {
        let user_agents = vec![
            owned("Mozilla/5.0 (Windows NT 10.0; Win64; x64) AppleWebKit/537.36 (KHTML, like Gecko) Chrome/120.0.0.0 Safari/537.36"),
            owned("Mozilla/5.0 (Macintosh; Intel Mac OS X 10_15_7) AppleWebKit/537.36 (KHTML, like Gecko) Chrome/120.0.0.0 Safari/537.36"),
            owned("Mozilla/5.0 (Windows NT 10.0; Win64; x64; rv:121.0) Gecko/20100101 Firefox/121.0"),
            owned("Mozilla/5.0 (X11; Linux x86_64) AppleWebKit/537.36 (KHTML, like Gecko) Chrome/120.0.0.0 Safari/537.36"),
        ];
        let languages = vec![owned("ru-RU,ru;q=0.9,en-US;q=0.8,en;q=0.7"), owned("en-US,en;q=0.9")];
        let platforms = vec![owned("Win32"), owned("MacIntel"), owned("Linux x86_64")];
        let timezones = vec![owned("Europe/Moscow"), owned("UTC")];
        let r = StealthConfig {
            user_agents,
            viewports: vec![(1920, 1080), (1366, 768), (1536, 864), (1440, 900), (2560, 1440)],
            languages,
            platforms,
            screen_resolutions: vec![(1920, 1080), (1366, 768), (2560, 1440)],
            color_depths: vec![24],
            pixel_ratio_bits: vec![
                0x3FF0000000000000u64,
                0x3FF4000000000000,
                0x3FF8000000000000,
                0x4000000000000000,
            ],
            timezones,
        };
        assert(views(r.user_agents@) =~= default_user_agents());
        assert(views(r.languages@) =~= default_languages());
        assert(views(r.platforms@) =~= seq!["Win32"@, "MacIntel"@, "Linux x86_64"@]);
        assert(views(r.timezones@) =~= seq!["Europe/Moscow"@, "UTC"@]);
        r
    }

    /// One of the user agents, drawn at random.
    pub fn random_ua(&self) -> (r: &str)
        requires
            self.user_agents@.len() > 0,
        ensures
            views(self.user_agents@).contains(r@),
    {
        let k = random_index(self.user_agents.len());
        assert(views(self.user_agents@)[k as int] == self.user_agents@[k as int]@);
        self.user_agents[k].as_str()
    }

    /// One of the viewports, drawn at random.
    pub fn random_viewport(&self) -> (r: (u32, u32))
        requires
            self.viewports@.len() > 0,
        ensures
            self.viewports@.contains(r),
    {
        let k = random_index(self.viewports.len());
        assert(self.viewports@[k as int] == self.viewports[k as int]);
        self.viewports[k]
    }

    /// One of the languages, drawn at random.
    pub fn random_language(&self) -> (r: &str)
        requires
            self.languages@.len() > 0,
        ensures
            views(self.languages@).contains(r@),
    {
        let k = random_index(self.languages.len());
        assert(views(self.languages@)[k as int] == self.languages@[k as int]@);
        self.languages[k].as_str()
    }

    /// The navigation headers of a request: a user agent and a language
    /// drawn at random from the profiles, and fixed `Accept`, encoding,
    /// fetch-metadata, client-hint and cache headers, in this order.
    pub fn get_headers(&self) -> (r: Vec<(String, String)>)
        requires
            self.user_agents@.len() > 0,
            self.languages@.len() > 0,
        ensures
            r@.len() == 13,
            r@[0].0@ == "User-Agent"@ && views(self.user_agents@).contains(r@[0].1@),
            r@[1].0@ == "Accept-Language"@ && views(self.languages@).contains(r@[1].1@),
            r@[2].0@ == "Accept"@,
            r@[2].1@ == "text/html,application/xhtml+xml,application/xml;q=0.9,image/avif,image/webp,*/*;q=0.8"@,
            r@[3].0@ == "Accept-Encoding"@ && r@[3].1@ == "gzip, deflate, br"@,
            r@[4].0@ == "Sec-Fetch-Dest"@ && r@[4].1@ == "document"@,
            r@[5].0@ == "Sec-Fetch-Mode"@ && r@[5].1@ == "navigate"@,
            r@[6].0@ == "Sec-Fetch-Site"@ && r@[6].1@ == "none"@,
            r@[7].0@ == "Sec-Fetch-User"@ && r@[7].1@ == "?1"@,
            r@[8].0@ == "Sec-Ch-Ua"@,
            r@[8].1@ == "\"Not_A Brand\";v=\"8\", \"Chromium\";v=\"120\", \"Google Chrome\";v=\"120\""@,
            r@[9].0@ == "Sec-Ch-Ua-Mobile"@ && r@[9].1@ == "?0"@,
            r@[10].0@ == "Sec-Ch-Ua-Platform"@ && r@[10].1@ == "\"Windows\""@,
            r@[11].0@ == "Upgrade-Insecure-Requests"@ && r@[11].1@ == "1"@,
            r@[12].0@ == "Cache-Control"@ && r@[12].1@ == "max-age=0"@,
    {
        let ua = self.random_ua();
        let lang = self.random_language();
        vec![
            (owned("User-Agent"), owned(ua)),
            (owned("Accept-Language"), owned(lang)),
            (
                owned("Accept"),
                owned("text/html,application/xhtml+xml,application/xml;q=0.9,image/avif,image/webp,*/*;q=0.8"),
            ),
            (owned("Accept-Encoding"), owned("gzip, deflate, br")),
            (owned("Sec-Fetch-Dest"), owned("document")),
            (owned("Sec-Fetch-Mode"), owned("navigate")),
            (owned("Sec-Fetch-Site"), owned("none")),
            (owned("Sec-Fetch-User"), owned("?1")),
            (
                owned("Sec-Ch-Ua"),
                owned("\"Not_A Brand\";v=\"8\", \"Chromium\";v=\"120\", \"Google Chrome\";v=\"120\""),
            ),
            (owned("Sec-Ch-Ua-Mobile"), owned("?0")),
            (owned("Sec-Ch-Ua-Platform"), owned("\"Windows\"")),
            (owned("Upgrade-Insecure-Requests"), owned("1")),
            (owned("Cache-Control"), owned("max-age=0")),
        ]
    }
}

} // verus!
