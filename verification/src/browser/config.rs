//! Where Chrome and the profiles live, and how instances start by default.
use vstd::prelude::*;
use crate::text::{str_eq, to_string, views};

verus! {

/// The settings of the server.
#[derive(Debug)]
pub struct LynxConfig {
    pub chrome_path: String,
    pub profile_dir: String,
    pub headless: bool,
}

/// What an on/off setting means: on unless it reads `false` or `0`; on when unset.
pub open spec fn flag_value(setting: Option<Seq<char>>) -> bool {
    match setting {
        Some(v) => v != "false"@ && v != "0"@,
        None => true,
    }
}

/// Reads an on/off setting (such as `LYNX_HEADLESS` or `LYNX_EVAL_ENABLED`).
pub fn flag_setting(setting: Option<&str>) -> (on: bool)
    ensures
        on == flag_value(match setting { Some(v) => Some(v@), None => None }),
{
    match setting {
        Some(v) => !str_eq(v, "false") && !str_eq(v, "0"),
        None => true,
    }
}

impl LynxConfig {
    /// The settings from what the environment gives: a Chrome path (else the detected one),
    /// a profile directory (else the default one), and the headless flag.
    pub fn from_settings(
        chrome_path: Option<String>,
        profile_dir: Option<String>,
        headless: Option<&str>,
        detected_chrome: String,
        default_profile_dir: String,
    ) -> (config: Self)
        ensures
            config.chrome_path@ == match chrome_path { Some(p) => p@, None => detected_chrome@ },
            config.profile_dir@ == match profile_dir { Some(p) => p@, None => default_profile_dir@ },
            config.headless == flag_value(match headless { Some(v) => Some(v@), None => None }),
    {
        LynxConfig {
            chrome_path: match chrome_path {
                Some(p) => p,
                None => detected_chrome,
            },
            profile_dir: match profile_dir {
                Some(p) => p,
                None => default_profile_dir,
            },
            headless: flag_setting(headless),
        }
    }
}

/// The operating systems whose Chrome locations differ.
#[derive(Debug, Clone, Copy)]
pub enum Platform {
    MacOs,
    Linux,
    Other,
}

/// Where Chrome is looked for on a platform, in order.
pub open spec fn candidates(platform: Platform) -> Seq<Seq<char>> {
    match platform {
        Platform::MacOs => seq![
            "/Applications/Google Chrome.app/Contents/MacOS/Google Chrome"@,
            "/Applications/Chromium.app/Contents/MacOS/Chromium"@,
        ],
        Platform::Linux => seq![
            "/usr/bin/google-chrome"@,
            "/usr/bin/google-chrome-stable"@,
            "/usr/bin/chromium"@,
            "/usr/bin/chromium-browser"@,
            "/snap/bin/chromium"@,
        ],
        Platform::Other => seq![
            "C:\\Program Files\\Google\\Chrome\\Application\\chrome.exe"@,
            "C:\\Program Files (x86)\\Google\\Chrome\\Application\\chrome.exe"@,
        ],
    }
}

/// The Chrome locations of a platform, in the order they are tried.
pub fn chrome_candidates(platform: Platform) -> (paths: Vec<String>)
    ensures
        views(paths@) == candidates(platform),
{
    let mut paths: Vec<String> = Vec::new();
    match platform {
        Platform::MacOs => {
            paths.push(to_string("/Applications/Google Chrome.app/Contents/MacOS/Google Chrome"));
            paths.push(to_string("/Applications/Chromium.app/Contents/MacOS/Chromium"));
        },
        Platform::Linux => {
            paths.push(to_string("/usr/bin/google-chrome"));
            paths.push(to_string("/usr/bin/google-chrome-stable"));
            paths.push(to_string("/usr/bin/chromium"));
            paths.push(to_string("/usr/bin/chromium-browser"));
            paths.push(to_string("/snap/bin/chromium"));
        },
        Platform::Other => {
            paths.push(to_string("C:\\Program Files\\Google\\Chrome\\Application\\chrome.exe"));
            paths.push(to_string("C:\\Program Files (x86)\\Google\\Chrome\\Application\\chrome.exe"));
        },
    }
    assert(views(paths@) =~= candidates(platform));
    paths
}

/// The first of `paths` that exists, or `google-chrome`, to be found on `PATH`.
pub open spec fn first_existing(paths: Seq<Seq<char>>, exists: Seq<bool>) -> Seq<char>
    decreases paths.len(),
{
    if paths.len() == 0 || exists.len() == 0 {
        "google-chrome"@
    } else if exists[0] {
        paths[0]
    } else {
        first_existing(paths.drop_first(), exists.drop_first())
    }
}

/// Cross-platform Chrome binary detection: `exists[i]` tells whether the `i`-th candidate
/// of the platform is present.
pub fn detect_chrome(platform: Platform, exists: &Vec<bool>) -> (path: String)
    requires
        exists@.len() == candidates(platform).len(),
    ensures
        path@ == first_existing(candidates(platform), exists@),
{
    let paths = chrome_candidates(platform);
    let ghost ps = views(paths@);
    let mut i: usize = 0;
    assert(ps.skip(0) =~= ps);
    assert(exists@.skip(0) =~= exists@);
    while i < paths.len()
        invariant
            ps == views(paths@),
            ps == candidates(platform),
            exists@.len() == ps.len(),
            i <= paths.len(),
            first_existing(ps, exists@) == first_existing(ps.skip(i as int), exists@.skip(i as int)),
        decreases paths.len() - i,
    {
        assert(ps.skip(i as int).drop_first() =~= ps.skip(i + 1));
        assert(exists@.skip(i as int).drop_first() =~= exists@.skip(i + 1));
        if exists[i] {
            return paths[i].clone();
        }
        i = i + 1;
    }
    // Fallback — hope it's on PATH
    to_string("google-chrome")
}

} // verus!
