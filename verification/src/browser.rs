//! Pure decisions of the browser-acquisition flow: where a fetched browser
//! executable lives, which download matches the running platform, and how
//! archive entry names are rewritten while unpacking. The detection of an
//! installed browser, the download itself and the unpacking are I/O and are
//! driven by the application crate.

use vstd::prelude::*;
use vstd::string::StringExecFns;

use crate::jsonval::{json_array_len, json_get, json_index, json_parse, json_str_field};
use crate::text::{chars_of, find_char, first_idx, lemma_first_idx_bounds, str_eq, string_of};

verus! {

/// Path of a previously fetched browser executable under the data
/// directory, joined with forward slashes, by platform name ("macos",
/// "windows", anything else is treated as linux).
pub fn downloaded_chrome_path(data_dir: &str, os: &str) -> (r: String)
    ensures
        os@ == "macos"@ ==> r@ == data_dir@
            + "/chrome/Google Chrome for Testing.app/Contents/MacOS/Google Chrome for Testing"@,
        os@ == "windows"@ ==> r@ == data_dir@ + "/chrome/chrome.exe"@,
        os@ != "macos"@ && os@ != "windows"@ ==> r@ == data_dir@ + "/chrome/chrome"@,
{
    proof {
        reveal_strlit("macos");
        reveal_strlit("windows");
    }
    let mut r = String::from_str(data_dir);
    if str_eq(os, "macos") {
        proof {
            assert("macos"@.len() == 5);
            assert("windows"@.len() == 7);
            assert(os@ != "windows"@);
        }
        r.append("/chrome/Google Chrome for Testing.app/Contents/MacOS/Google Chrome for Testing");
    } else if str_eq(os, "windows") {
        r.append("/chrome/chrome.exe");
    } else {
        r.append("/chrome/chrome");
    }
    r
}

/// Pick the download URL for `platform` out of the published version feed:
/// the entry of `channels.Stable.downloads.chrome` whose platform matches.
pub fn select_download_url(versions_json: &str, platform: &str) -> (r: Option<String>) {
    let root = match json_parse(versions_json) {
        Some(v) => v,
        None => {
            return None;
        },
    };
    let channels = match json_get(&root, "channels") {
        Some(v) => v,
        None => {
            return None;
        },
    };
    let stable = match json_get(channels, "Stable") {
        Some(v) => v,
        None => {
            return None;
        },
    };
    let downloads = match json_get(stable, "downloads") {
        Some(v) => v,
        None => {
            return None;
        },
    };
    let chrome = match json_get(downloads, "chrome") {
        Some(v) => v,
        None => {
            return None;
        },
    };
    let len = match json_array_len(chrome) {
        Some(l) => l,
        None => {
            return None;
        },
    };
    let mut i: usize = 0;
    while i < len
        decreases len - i,
    {
        if let Some(entry) = json_index(chrome, i) {
            if let Some(p) = json_str_field(entry, "platform") {
                if str_eq(p.as_str(), platform) {
                    return json_str_field(entry, "url");
                }
            }
        }
        i = i + 1;
    }
    None
}

/// An archive entry name with its top-level directory stripped: everything
/// after the first slash, or nothing when the name has no slash.
pub fn strip_top_dir(name: &str) -> (r: Option<String>)
    ensures
        first_idx(name@, '/') < 0 ==> r is None,
        first_idx(name@, '/') >= 0 ==> (r matches Some(s) && s@ == name@.skip(
            first_idx(name@, '/') + 1,
        )),
{
    let cs = chars_of(name);
    match find_char(cs.as_slice(), '/') {
        Some(i) => {
            proof {
                lemma_first_idx_bounds(name@, '/');
            }
            let n = cs.len();
            let mut rest: Vec<char> = Vec::new();
            let mut j: usize = i + 1;
            while j < n
                invariant
                    i + 1 <= j <= n,
                    n == cs@.len(),
                    cs@ == name@,
                    rest@ == name@.subrange(i + 1, j as int),
                decreases n - j,
            {
                rest.push(cs[j]);
                j = j + 1;
                proof {
                    assert(rest@ =~= name@.subrange(i + 1, j as int));
                }
            }
            proof {
                assert(rest@ =~= name@.skip(i + 1));
            }
            Some(string_of(rest.as_slice()))
        },
        None => None,
    }
}

} // verus!
