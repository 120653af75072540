//! Directory and search-path names that a backend derives from the process
//! environment. The environment itself is read by the host; what is made of
//! its values is decided here.

use crate::text::{chars_of, find, first_match};
use vstd::prelude::*;
use vstd::string::StringExecFns;

verus! {

/// `needle` occurs somewhere in `hay`.
pub open spec fn occurs(hay: Seq<char>, needle: Seq<char>) -> bool {
    first_match(hay, needle, 0) is Some
}

/// The search path with `dir` put in front, separated by a colon, or nothing
/// if `dir` occurs in the path already.
pub open spec fn search_path_with(dir: Seq<char>, current: Seq<char>) -> Option<Seq<char>> {
    if occurs(current, dir) {
        None
    } else if current.len() == 0 {
        Some(dir)
    } else {
        Some(dir + ":"@ + current)
    }
}

/// The user's cache directory: the one the environment names, else
/// `.cache` under the home directory, else `.cache` under `/tmp`.
pub open spec fn cache_home(named: Option<Seq<char>>, home: Option<Seq<char>>) -> Seq<char> {
    match named {
        Some(dir) => dir,
        None => match home {
            Some(h) => h + "/.cache"@,
            None => "/tmp"@ + "/.cache"@,
        },
    }
}

/// The directory in which an engine keeps its cache.
pub open spec fn engine_cache(named: Option<Seq<char>>, home: Option<Seq<char>>) -> Seq<char> {
    cache_home(named, home) + "/iced_webview_cef"@
}

/// The text of an optional string slice.
pub open spec fn slice_text(o: Option<&str>) -> Option<Seq<char>> {
    match o {
        Some(s) => Some(s@),
        None => None,
    }
}

/// Puts `dir` in front of a search path unless the path names it already.
/// Returns the new value of the path, or `None` if the path is to stay.
pub fn prepend_search_path(dir: &str, current: &str) -> (r: Option<String>)
    ensures
        match r {
            Some(path) => search_path_with(dir@, current@) == Some(path@),
            None => search_path_with(dir@, current@) is None,
        },
{
    let hay = chars_of(current);
    let needle = chars_of(dir);
    if find(&hay, &needle, 0).is_some() {
        return None;
    }
    if current.is_empty() {
        Some(String::from_str(dir))
    } else {
        let mut path = String::from_str(dir);
        path.append(":");
        path.append(current);
        Some(path)
    }
}

/// Names the directory in which an engine keeps its cache, given the cache
/// directory and the home directory that the environment names, if any.
pub fn engine_cache_dir(named: Option<&str>, home: Option<&str>) -> (r: String)
    ensures
        r@ == engine_cache(slice_text(named), slice_text(home)),
{
    let mut dir = match named {
        Some(d) => String::from_str(d),
        None => {
            let mut base = match home {
                Some(h) => String::from_str(h),
                None => String::from_str("/tmp"),
            };
            base.append("/.cache");
            base
        },
    };
    dir.append("/iced_webview_cef");
    dir
}

} // verus!
