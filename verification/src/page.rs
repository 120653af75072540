//! What a view shows and how views are named.

use vstd::prelude::*;

verus! {

/// Names one view. Identifiers are handed out by the rendering backend.
pub type ViewId = usize;

/// The content a view is asked to show: a page behind an address, or markup
/// given directly.
#[derive(Clone, Debug, PartialEq, Eq, PartialOrd, Ord)]
pub enum PageType {
    /// A page to be retrieved from this address.
    Url(String),
    /// Markup to be shown as it is.
    Html(String),
}

/// The size of the area that views are laid out for, in logical pixels.
#[derive(Clone, Copy, Debug, PartialEq, Eq, Structural)]
pub struct ViewSize {
    pub width: u32,
    pub height: u32,
}

/// The address shown for a view that has none.
pub open spec fn blank_address() -> Seq<char> {
    "about:blank"@
}

/// The address a view reports: its own, or `about:blank` while it has none.
pub open spec fn shown_address(url: Seq<char>) -> Seq<char> {
    if url.len() == 0 {
        blank_address()
    } else {
        url
    }
}

/// Gives the address that a view with the stored address `url` reports.
pub fn display_url(url: &str) -> (out: String)
    ensures
        out@ == shown_address(url@),
{
    if url.is_empty() {
        String::from_str("about:blank")
    } else {
        String::from_str(url)
    }
}

/// Takes note of a text that was reported, an address or a title. Tells
/// whether it differs from the text on record, which it then replaces.
pub fn note_change(recorded: &mut String, reported: &str) -> (changed: bool)
    ensures
        changed == (old(recorded)@ != reported@),
        final(recorded)@ == reported@,
{
    let fresh = String::from_str(reported);
    let same = recorded.as_str().to_owned() == fresh;
    if same {
        false
    } else {
        *recorded = fresh;
        true
    }
}

impl ViewSize {
    /// The size used until the host reports one.
    pub fn initial() -> (s: ViewSize)
        ensures
            s.width == 1920,
            s.height == 1080,
    {
        ViewSize { width: 1920, height: 1080 }
    }

    /// The size a backend allocates for: no side is ever zero.
    pub fn at_least_one(self) -> (s: ViewSize)
        ensures
            s.width == if self.width == 0 { 1u32 } else { self.width },
            s.height == if self.height == 0 { 1u32 } else { self.height },
    {
        ViewSize {
            width: if self.width == 0 { 1 } else { self.width },
            height: if self.height == 0 { 1 } else { self.height },
        }
    }
}

} // verus!
