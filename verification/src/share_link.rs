//! The share-link port: reading and writing the page URL and its fragment (`#` and
//! after) where there is one, and the desktop implementation, which has no address bar.
//!
//! What goes into the fragment (the share body) is decided elsewhere; this port only
//! places it into a URL. The browser implementation lives with the web front end.
use crate::text::{starts_with, str_equals};
use vstd::prelude::*;

verus! {

/// Access to the page URL and its fragment, as far as the platform has one.
pub trait ShareNavigationPort: Send + Sync {
    /// The whole page URL for "Copy link": the page, then `#` and `fragment_body`.
    fn full_share_page_url_with_readable_body(&self, fragment_body: &str) -> Result<String, String>;

    /// Replaces the page's fragment by `fragment_body` (a browser uses `history.replaceState`).
    fn replace_readable_fragment_body(&self, fragment_body: &str) -> Result<(), String>;

    /// The current fragment without its `#`, if there is one.
    fn current_fragment_body(&self) -> Option<String>;

    /// Whether the page already shows this share body, so that replacing it can be skipped.
    fn readable_share_equals_current_fragment(&self, readable_body: &str) -> bool;
}

/// The desktop implementation: a native window has no address bar, so the fragment can
/// be neither read nor written, and "Copy link" yields `?from=share#` and the body.
#[derive(Clone, Copy, Default)]
pub struct DesktopShareNavigator;

impl ShareNavigationPort for DesktopShareNavigator {
    fn full_share_page_url_with_readable_body(&self, fragment_body: &str) -> (res: Result<String, String>)
        ensures
            res matches Ok(url) && url@ == "?from=share#"@ + fragment_body@,
    {
        let mut url = String::from_str("?from=share#");
        url.append(fragment_body);
        Ok(url)
    }

    fn replace_readable_fragment_body(&self, _fragment_body: &str) -> (res: Result<(), String>)
        ensures
            res is Ok,
    {
        Ok(())
    }

    fn current_fragment_body(&self) -> (res: Option<String>)
        ensures
            res is None,
    {
        None
    }

    fn readable_share_equals_current_fragment(&self, _readable_body: &str) -> (res: bool)
        ensures
            !res,
    {
        false
    }
}

/// The URL without its fragment: everything before the first `#`, or all of it.
pub fn url_without_fragment(href: &str) -> (res: &str)
    ensures
        (forall|j: int| 0 <= j < href@.len() ==> href@[j] != '#') ==> res@ == href@,
        forall|i: int|
            0 <= i < href@.len() && href@[i] == '#' && (forall|j: int| 0 <= j < i ==> href@[j] != '#')
                ==> res@ == href@.take(i),
{
    let n = href.unicode_len();
    let mut i: usize = 0;
    while i < n
        invariant
            n == href@.len(),
            i <= n,
            forall|j: int| 0 <= j < i ==> href@[j] != '#',
        decreases n - i,
    {
        if href.get_char(i) == '#' {
            let before = href.substring_char(0, i);
            assert(before@ =~= href@.take(i as int));
            return before;
        }
        i = i + 1;
    }
    href
}

/// Whether the fragment currently shown is already this share body: there must be a
/// fragment, it must start with `v=`, and it must equal the body.
pub fn fragment_shows_readable_body(current: Option<&str>, readable_body: &str) -> (res: bool)
    ensures
        res == (current matches Some(head) && head@.len() >= 2 && head@.take(2) == "v="@ && head@
            == readable_body@),
{
    match current {
        None => false,
        Some(head) => {
            proof {
                reveal_strlit("v=");
            }
            starts_with(head, "v=") && str_equals(head, readable_body)
        },
    }
}

/// The text handed to the system share sheet with an exported image: a `#fractalium`
/// line, followed by the share URL when one could be built.
pub fn share_sheet_text(url: Option<&str>) -> (res: String)
    ensures
        url matches Some(u) ==> res@ == "\n#fractalium\n"@ + u@,
        url is None ==> res@ == "\n#fractalium"@,
{
    match url {
        Some(u) => {
            let mut text = String::from_str("\n#fractalium\n");
            text.append(u);
            text
        },
        None => String::from_str("\n#fractalium"),
    }
}

} // verus!
