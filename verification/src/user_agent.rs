//! Recognising iOS-family browsers from the user agent, which decides whether an
//! exported image goes through the system share sheet first (on the web build).
use crate::text::{ascii_lowercase, contains_run, contains_text, lowercase_chars};
use vstd::prelude::*;

verus! {

/// An iPhone, iPad or iPod user agent, or a Macintosh one with a touch screen (iPadOS
/// presents itself as a Mac), compared without ASCII case.
pub open spec fn spec_ua_looks_like_ios_family(user_agent: Seq<char>, max_touch_points: i32) -> bool {
    let ua = ascii_lowercase(user_agent);
    contains_run(ua, "iphone"@) || contains_run(ua, "ipad"@) || contains_run(ua, "ipod"@) || (
    contains_run(ua, "macintosh"@) && max_touch_points > 0)
}

/// Whether the browser's user agent (and its number of touch points) looks like an
/// iOS-family device.
pub fn ua_looks_like_ios_family(user_agent: &str, max_touch_points: i32) -> (res: bool)
    ensures
        res == spec_ua_looks_like_ios_family(user_agent@, max_touch_points),
{
    let ua = lowercase_chars(user_agent);
    contains_text(&ua, "iphone") || contains_text(&ua, "ipad") || contains_text(&ua, "ipod") || (
    contains_text(&ua, "macintosh") && max_touch_points > 0)
}

} // verus!
