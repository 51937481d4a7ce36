use vstd::prelude::*;

use crate::text::{after_last_slash, last_segment, text_less, text_lt};

verus! {

/// Whether the release that `release_url` names is newer than `current`: the
/// last segment of the URL's path orders after `current`, text by text.
pub open spec fn is_newer_release(release_url: Seq<char>, current: Seq<char>) -> bool {
    text_lt(current, last_segment(release_url))
}

/// Whether the latest release, whose page is `release_url`, is newer than
/// the running version `current`.
pub fn update_available(release_url: &str, current: &str) -> (r: bool)
    ensures
        r == is_newer_release(release_url@, current@),
{
    let remote = after_last_slash(release_url);
    text_less(current, remote.as_str())
}

} // verus!
