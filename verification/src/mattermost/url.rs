//! Where a Mattermost server is reached.

use crate::text::{begins_with, strip_prefix, trim_end_char, without_trailing};
use vstd::prelude::*;

verus! {

/// A base URL with the scheme of the WebSocket in place of that of HTTP.
pub open spec fn scheme_swapped(base: Seq<char>) -> Seq<char> {
    if begins_with(base, "https://"@) {
        "wss://"@ + base.skip("https://"@.len() as int)
    } else if begins_with(base, "http://"@) {
        "ws://"@ + base.skip("http://"@.len() as int)
    } else {
        base
    }
}

/// The URL of the realtime WebSocket of a server.
pub open spec fn websocket_url_of(base: Seq<char>) -> Seq<char> {
    scheme_swapped(without_trailing(base, '/')) + "/api/v4/websocket"@
}

/// A slash at the end of the base URL does not matter.
pub proof fn a_trailing_slash_does_not_matter(base: Seq<char>)
    ensures
        websocket_url_of(base.push('/')) == websocket_url_of(base),
{
    assert(base.push('/').drop_last() =~= base);
}

/// Derives the realtime WebSocket URL from a Mattermost base URL, swapping the HTTP scheme for its
/// WebSocket equivalent and appending the realtime path.
pub fn websocket_url(base: &str) -> (url: String)
    ensures
        url@ == websocket_url_of(base@),
{
    let base = trim_end_char(base, '/');
    let mut url = String::new();
    assert(url@ =~= Seq::<char>::empty());
    match strip_prefix(base, "https://") {
        Some(rest) => {
            url.append("wss://");
            url.append(rest);
            assert(url@ =~= scheme_swapped(base@));
        },
        None => match strip_prefix(base, "http://") {
            Some(rest) => {
                url.append("ws://");
                url.append(rest);
                assert(url@ =~= scheme_swapped(base@));
            },
            None => {
                url.append(base);
                assert(url@ =~= base@);
            },
        },
    }
    url.append("/api/v4/websocket");
    url
}

/// The URL of a path of the REST API.
pub fn api_url(base: &str, path: &str) -> (url: String)
    ensures
        url@ == base@ + path@,
{
    let mut url = base.to_owned();
    url.append(path);
    url
}

} // verus!
