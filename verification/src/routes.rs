//! Small pieces of the backend's HTTP surface that carry logic of their
//! own: route grouping for metrics, and the empty response body.

use vstd::prelude::*;
use vstd::string::StrSliceExecFns;

verus! {

/// The body of a response that carries no payload.
pub struct EmptyResponse {}

/// The route prefix under which user HTTP actions are served.
pub open spec fn http_action_prefix() -> Seq<char> {
    "/http/"@
}

/// What `map_route` returns: every route under the user HTTP action prefix
/// is grouped under one tag, every other route is kept as it is.
pub open spec fn spec_map_route(route: Seq<char>) -> Seq<char> {
    if route.len() >= http_action_prefix().len() && route.take(http_action_prefix().len() as int)
        == http_action_prefix() {
        "/http/:user_http_action"@
    } else {
        route
    }
}

/// Groups routes for metrics tagging.
pub struct HttpActionRouteMapper;

impl HttpActionRouteMapper {
    /// Maps a route to its metrics tag: arbitrary user HTTP action routes
    /// are grouped under one tag, so they cannot blow up the tag space.
    pub fn map_route(&self, route: String) -> (r: String)
        ensures
            r@ == spec_map_route(route@),
    {
        proof {
            reveal_strlit("/http/");
            reveal_strlit("/http/:user_http_action");
        }
        let prefix_len: usize = 6;
        let n = route.as_str().unicode_len();
        if n < prefix_len {
            return route;
        }
        let mut i: usize = 0;
        let mut matches_prefix = true;
        proof {
            assert(route@.take(0) =~= http_action_prefix().take(0));
        }
        while i < prefix_len
            invariant
                i <= prefix_len,
                prefix_len == http_action_prefix().len(),
                prefix_len <= route@.len(),
                matches_prefix == (route@.take(i as int) == http_action_prefix().take(i as int)),
            decreases prefix_len - i,
        {
            proof {
                reveal_strlit("/http/");
            }
            let c = route.as_str().get_char(i);
            let expected: char = if i == 0 {
                '/'
            } else if i == 1 {
                'h'
            } else if i == 2 {
                't'
            } else if i == 3 {
                't'
            } else if i == 4 {
                'p'
            } else {
                '/'
            };
            proof {
                assert(http_action_prefix()[i as int] == expected);
                assert(route@.take(i + 1).drop_last() =~= route@.take(i as int));
                assert(http_action_prefix().take(i + 1).drop_last() =~= http_action_prefix().take(
                    i as int,
                ));
                if route@.take(i as int) == http_action_prefix().take(i as int) && c == expected {
                    assert(route@.take(i + 1) =~= http_action_prefix().take(i + 1));
                }
                if route@.take(i + 1) == http_action_prefix().take(i + 1) {
                    assert(route@.take(i + 1).last() == http_action_prefix().take(i + 1).last());
                    assert(route@.take(i + 1).drop_last() == http_action_prefix().take(
                        i + 1,
                    ).drop_last());
                }
            }
            matches_prefix = matches_prefix && c == expected;
            i = i + 1;
        }
        proof {
            assert(http_action_prefix().take(prefix_len as int) =~= http_action_prefix());
            assert(route@.take(prefix_len as int) == route@.take(
                http_action_prefix().len() as int,
            ));
        }
        if matches_prefix {
            "/http/:user_http_action".to_owned()
        } else {
            route
        }
    }
}

} // verus!
